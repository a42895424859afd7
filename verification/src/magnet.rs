use vstd::prelude::*;
use vstd::seq_lib::group_to_multiset_ensures;
use crate::error::Error;
use crate::html::spec_selector_ok;
use crate::item::{Item, Method, Preview, Previewable, Request, SourceId};
use crate::javdb::Javdb;
use crate::madou::Madou;
use crate::u3c3::U3C3;

verus! {

/// One registered source adapter.  The set of sources is closed, so the
/// registry can never hold two adapters with the same identifier by
/// construction.
pub enum Finder {
    U3c3(U3C3),
    Javdb(Javdb),
    Madou(Madou),
}

impl Finder {
    /// The opaque identifier this adapter is registered under.
    pub open spec fn spec_id(self) -> SourceId {
        match self {
            Finder::U3c3(_) => SourceId::U3c3,
            Finder::Javdb(_) => SourceId::Javdb,
            Finder::Madou(_) => SourceId::Madou,
        }
    }

    /// The opaque identifier this adapter is registered under.
    pub fn id(&self) -> (r: SourceId)
        ensures
            r == self.spec_id(),
    {
        match self {
            Finder::U3c3(_) => SourceId::U3c3,
            Finder::Javdb(_) => SourceId::Javdb,
            Finder::Madou(_) => SourceId::Madou,
        }
    }

    /// What the search request of an adapter for a keyword holds.
    pub open spec fn spec_request_ok(self, key: Seq<char>, r: Request) -> bool {
        match self {
            Finder::U3c3(_) => {
                &&& r.method == Method::Get
                &&& r.url@ == U3C3::spec_base_url()
                &&& r.params.deep_view() == seq![("search"@, key), ("search2"@, "eelja3lfe1a1"@)]
            },
            Finder::Javdb(_) => {
                &&& r.method == Method::Get
                &&& r.url@ == Javdb::spec_base_url() + "/search"@
                &&& r.params.deep_view() == seq![("q"@, key), ("f"@, "all"@)]
            },
            Finder::Madou(_) => {
                &&& r.method == Method::Post
                &&& r.url@ == Madou::spec_base_url() + "/search.php"@
                &&& r.params.deep_view() == seq![("keyword"@, key)]
            },
        }
    }

    /// The search request of this adapter for a keyword.
    pub fn find_request(&self, key: &str) -> (r: Request)
        ensures
            self.spec_request_ok(key@, r),
    {
        match self {
            Finder::U3c3(f) => f.find_request(key),
            Finder::Javdb(f) => f.find_request(key),
            Finder::Madou(f) => f.find_request(key),
        }
    }

    /// What the items parsed from a listing page by an adapter hold.  The
    /// month-day source reads its dates against the machine's current
    /// date, so its items are pinned for some valid calendar day.
    pub open spec fn spec_items_ok(self, html: Seq<char>, items: Seq<Item>) -> bool {
        match self {
            Finder::U3c3(_) => {
                &&& items.len() == U3C3::spec_row_count(html)
                &&& forall|k: int|
                    0 <= k < items.len() ==> U3C3::spec_item_at(html, k + 2, #[trigger] items[k])
            },
            Finder::Javdb(_) => {
                &&& items.len() == Javdb::spec_row_count(html)
                &&& forall|k: int|
                    0 <= k < items.len() ==> Javdb::spec_item_at(html, k, #[trigger] items[k])
            },
            Finder::Madou(_) => exists|y: int, m: int, d: int|
                {
                    &&& -400000 < y < 400000
                    &&& 1 <= m <= 12
                    &&& 1 <= d <= 31
                    &&& #[trigger] Madou::spec_items_for(html, y, m, d, items)
                },
        }
    }

    /// Parses a listing page with this adapter.  Every item carries a
    /// preview handle naming this adapter's identifier, so a later
    /// preview request routes back here.
    pub fn parse_find(&self, html: &str) -> (r: Vec<Item>)
        ensures
            self.spec_items_ok(html@, r@),
            forall|k: int|
                0 <= k < r@.len() ==> (#[trigger] r@[k]).preview.source == self.spec_id(),
    {
        match self {
            Finder::U3c3(f) => f.parse_find(html),
            Finder::Javdb(f) => f.parse_find(html),
            Finder::Madou(f) => f.parse_find_today(html),
        }
    }

    /// What the preview parsed by the adapter of a source holds.
    pub open spec fn spec_preview_ok(id: SourceId, html: Seq<char>, p: Preview) -> bool {
        match id {
            SourceId::U3c3 => U3C3::spec_preview_at(html, p),
            SourceId::Javdb => Javdb::spec_preview_at(html, p),
            SourceId::Madou => Madou::spec_preview_at(html, p),
        }
    }

    /// Parses a preview page with this adapter.
    pub fn parse_preview(&self, html: &str) -> (r: Preview)
        ensures
            Self::spec_preview_ok(self.spec_id(), html@, r),
    {
        match self {
            Finder::U3c3(f) => f.parse_preview(html),
            Finder::Javdb(f) => f.parse_preview(html),
            Finder::Madou(f) => f.parse_preview(html),
        }
    }
}

/// The index of the first registered finder with an identifier, or
/// `None` when no finder carries it.
pub open spec fn spec_route(finders: Seq<Finder>, id: SourceId) -> Option<int>
    decreases finders.len(),
{
    if finders.len() == 0 {
        Option::None
    } else if finders[0].spec_id() == id {
        Option::Some(0)
    } else {
        match spec_route(finders.drop_first(), id) {
            Option::Some(i) => Option::Some(i + 1),
            Option::None => Option::None,
        }
    }
}

/// Preview routing is exact: when routing finds an index, it is the first
/// finder registered under the handle's identifier — never another
/// source's; when it finds none, no registered finder carries the
/// identifier.
pub proof fn lemma_preview_routing(finders: Seq<Finder>, id: SourceId)
    ensures
        match spec_route(finders, id) {
            Option::Some(i) => {
                &&& 0 <= i < finders.len()
                &&& finders[i].spec_id() == id
                &&& forall|k: int| 0 <= k < i ==> (#[trigger] finders[k]).spec_id() != id
            },
            Option::None => forall|k: int|
                0 <= k < finders.len() ==> (#[trigger] finders[k]).spec_id() != id,
        },
    decreases finders.len(),
{
    if finders.len() > 0 && finders[0].spec_id() != id {
        lemma_preview_routing(finders.drop_first(), id);
        assert(forall|k: int|
            1 <= k < finders.len() ==> finders.drop_first()[k - 1] == #[trigger] finders[k]);
    }
}

/// A scan that stops at the first finder with the identifier has found
/// the route.
proof fn lemma_route_scan(finders: Seq<Finder>, id: SourceId, j: nat)
    requires
        j <= finders.len(),
        forall|k: int| 0 <= k < j ==> (#[trigger] finders[k]).spec_id() != id,
        j < finders.len() ==> finders[j as int].spec_id() == id,
    ensures
        spec_route(finders, id) == if j == finders.len() {
            Option::<int>::None
        } else {
            Option::<int>::Some(j as int)
        },
    decreases j, finders.len(),
{
    if finders.len() == 0 {
    } else if j == 0 {
    } else {
        lemma_route_scan(finders.drop_first(), id, (j - 1) as nat);
    }
}

/// The registry never collides: two finders registered under the same
/// identifier are the same adapter kind, so a registry holding each
/// adapter at most once keys every preview handle unambiguously.
pub proof fn lemma_registry_collision_free(finders: Seq<Finder>, i: int, j: int)
    requires
        0 <= i < finders.len(),
        0 <= j < finders.len(),
        finders[i].spec_id() == finders[j].spec_id(),
    ensures
        finders[i] is U3c3 <==> finders[j] is U3c3,
        finders[i] is Javdb <==> finders[j] is Javdb,
        finders[i] is Madou <==> finders[j] is Madou,
{
}

/// The observable content of a search result: its title, byte count,
/// timestamp, and preview handle.  (The pre-rendered date string depends
/// on the machine's time zone, so items are compared by this key.)
pub open spec fn spec_item_key(it: Item) -> (Seq<char>, u64, i64, SourceId, Seq<char>) {
    (it.title@, it.size.spec_size(), it.date.spec_timestamp(), it.preview.source, it.preview.url@)
}

/// The single merge order of search results: by date, most recent first,
/// ties broken by size, largest first.
pub open spec fn spec_items_sorted(s: Seq<Item>) -> bool {
    forall|i: int, j: int|
        0 <= i < j < s.len() ==> {
            ||| s[i].date.spec_timestamp() > s[j].date.spec_timestamp()
            ||| (s[i].date.spec_timestamp() == s[j].date.spec_timestamp()
                && s[i].size.spec_size() >= s[j].size.spec_size())
        }
}

/// The items of the succeeding sources, concatenated in source order: a
/// failing source contributes nothing and fails nothing.
pub open spec fn spec_ok_items(outcomes: Seq<Result<Vec<Item>, Error>>) -> Seq<Item>
    decreases outcomes.len(),
{
    if outcomes.len() == 0 {
        Seq::empty()
    } else {
        (match outcomes[0] {
            Result::Ok(v) => v@,
            Result::Err(_) => Seq::empty(),
        }) + spec_ok_items(outcomes.drop_first())
    }
}

/// The count of items the succeeding sources contribute.
pub open spec fn spec_ok_len(outcomes: Seq<Result<Vec<Item>, Error>>) -> nat
    decreases outcomes.len(),
{
    if outcomes.len() == 0 {
        0
    } else {
        (match outcomes[0] {
            Result::Ok(v) => v@.len(),
            Result::Err(_) => 0,
        }) + spec_ok_len(outcomes.drop_first())
    }
}

/// Fan-out completeness: the merged result set holds exactly as many
/// items as all succeeding sources returned together, however many
/// sources failed.
pub proof fn lemma_fanout_completeness(outcomes: Seq<Result<Vec<Item>, Error>>)
    ensures
        spec_ok_items(outcomes).len() == spec_ok_len(outcomes),
    decreases outcomes.len(),
{
    if outcomes.len() > 0 {
        lemma_fanout_completeness(outcomes.drop_first());
    }
}

/// Sorts search results into the single merge order: date, most recent
/// first, ties broken by size, largest first; exactly the given items
/// (compared by their observable content) come out.
fn sort_items(v: Vec<Item>) -> (r: Vec<Item>)
    ensures
        r@.len() == v@.len(),
        r@.map_values(|it: Item| spec_item_key(it)).to_multiset() == v@.map_values(
            |it: Item| spec_item_key(it),
        ).to_multiset(),
        spec_items_sorted(r@),
{
    broadcast use group_to_multiset_ensures;

    let mut src = v;
    let mut out: Vec<Item> = Vec::new();
    while src.len() > 0
        invariant
            out@.len() + src@.len() == v@.len(),
            out@.map_values(|it: Item| spec_item_key(it)).to_multiset().add(
                src@.map_values(|it: Item| spec_item_key(it)).to_multiset(),
            ) == v@.map_values(|it: Item| spec_item_key(it)).to_multiset(),
            spec_items_sorted(out@),
            forall|i: int, j: int|
                0 <= i < out@.len() && 0 <= j < src@.len() ==> {
                    ||| out@[i].date.spec_timestamp() > src@[j].date.spec_timestamp()
                    ||| (out@[i].date.spec_timestamp() == src@[j].date.spec_timestamp()
                        && out@[i].size.spec_size() >= src@[j].size.spec_size())
                },
        decreases src@.len(),
    {
        // find the best remaining item under the merge order
        let mut m: usize = 0;
        let mut i: usize = 1;
        while i < src.len()
            invariant
                m < i <= src@.len() || (i == 1 && m == 0 && src@.len() > 0),
                m < src@.len(),
                forall|k: int|
                    0 <= k < i && k < src@.len() ==> {
                        ||| src@[m as int].date.spec_timestamp() > (#[trigger] src@[k]).date.spec_timestamp()
                        ||| (src@[m as int].date.spec_timestamp() == src@[k].date.spec_timestamp()
                            && src@[m as int].size.spec_size() >= src@[k].size.spec_size())
                    },
            decreases src@.len() - i,
        {
            let ts_i = src[i].date.timestamp();
            let ts_m = src[m].date.timestamp();
            if ts_i > ts_m || (ts_i == ts_m && src[i].size.size() > src[m].size.size()) {
                m = i;
            }
            i = i + 1;
        }
        let ghost old_out = out@;
        let ghost old_src = src@;
        let it = src.remove(m);
        out.push(it);
        proof {
            broadcast use vstd::multiset::group_multiset_axioms;

            let f = |it: Item| spec_item_key(it);
            assert(old_src.map_values(f)[m as int] == f(it));
            assert(old_src.map_values(f).contains(f(it)));
            vstd::seq_lib::to_multiset_contains(old_src.map_values(f), f(it));
            vstd::seq_lib::to_multiset_remove(old_src.map_values(f), m as int);
            vstd::seq_lib::to_multiset_build(old_out.map_values(f), f(it));
            assert(src@.map_values(f) =~= old_src.map_values(f).remove(m as int));
            assert(out@.map_values(f) =~= old_out.map_values(f).push(f(it)));
            assert(out@.map_values(f).to_multiset().add(src@.map_values(f).to_multiset())
                =~= old_out.map_values(f).to_multiset().add(old_src.map_values(f).to_multiset()));
        }
    }
    out
}

/// The aggregator: it owns the registry of finders, fans a search out to
/// every one of them, merges and ranks what comes back, and routes a
/// preview request to the one finder that produced the chosen item.
pub struct Magnet {
    finders: Vec<Finder>,
}

impl Magnet {
    /// The registered finders, in registration order.
    pub closed spec fn spec_finders(self) -> Seq<Finder> {
        self.finders@
    }

    /// Whether some finder is registered under an identifier.
    pub open spec fn spec_has_source(self, id: SourceId) -> bool {
        exists|i: int|
            0 <= i < self.spec_finders().len() && (#[trigger] self.spec_finders()[i]).spec_id()
                == id
    }

    /// Builds the aggregator with every known source adapter, keyed by
    /// its identifier.  Any adapter whose selectors fail to compile
    /// aborts construction with that adapter's `Parse` error.
    pub fn new() -> (r: Result<Magnet, Error>)
        ensures
            r is Ok <==> (U3C3::spec_selectors_ok() && Javdb::spec_selectors_ok()
                && Madou::spec_selectors_ok()),
            r matches Ok(m) ==> {
                &&& m.spec_finders().len() == 3
                &&& m.spec_finders()[0] is U3c3
                &&& m.spec_finders()[1] is Javdb
                &&& m.spec_finders()[2] is Madou
            },
            r matches Err(e) ==> e matches Error::Parse(s) && !spec_selector_ok(s@),
    {
        let u = match U3C3::new() {
            Ok(f) => f,
            Err(e) => {
                return Err(e);
            },
        };
        let j = match Javdb::new() {
            Ok(f) => f,
            Err(e) => {
                return Err(e);
            },
        };
        let m = match Madou::new() {
            Ok(f) => f,
            Err(e) => {
                return Err(e);
            },
        };
        let mut finders: Vec<Finder> = Vec::new();
        finders.push(Finder::U3c3(u));
        finders.push(Finder::Javdb(j));
        finders.push(Finder::Madou(m));
        Ok(Magnet { finders })
    }

    /// Builds an aggregator over a caller-chosen registry.
    pub fn with_finders(finders: Vec<Finder>) -> (r: Magnet)
        ensures
            r.spec_finders() == finders@,
    {
        Magnet { finders }
    }

    /// How many finders are registered.
    pub fn source_count(&self) -> (r: usize)
        ensures
            r as nat == self.spec_finders().len(),
    {
        self.finders.len()
    }

    /// The search requests of the whole registry for a keyword, one per
    /// finder, each tagged with the finder's identifier.  The caller
    /// performs them concurrently and hands each body back for parsing.
    pub fn find_requests(&self, key: &str) -> (r: Vec<(SourceId, Request)>)
        ensures
            r@.len() == self.spec_finders().len(),
            forall|i: int|
                0 <= i < r@.len() ==> {
                    &&& (#[trigger] r@[i]).0 == self.spec_finders()[i].spec_id()
                    &&& self.spec_finders()[i].spec_request_ok(key@, r@[i].1)
                },
    {
        let mut out: Vec<(SourceId, Request)> = Vec::new();
        let mut i: usize = 0;
        while i < self.finders.len()
            invariant
                i <= self.finders@.len(),
                out@.len() == i,
                forall|k: int|
                    0 <= k < out@.len() ==> {
                        &&& (#[trigger] out@[k]).0 == self.finders@[k].spec_id()
                        &&& self.finders@[k].spec_request_ok(key@, out@[k].1)
                    },
            decreases self.finders@.len() - i,
        {
            let f = &self.finders[i];
            out.push((f.id(), f.find_request(key)));
            i = i + 1;
        }
        out
    }

    /// Parses the listing page one source returned, with that source's
    /// adapter; `TypeNotFound` when the identifier has no registered
    /// finder.
    pub fn parse_find(&self, source: SourceId, html: &str) -> (r: Result<Vec<Item>, Error>)
        ensures
            match r {
                Result::Ok(items) => {
                    &&& self.spec_has_source(source)
                    &&& match spec_route(self.spec_finders(), source) {
                        Option::Some(i) => self.spec_finders()[i].spec_items_ok(html@, items@),
                        Option::None => false,
                    }
                    &&& forall|k: int|
                        0 <= k < items@.len() ==> (#[trigger] items@[k]).preview.source == source
                },
                Result::Err(e) => e == Error::TypeNotFound && !self.spec_has_source(source),
            },
    {
        match self.route_to(source) {
            Result::Ok(f) => Ok(f.parse_find(html)),
            Result::Err(e) => Err(e),
        }
    }

    /// Merges what the fanned-out sources returned: a failing source is
    /// dropped and aborts nothing; the succeeding sources' items are
    /// concatenated and ranked in the single merge order — by date, most
    /// recent first, ties broken by size, largest first.
    pub fn find(&self, outcomes: Vec<Result<Vec<Item>, Error>>) -> (r: Vec<Item>)
        ensures
            r@.len() == spec_ok_items(outcomes@).len(),
            r@.map_values(|it: Item| spec_item_key(it)).to_multiset() == spec_ok_items(
                outcomes@,
            ).map_values(|it: Item| spec_item_key(it)).to_multiset(),
            spec_items_sorted(r@),
    {
        let ghost orig = outcomes@;
        let mut outcomes = outcomes;
        let mut items: Vec<Item> = Vec::new();
        while outcomes.len() > 0
            invariant
                items@ + spec_ok_items(outcomes@) =~= spec_ok_items(orig),
            decreases outcomes@.len(),
        {
            let ghost before = outcomes@;
            let o = outcomes.remove(0);
            proof {
                assert(outcomes@ =~= before.drop_first());
            }
            match o {
                Result::Ok(mut v) => {
                    let ghost vi = v@;
                    let ghost done = items@;
                    while v.len() > 0
                        invariant
                            items@ + v@ =~= done + vi,
                        decreases v@.len(),
                    {
                        let ghost vb = v@;
                        let it = v.remove(0);
                        items.push(it);
                        proof {
                            assert(v@ =~= vb.drop_first());
                            assert(items@ + v@ =~= done + vi);
                        }
                    }
                },
                Result::Err(_) => {},
            }
        }
        proof {
            assert(spec_ok_items(outcomes@) =~= Seq::<Item>::empty());
            assert(items@ =~= spec_ok_items(orig));
        }
        sort_items(items)
    }

    /// The finder registered under an identifier, or `TypeNotFound` when
    /// there is none — a stale or foreign handle, never a user-facing
    /// case.
    fn route_to(&self, source: SourceId) -> (r: Result<&Finder, Error>)
        ensures
            match r {
                Result::Ok(f) => {
                    &&& self.spec_has_source(source)
                    &&& f.spec_id() == source
                    &&& match spec_route(self.spec_finders(), source) {
                        Option::Some(i) => *f == self.spec_finders()[i],
                        Option::None => false,
                    }
                },
                Result::Err(e) => e == Error::TypeNotFound && !self.spec_has_source(source),
            },
    {
        let n = self.finders.len();
        let mut i: usize = 0;
        while i < n
            invariant
                i <= n,
                n == self.finders@.len(),
                forall|k: int| 0 <= k < i ==> (#[trigger] self.finders@[k]).spec_id() != source,
            ensures
                i <= n,
                n == self.finders@.len(),
                forall|k: int| 0 <= k < i ==> (#[trigger] self.finders@[k]).spec_id() != source,
                i < n ==> self.finders@[i as int].spec_id() == source,
            decreases n - i,
        {
            if self.finders[i].id() == source {
                break;
            }
            i = i + 1;
        }
        proof {
            lemma_route_scan(self.finders@, source, i as nat);
        }
        if i < n {
            Ok(&self.finders[i])
        } else {
            proof {
                lemma_preview_routing(self.finders@, source);
            }
            Err(Error::TypeNotFound)
        }
    }

    /// The request that resolves a preview handle: a plain fetch of the
    /// handle's locator, owed whenever the handle's source is registered;
    /// `TypeNotFound` exactly when it is not.
    pub fn preview_request(&self, handle: &Previewable) -> (r: Result<Request, Error>)
        ensures
            match r {
                Result::Ok(req) => {
                    &&& self.spec_has_source(handle.source)
                    &&& req.method == Method::Get
                    &&& req.url@ == handle.url@
                    &&& req.params@.len() == 0
                },
                Result::Err(e) => e == Error::TypeNotFound && !self.spec_has_source(handle.source),
            },
    {
        match self.route_to(handle.source) {
            Result::Ok(_) => Ok(
                Request { method: Method::Get, url: handle.url.clone(), params: Vec::new() },
            ),
            Result::Err(e) => Err(e),
        }
    }

    /// Resolves a preview: the handle's identifier picks the one finder
    /// that produced the originating item, and only that finder's parser
    /// reads the page.  `TypeNotFound` exactly when the identifier has no
    /// registered finder.
    pub fn preview(&self, handle: &Previewable, html: &str) -> (r: Result<Preview, Error>)
        ensures
            match r {
                Result::Ok(p) => self.spec_has_source(handle.source) && Finder::spec_preview_ok(
                    handle.source,
                    html@,
                    p,
                ),
                Result::Err(e) => e == Error::TypeNotFound && !self.spec_has_source(handle.source),
            },
    {
        match self.route_to(handle.source) {
            Result::Ok(f) => Ok(f.parse_preview(html)),
            Result::Err(e) => Err(e),
        }
    }
}

} // verus!
