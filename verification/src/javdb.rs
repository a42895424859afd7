use vstd::prelude::*;
use vstd::seq_lib::group_to_multiset_ensures;
use crate::date::{spec_date_or_epoch, spec_date_ts, Date};
use crate::error::Error;
use crate::html::{
    collect_attrs, or_empty, select_attr_in, select_count, select_text, select_text_in,
    selector_ok, spec_attr_list, spec_select_attr_in, spec_select_count, spec_select_text,
    spec_select_text_in, spec_selector_ok,
};
use crate::item::{Bound, Item, Method, Preview, Previewable, Request, SourceId};
use crate::size::{spec_parse_size, Size};
use crate::text::{
    char_pos, concat_str, spec_before, spec_trim, take_before, take_before_strict, trim_spaces,
    unwrap_or_empty,
};

verus! {

/// The finder for a subscription video index: listing rows carry a title
/// and a date but no size; a preview page offers several magnet-link
/// variants, which are returned most recent first.
pub struct Javdb {}

/// The observable content of a magnet-link variant: its byte count, its
/// timestamp and its link.  (The pre-rendered date string depends on the
/// machine's time zone, so variants are compared by this key.)
pub open spec fn spec_bound_key(b: Bound) -> (u64, i64, Seq<char>) {
    (b.size.spec_size(), b.date.spec_timestamp(), b.magnet@)
}

/// Variants ordered by recency: every earlier entry is at least as recent
/// as every later one.
pub open spec fn spec_bounds_sorted(s: Seq<Bound>) -> bool {
    forall|i: int, j: int|
        0 <= i < j < s.len() ==> s[i].date.spec_timestamp() >= s[j].date.spec_timestamp()
}

/// Sorts magnet-link variants by date, most recent first, keeping exactly
/// the variants given (compared by their observable content) and the
/// well-formedness of their sizes.
fn sort_bounds_by_date_desc(v: Vec<Bound>) -> (r: Vec<Bound>)
    requires
        forall|k: int| 0 <= k < v@.len() ==> (#[trigger] v@[k]).size.wf(),
    ensures
        r@.len() == v@.len(),
        r@.map_values(|b: Bound| spec_bound_key(b)).to_multiset() == v@.map_values(
            |b: Bound| spec_bound_key(b),
        ).to_multiset(),
        spec_bounds_sorted(r@),
        forall|k: int| 0 <= k < r@.len() ==> (#[trigger] r@[k]).size.wf(),
{
    broadcast use group_to_multiset_ensures;

    let mut src = v;
    let mut out: Vec<Bound> = Vec::new();
    while src.len() > 0
        invariant
            out@.len() + src@.len() == v@.len(),
            out@.map_values(|b: Bound| spec_bound_key(b)).to_multiset().add(
                src@.map_values(|b: Bound| spec_bound_key(b)).to_multiset(),
            ) == v@.map_values(|b: Bound| spec_bound_key(b)).to_multiset(),
            spec_bounds_sorted(out@),
            forall|i: int, j: int|
                0 <= i < out@.len() && 0 <= j < src@.len() ==> out@[i].date.spec_timestamp()
                    >= src@[j].date.spec_timestamp(),
            forall|k: int| 0 <= k < out@.len() ==> (#[trigger] out@[k]).size.wf(),
            forall|k: int| 0 <= k < src@.len() ==> (#[trigger] src@[k]).size.wf(),
        decreases src@.len(),
    {
        // find the most recent remaining variant
        let mut m: usize = 0;
        let mut i: usize = 1;
        while i < src.len()
            invariant
                m < i <= src@.len() || (i == 1 && m == 0 && src@.len() > 0),
                m < src@.len(),
                forall|k: int|
                    0 <= k < i && k < src@.len() ==> src@[m as int].date.spec_timestamp()
                        >= (#[trigger] src@[k]).date.spec_timestamp(),
            decreases src@.len() - i,
        {
            if src[i].date.timestamp() > src[m].date.timestamp() {
                m = i;
            }
            i = i + 1;
        }
        let ghost old_out = out@;
        let ghost old_src = src@;
        let b = src.remove(m);
        out.push(b);
        proof {
            broadcast use vstd::multiset::group_multiset_axioms;

            let f = |b: Bound| spec_bound_key(b);
            assert(old_src.map_values(f)[m as int] == f(b));
            assert(old_src.map_values(f).contains(f(b)));
            vstd::seq_lib::to_multiset_contains(old_src.map_values(f), f(b));
            vstd::seq_lib::to_multiset_remove(old_src.map_values(f), m as int);
            vstd::seq_lib::to_multiset_build(old_out.map_values(f), f(b));
            assert(src@.map_values(f) =~= old_src.map_values(f).remove(m as int));
            assert(out@.map_values(f) =~= old_out.map_values(f).push(f(b)));
            assert(out@.map_values(f).to_multiset().add(src@.map_values(f).to_multiset())
                =~= old_out.map_values(f).to_multiset().add(old_src.map_values(f).to_multiset()));
        }
    }
    out
}

impl Javdb {
    /// The site's base URL.
    pub open spec fn spec_base_url() -> Seq<char> {
        "https://javdb.com"@
    }

    /// The date pattern the site uses.
    pub open spec fn spec_date_fmt() -> Seq<char> {
        "%Y-%m-%d"@
    }

    /// Whether every selector literal of this finder compiles.
    pub open spec fn spec_selectors_ok() -> bool {
        &&& spec_selector_ok("body > section > div > div.movie-list.h.cols-4.vcols-8 > div"@)
        &&& spec_selector_ok("a"@)
        &&& spec_selector_ok("a > div.meta"@)
        &&& spec_selector_ok("body > section > div > div.video-detail > h2 > strong.current-title"@)
        &&& spec_selector_ok(
            "body > section > div > div.video-detail > div:nth-child(3) > div > article > div > div > a > img"@,
        )
        &&& spec_selector_ok("#magnets-content > div"@)
        &&& spec_selector_ok("div.date.column > span"@)
        &&& spec_selector_ok("div.magnet-name.column.is-four-fifths > a > span.meta"@)
        &&& spec_selector_ok("div.magnet-name.column.is-four-fifths > a"@)
    }

    /// Builds the finder, compiling every selector literal once; a
    /// malformed literal is a construction-time `Parse` error naming it.
    pub fn new() -> (r: Result<Javdb, Error>)
        ensures
            r is Ok <==> Self::spec_selectors_ok(),
            r matches Err(e) ==> e matches Error::Parse(s) && !spec_selector_ok(s@),
    {
        if !selector_ok("body > section > div > div.movie-list.h.cols-4.vcols-8 > div") {
            return Err(Error::Parse("body > section > div > div.movie-list.h.cols-4.vcols-8 > div"));
        }
        if !selector_ok("a") {
            return Err(Error::Parse("a"));
        }
        if !selector_ok("a > div.meta") {
            return Err(Error::Parse("a > div.meta"));
        }
        if !selector_ok("body > section > div > div.video-detail > h2 > strong.current-title") {
            return Err(Error::Parse("body > section > div > div.video-detail > h2 > strong.current-title"));
        }
        if !selector_ok("body > section > div > div.video-detail > div:nth-child(3) > div > article > div > div > a > img") {
            return Err(Error::Parse("body > section > div > div.video-detail > div:nth-child(3) > div > article > div > div > a > img"));
        }
        if !selector_ok("#magnets-content > div") {
            return Err(Error::Parse("#magnets-content > div"));
        }
        if !selector_ok("div.date.column > span") {
            return Err(Error::Parse("div.date.column > span"));
        }
        if !selector_ok("div.magnet-name.column.is-four-fifths > a > span.meta") {
            return Err(Error::Parse("div.magnet-name.column.is-four-fifths > a > span.meta"));
        }
        if !selector_ok("div.magnet-name.column.is-four-fifths > a") {
            return Err(Error::Parse("div.magnet-name.column.is-four-fifths > a"));
        }
        Ok(Javdb {})
    }

    /// The search request for a keyword: the site's search page is queried
    /// with the keyword over all categories.
    pub fn find_request(&self, key: &str) -> (r: Request)
        ensures
            r.method == Method::Get,
            r.url@ == Self::spec_base_url() + "/search"@,
            r.params.deep_view() == seq![("q"@, key@), ("f"@, "all"@)],
    {
        let mut params: Vec<(String, String)> = Vec::new();
        params.push(("q".to_owned(), key.to_owned()));
        params.push(("f".to_owned(), "all".to_owned()));
        proof {
            assert(params.deep_view() =~= seq![("q"@, key@), ("f"@, "all"@)]);
        }
        let url = concat_str("https://javdb.com", "/search");
        Request { method: Method::Get, url, params }
    }

    /// The title of listing row `i`, or empty when absent.
    pub open spec fn spec_row_title(html: Seq<char>, i: int) -> Seq<char> {
        or_empty(
            spec_select_attr_in(
                html,
                "body > section > div > div.movie-list.h.cols-4.vcols-8 > div"@,
                i,
                "a"@,
                "title"@,
            ),
        )
    }

    /// The preview URL of listing row `i`: the base URL glued to the row's
    /// link, or empty when the link is absent.
    pub open spec fn spec_row_preview(html: Seq<char>, i: int) -> Seq<char> {
        match spec_select_attr_in(
            html,
            "body > section > div > div.movie-list.h.cols-4.vcols-8 > div"@,
            i,
            "a"@,
            "href"@,
        ) {
            Option::Some(h) => Self::spec_base_url() + h,
            Option::None => Seq::empty(),
        }
    }

    /// The trimmed date text of listing row `i`, or empty when absent.
    pub open spec fn spec_row_date(html: Seq<char>, i: int) -> Seq<char> {
        spec_trim(
            or_empty(
                spec_select_text_in(
                    html,
                    "body > section > div > div.movie-list.h.cols-4.vcols-8 > div"@,
                    i,
                    "a > div.meta"@,
                ),
            ),
        )
    }

    /// How many items a listing page parses to: one per matching row.
    pub open spec fn spec_row_count(html: Seq<char>) -> nat {
        spec_select_count(html, "body > section > div > div.movie-list.h.cols-4.vcols-8 > div"@)
    }

    /// What the item parsed from listing row `i` holds: the row's title
    /// and preview link, a zero size (this source lists none), the row's
    /// trimmed date text parsed as a date, and a handle naming this
    /// source.
    pub open spec fn spec_item_at(html: Seq<char>, i: int, item: Item) -> bool {
        &&& item.title@ == Self::spec_row_title(html, i)
        &&& item.size.spec_size() == 0
        &&& item.size.wf()
        &&& item.date.spec_timestamp() == spec_date_or_epoch(
            spec_date_ts(Self::spec_row_date(html, i), Self::spec_date_fmt()),
        )
        &&& item.preview.source == SourceId::Javdb
        &&& item.preview.url@ == Self::spec_row_preview(html, i)
    }

    /// Parses a listing page into items, one per matching row.  A missing
    /// field degrades to its default; a row never fails the whole page.
    pub fn parse_find(&self, html: &str) -> (r: Vec<Item>)
        ensures
            r@.len() == Self::spec_row_count(html@),
            forall|k: int| 0 <= k < r@.len() ==> Self::spec_item_at(html@, k, #[trigger] r@[k]),
    {
        let row_sel = "body > section > div > div.movie-list.h.cols-4.vcols-8 > div";
        let total = select_count(html, row_sel);
        let mut items: Vec<Item> = Vec::new();
        let mut i: usize = 0;
        while i < total
            invariant
                i <= total,
                total as nat == Self::spec_row_count(html@),
                items@.len() == i,
                forall|k: int|
                    0 <= k < items@.len() ==> Self::spec_item_at(html@, k, #[trigger] items@[k]),
            decreases total - i,
        {
            let row_sel_loop = "body > section > div > div.movie-list.h.cols-4.vcols-8 > div";
            let title = unwrap_or_empty(select_attr_in(html, row_sel_loop, i, "a", "title"));
            let preview_url = match select_attr_in(html, row_sel_loop, i, "a", "href") {
                Option::Some(h) => concat_str("https://javdb.com", h.as_str()),
                Option::None => String::new(),
            };
            let date_raw = unwrap_or_empty(select_text_in(html, row_sel_loop, i, "a > div.meta"));
            let date_text = trim_spaces(date_raw.as_str());
            let item = Item::new(
                title,
                Size::new(0),
                Date::parse_date(date_text, "%Y-%m-%d"),
                Previewable::new(SourceId::Javdb, preview_url),
            );
            items.push(item);
            i = i + 1;
        }
        items
    }

    /// The title of a preview page, or empty when absent.
    pub open spec fn spec_preview_title(html: Seq<char>) -> Seq<char> {
        or_empty(
            spec_select_text(
                html,
                "body > section > div > div.video-detail > h2 > strong.current-title"@,
                0,
            ),
        )
    }

    /// The sample image URLs of a preview page, in document order.
    pub open spec fn spec_preview_images(html: Seq<char>) -> Seq<Seq<char>> {
        let sel =
            "body > section > div > div.video-detail > div:nth-child(3) > div > article > div > div > a > img"@;
        spec_attr_list(html, sel, "src"@, spec_select_count(html, sel) as int)
    }

    /// How many magnet-link variants a preview page offers.
    pub open spec fn spec_bound_count(html: Seq<char>) -> nat {
        spec_select_count(html, "#magnets-content > div"@)
    }

    /// The byte count of variant `i`: its size text up to the first comma,
    /// trimmed and parsed.
    pub open spec fn spec_bound_size(html: Seq<char>, i: int) -> nat {
        spec_parse_size(
            spec_trim(
                spec_before(
                    or_empty(
                        spec_select_text_in(
                            html,
                            "#magnets-content > div"@,
                            i,
                            "div.magnet-name.column.is-four-fifths > a > span.meta"@,
                        ),
                    ),
                    ',',
                ),
            ),
        )
    }

    /// The timestamp of variant `i`: its trimmed date text parsed as a
    /// date, or the epoch.
    pub open spec fn spec_bound_date(html: Seq<char>, i: int) -> i64 {
        spec_date_or_epoch(
            spec_date_ts(
                spec_trim(
                    or_empty(
                        spec_select_text_in(
                            html,
                            "#magnets-content > div"@,
                            i,
                            "div.date.column > span"@,
                        ),
                    ),
                ),
                Self::spec_date_fmt(),
            ),
        )
    }

    /// The magnet link of variant `i`: its link target up to the
    /// query-string artifact; a target without one, or no link, degrades
    /// to empty.
    pub open spec fn spec_bound_magnet(html: Seq<char>, i: int) -> Seq<char> {
        match spec_select_attr_in(
            html,
            "#magnets-content > div"@,
            i,
            "div.magnet-name.column.is-four-fifths > a"@,
            "href"@,
        ) {
            Option::Some(h) => if char_pos(h, '&') < h.len() {
                spec_before(h, '&')
            } else {
                Seq::empty()
            },
            Option::None => Seq::empty(),
        }
    }

    /// The observable content of variant `i` of a preview page.
    pub open spec fn spec_bound_key_at(html: Seq<char>, i: int) -> (u64, i64, Seq<char>) {
        (
            Self::spec_bound_size(html, i) as u64,
            Self::spec_bound_date(html, i),
            Self::spec_bound_magnet(html, i),
        )
    }

    /// What a parsed preview holds: the page's title and sample images,
    /// and exactly the page's magnet-link variants, most recent first.
    pub open spec fn spec_preview_at(html: Seq<char>, p: Preview) -> bool {
        &&& p.title@ == Self::spec_preview_title(html)
        &&& p.images.deep_view() == Self::spec_preview_images(html)
        &&& p.bounds@.len() == Self::spec_bound_count(html)
        &&& p.bounds@.map_values(|b: Bound| spec_bound_key(b)).to_multiset() == Seq::new(
            Self::spec_bound_count(html),
            |i: int| Self::spec_bound_key_at(html, i),
        ).to_multiset()
        &&& spec_bounds_sorted(p.bounds@)
        &&& forall|k: int| 0 <= k < p.bounds@.len() ==> (#[trigger] p.bounds@[k]).size.wf()
    }

    /// Parses a preview page: title, sample images, and every magnet-link
    /// variant, sorted most recent first.  A missing field degrades to its
    /// default; only the transport can fail, never the parse.
    pub fn parse_preview(&self, html: &str) -> (r: Preview)
        ensures
            Self::spec_preview_at(html@, r),
    {
        broadcast use group_to_multiset_ensures;

        let title = unwrap_or_empty(
            select_text(html, "body > section > div > div.video-detail > h2 > strong.current-title", 0),
        );
        let images = collect_attrs(
            html,
            "body > section > div > div.video-detail > div:nth-child(3) > div > article > div > div > a > img",
            "src",
        );
        let total = select_count(html, "#magnets-content > div");
        let ghost key_at = |i: int| Self::spec_bound_key_at(html@, i);
        let mut bounds: Vec<Bound> = Vec::new();
        let mut i: usize = 0;
        while i < total
            invariant
                i <= total,
                total as nat == Self::spec_bound_count(html@),
                bounds@.len() == i,
                forall|k: int|
                    0 <= k < i ==> spec_bound_key(#[trigger] bounds@[k])
                        == Self::spec_bound_key_at(html@, k),
                forall|k: int| 0 <= k < bounds@.len() ==> (#[trigger] bounds@[k]).size.wf(),
            decreases total - i,
        {
            let date_raw = unwrap_or_empty(
                select_text_in(html, "#magnets-content > div", i, "div.date.column > span"),
            );
            let date_text = trim_spaces(date_raw.as_str());
            let size_raw = unwrap_or_empty(
                select_text_in(
                    html,
                    "#magnets-content > div",
                    i,
                    "div.magnet-name.column.is-four-fifths > a > span.meta",
                ),
            );
            let size_text = trim_spaces(take_before(size_raw.as_str(), ','));
            let magnet = match select_attr_in(
                html,
                "#magnets-content > div",
                i,
                "div.magnet-name.column.is-four-fifths > a",
                "href",
            ) {
                Option::Some(h) => match take_before_strict(h.as_str(), '&') {
                    Option::Some(m) => m.to_owned(),
                    Option::None => String::new(),
                },
                Option::None => String::new(),
            };
            let b = Bound::new(
                Size::parse(size_text),
                Date::parse_date(date_text, "%Y-%m-%d"),
                magnet,
            );
            bounds.push(b);
            i = i + 1;
        }
        let ghost pre = bounds@;
        let bounds = sort_bounds_by_date_desc(bounds);
        proof {
            let f = |b: Bound| spec_bound_key(b);
            let wanted = Seq::new(
                Self::spec_bound_count(html@),
                |i: int| Self::spec_bound_key_at(html@, i),
            );
            assert(pre.map_values(f) =~= wanted);
        }
        Preview::new(title, bounds, images)
    }
}

} // verus!
