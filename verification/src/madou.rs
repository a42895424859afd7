use vstd::prelude::*;
use crate::date::{spec_date_or_epoch, spec_date_ts, spec_ymd_ts, today_ymd, Date};
use crate::error::Error;
use crate::html::{
    collect_attrs, or_empty, select_attr, select_attr_in, select_count, select_text,
    select_text_in, selector_ok, spec_attr_list, spec_select_attr, spec_select_attr_in,
    spec_select_count, spec_select_text, spec_select_text_in, spec_selector_ok,
};
use crate::item::{Bound, Item, Method, Preview, Previewable, Request, SourceId};
use crate::size::{digits_val, is_digit, lemma_digits_val_step, spec_parse_size, Size};
use crate::text::{
    char_pos, concat_str, find_char, spec_between, spec_trim, take_between, trim_spaces,
    unwrap_or_empty,
};

verus! {

/// The finder for a listing site that obfuscates titles: each title is a
/// base64 literal inside an inline quoted attribute, and listing dates
/// carry only month and day, read as belonging to the previous year.
pub struct Madou {}

/// The bytes a base64 string decodes to under the standard alphabet, or
/// `None` when it is not valid base64.  A function of the string alone.
pub uninterp spec fn spec_b64_decode(s: Seq<char>) -> Option<Seq<u8>>;

/// The characters a byte string decodes to as UTF-8, or `None` when it is
/// not valid UTF-8.  A function of the bytes alone.
pub uninterp spec fn spec_utf8(bytes: Seq<u8>) -> Option<Seq<char>>;

/// Relies on base64's `Engine::decode` with the `STANDARD` engine: the
/// decoded bytes depend on the input string alone.
#[verifier::external_body]
fn b64_decode(s: &str) -> (r: Option<Vec<u8>>)
    ensures
        r.deep_view() == spec_b64_decode(s@),
{
    base64::Engine::decode(&base64::engine::general_purpose::STANDARD, s).ok()
}

/// Relies on std's `String::from_utf8`: `Ok` exactly for valid UTF-8; the
/// result depends on the bytes alone.
#[verifier::external_body]
fn utf8_string(bytes: Vec<u8>) -> (r: Option<String>)
    ensures
        r.deep_view() == spec_utf8(bytes@),
{
    String::from_utf8(bytes).ok()
}

/// The text an obfuscated literal decodes to: base64, then UTF-8; any
/// failure degrades to the empty string.
pub open spec fn spec_base64_text(s: Seq<char>) -> Seq<char> {
    match spec_b64_decode(s) {
        Option::Some(bytes) => match spec_utf8(bytes) {
            Option::Some(t) => t,
            Option::None => Seq::empty(),
        },
        Option::None => Seq::empty(),
    }
}

/// Decodes an obfuscated literal: base64 under the standard alphabet,
/// then UTF-8.  A string that fails either step decodes to empty rather
/// than erroring.
pub fn base64_decode(origin: &str) -> (r: String)
    ensures
        r@ == spec_base64_text(origin@),
{
    match b64_decode(origin) {
        Option::Some(bytes) => {
            proof {
                assert(bytes.deep_view() =~= bytes@);
            }
            match utf8_string(bytes) {
                Option::Some(t) => t,
                Option::None => String::new(),
            }
        },
        Option::None => String::new(),
    }
}

/// The number a run of decimal digits denotes: `None` when the run is
/// empty, holds any non-digit, or exceeds the type's range.
pub open spec fn spec_parse_u32(s: Seq<char>) -> Option<u32> {
    if s.len() == 0 || (exists|i: int| 0 <= i < s.len() && !is_digit(#[trigger] s[i])) {
        Option::None
    } else if digits_val(s) > u32::MAX {
        Option::None
    } else {
        Option::Some(digits_val(s) as u32)
    }
}

/// Parses a run of decimal digits, as [`spec_parse_u32`] states.
fn parse_u32(text: &str) -> (r: Option<u32>)
    ensures
        r == spec_parse_u32(text@),
{
    let n = text.unicode_len();
    if n == 0 {
        return None;
    }
    let mut v: u64 = 0;
    let mut i: usize = 0;
    let mut big: bool = false;
    while i < n
        invariant
            i <= n,
            n as nat == text@.len(),
            forall|k: int| 0 <= k < i ==> is_digit(#[trigger] text@[k]),
            !big ==> v as nat == digits_val(text@.take(i as int)) && v <= u32::MAX,
            big ==> digits_val(text@.take(i as int)) > u32::MAX,
        ensures
            i <= n,
            n as nat == text@.len(),
            forall|k: int| 0 <= k < i ==> is_digit(#[trigger] text@[k]),
            i < n ==> !is_digit(text@[i as int]),
            i == n ==> (!big ==> v as nat == digits_val(text@.take(i as int)) && v <= u32::MAX),
            i == n ==> (big ==> digits_val(text@.take(i as int)) > u32::MAX),
        decreases n - i,
    {
        let c = text.get_char(i);
        if !(c >= '0' && c <= '9') {
            break;
        }
        let dv: u64 = (c as u32 - '0' as u32) as u64;
        proof {
            lemma_digits_val_step(text@, i as int);
        }
        if !big {
            if v > (u32::MAX as u64 - dv) / 10 {
                big = true;
                proof {
                    let w = v as nat;
                    let dn = dv as nat;
                    assert(w * 10 + dn > u32::MAX) by (nonlinear_arith)
                        requires
                            w > ((u32::MAX - dn) as nat) / 10,
                            dn < 10;
                }
            } else {
                proof {
                    let w = v as nat;
                    let dn = dv as nat;
                    assert(w * 10 + dn <= u32::MAX) by (nonlinear_arith)
                        requires
                            w <= ((u32::MAX - dn) as nat) / 10,
                            dn < 10;
                }
                v = v * 10 + dv;
            }
        } else {
            proof {
                let w = digits_val(text@.take(i as int));
                let dn = (c as int - '0' as int) as nat;
                assert(w * 10 + dn > u32::MAX) by (nonlinear_arith)
                    requires w > u32::MAX, dn >= 0;
            }
        }
        i = i + 1;
    }
    if i < n {
        // a non-digit stops the parse
        return None;
    }
    proof {
        assert(text@.take(n as int) =~= text@);
    }
    if big {
        None
    } else {
        Some(v as u32)
    }
}

impl Madou {
    /// The site's base URL.
    pub open spec fn spec_base_url() -> Seq<char> {
        "https://hxx.533923.xyz"@
    }

    /// The timestamp a listing date denotes, given today's calendar date:
    /// the text is split at its first dash into a month and a day, either
    /// falling back to today's on a failed parse, and the result is read
    /// as that day of the previous year — the site lists seasonally, so a
    /// bare month and day is taken to be a year old.
    pub open spec fn spec_listing_date_ts(text: Seq<char>, y: int, m: int, d: int) -> i64 {
        let p = char_pos(text, '-');
        let month: int = if p == text.len() {
            m
        } else {
            match spec_parse_u32(text.take(p as int)) {
                Option::Some(v) => v as int,
                Option::None => m,
            }
        };
        let day: int = if p == text.len() {
            d
        } else {
            match spec_parse_u32(text.skip(p as int + 1)) {
                Option::Some(v) => v as int,
                Option::None => d,
            }
        };
        spec_date_or_epoch(spec_ymd_ts(y - 1, month, day))
    }

    /// Parses a listing date of this source, as [`Self::spec_listing_date_ts`]
    /// states, against a caller-supplied current calendar date.
    pub fn parse_listing_date(text: &str, year: i32, month: u32, day: u32) -> (r: Date)
        requires
            -400000 < year < 400000,
        ensures
            r.spec_timestamp() == Self::spec_listing_date_ts(
                text@,
                year as int,
                month as int,
                day as int,
            ),
    {
        let n = text.unicode_len();
        let p = find_char(text, '-');
        let (mo, da): (u32, u32) = if p == n {
            (month, day)
        } else {
            let mo = match parse_u32(text.substring_char(0, p)) {
                Option::Some(v) => v,
                Option::None => month,
            };
            let da = match parse_u32(text.substring_char(p + 1, n)) {
                Option::Some(v) => v,
                Option::None => day,
            };
            (mo, da)
        };
        Date::from_ymd(year - 1, mo, da)
    }

    /// Whether every selector literal of this finder compiles.
    pub open spec fn spec_selectors_ok() -> bool {
        &&& spec_selector_ok("tr.default"@)
        &&& spec_selector_ok("td:nth-child(2) > a > span"@)
        &&& spec_selector_ok("td:nth-child(2) > a"@)
        &&& spec_selector_ok("td:nth-child(3)"@)
        &&& spec_selector_ok("td:nth-child(1)"@)
        &&& spec_selector_ok(
            "body > div:nth-child(5) > div:nth-child(1) > div.panel-heading > h3"@,
        )
        &&& spec_selector_ok(
            "body > div:nth-child(5) > div:nth-child(1) > div.panel-body > div:nth-child(2) > div:nth-child(2)"@,
        )
        &&& spec_selector_ok(
            "body > div:nth-child(5) > div:nth-child(1) > div.panel-body > div:nth-child(1) > div:nth-child(2)"@,
        )
        &&& spec_selector_ok("body > div:nth-child(5) > div.download > div > a:nth-child(2)"@)
        &&& spec_selector_ok("#torrent-description > div > img"@)
    }

    /// Builds the finder, compiling every selector literal once; a
    /// malformed literal is a construction-time `Parse` error naming it.
    pub fn new() -> (r: Result<Madou, Error>)
        ensures
            r is Ok <==> Self::spec_selectors_ok(),
            r matches Err(e) ==> e matches Error::Parse(s) && !spec_selector_ok(s@),
    {
        if !selector_ok("tr.default") {
            return Err(Error::Parse("tr.default"));
        }
        if !selector_ok("td:nth-child(2) > a > span") {
            return Err(Error::Parse("td:nth-child(2) > a > span"));
        }
        if !selector_ok("td:nth-child(2) > a") {
            return Err(Error::Parse("td:nth-child(2) > a"));
        }
        if !selector_ok("td:nth-child(3)") {
            return Err(Error::Parse("td:nth-child(3)"));
        }
        if !selector_ok("td:nth-child(1)") {
            return Err(Error::Parse("td:nth-child(1)"));
        }
        if !selector_ok("body > div:nth-child(5) > div:nth-child(1) > div.panel-heading > h3") {
            return Err(Error::Parse("body > div:nth-child(5) > div:nth-child(1) > div.panel-heading > h3"));
        }
        if !selector_ok("body > div:nth-child(5) > div:nth-child(1) > div.panel-body > div:nth-child(2) > div:nth-child(2)") {
            return Err(Error::Parse("body > div:nth-child(5) > div:nth-child(1) > div.panel-body > div:nth-child(2) > div:nth-child(2)"));
        }
        if !selector_ok("body > div:nth-child(5) > div:nth-child(1) > div.panel-body > div:nth-child(1) > div:nth-child(2)") {
            return Err(Error::Parse("body > div:nth-child(5) > div:nth-child(1) > div.panel-body > div:nth-child(1) > div:nth-child(2)"));
        }
        if !selector_ok("body > div:nth-child(5) > div.download > div > a:nth-child(2)") {
            return Err(Error::Parse("body > div:nth-child(5) > div.download > div > a:nth-child(2)"));
        }
        if !selector_ok("#torrent-description > div > img") {
            return Err(Error::Parse("#torrent-description > div > img"));
        }
        Ok(Madou {})
    }

    /// The search request for a keyword: a form post of the keyword to the
    /// site's search page.
    pub fn find_request(&self, key: &str) -> (r: Request)
        ensures
            r.method == Method::Post,
            r.url@ == Self::spec_base_url() + "/search.php"@,
            r.params.deep_view() == seq![("keyword"@, key@)],
    {
        let mut params: Vec<(String, String)> = Vec::new();
        params.push(("keyword".to_owned(), key.to_owned()));
        proof {
            assert(params.deep_view() =~= seq![("keyword"@, key@)]);
        }
        let url = concat_str("https://hxx.533923.xyz", "/search.php");
        Request { method: Method::Post, url, params }
    }

    /// The decoded title of listing row `i`: the quoted literal inside the
    /// row's title cell, base64-decoded; anything missing or malformed
    /// degrades to empty.
    pub open spec fn spec_row_title(html: Seq<char>, i: int) -> Seq<char> {
        match spec_between(
            or_empty(spec_select_text_in(html, "tr.default"@, i, "td:nth-child(2) > a > span"@)),
            '\'',
        ) {
            Option::Some(enc) => spec_base64_text(enc),
            Option::None => Seq::empty(),
        }
    }

    /// The preview URL of listing row `i`: the base URL glued to the row's
    /// link, or empty when the link is absent.
    pub open spec fn spec_row_preview(html: Seq<char>, i: int) -> Seq<char> {
        match spec_select_attr_in(html, "tr.default"@, i, "td:nth-child(2) > a"@, "href"@) {
            Option::Some(h) => Self::spec_base_url() + h,
            Option::None => Seq::empty(),
        }
    }

    /// The size text of listing row `i`, or empty when absent.
    pub open spec fn spec_row_size(html: Seq<char>, i: int) -> Seq<char> {
        or_empty(spec_select_text_in(html, "tr.default"@, i, "td:nth-child(3)"@))
    }

    /// The date text of listing row `i`, or empty when absent.
    pub open spec fn spec_row_date(html: Seq<char>, i: int) -> Seq<char> {
        or_empty(spec_select_text_in(html, "tr.default"@, i, "td:nth-child(1)"@))
    }

    /// How many items a listing page parses to: one per matching row.
    pub open spec fn spec_row_count(html: Seq<char>) -> nat {
        spec_select_count(html, "tr.default"@)
    }

    /// What the item parsed from listing row `i` holds, against today's
    /// calendar date: decoded title, preview link, parsed size, the
    /// previous-year reading of the row's month-day date, and a handle
    /// naming this source.
    pub open spec fn spec_item_at(
        html: Seq<char>,
        y: int,
        m: int,
        d: int,
        i: int,
        item: Item,
    ) -> bool {
        &&& item.title@ == Self::spec_row_title(html, i)
        &&& item.size.spec_size() as nat == spec_parse_size(Self::spec_row_size(html, i))
        &&& item.size.wf()
        &&& item.date.spec_timestamp() == Self::spec_listing_date_ts(
            Self::spec_row_date(html, i),
            y,
            m,
            d,
        )
        &&& item.preview.source == SourceId::Madou
        &&& item.preview.url@ == Self::spec_row_preview(html, i)
    }

    /// Parses a listing page into items, one per matching row, against a
    /// caller-supplied current calendar date.  A missing field degrades to
    /// its default; a row never fails the whole page.
    pub fn parse_find(&self, html: &str, year: i32, month: u32, day: u32) -> (r: Vec<Item>)
        requires
            -400000 < year < 400000,
        ensures
            r@.len() == Self::spec_row_count(html@),
            forall|k: int|
                0 <= k < r@.len() ==> Self::spec_item_at(
                    html@,
                    year as int,
                    month as int,
                    day as int,
                    k,
                    #[trigger] r@[k],
                ),
    {
        let total = select_count(html, "tr.default");
        let mut items: Vec<Item> = Vec::new();
        let mut i: usize = 0;
        while i < total
            invariant
                i <= total,
                -400000 < year < 400000,
                total as nat == Self::spec_row_count(html@),
                items@.len() == i,
                forall|k: int|
                    0 <= k < items@.len() ==> Self::spec_item_at(
                        html@,
                        year as int,
                        month as int,
                        day as int,
                        k,
                        #[trigger] items@[k],
                    ),
            decreases total - i,
        {
            let title_raw = unwrap_or_empty(
                select_text_in(html, "tr.default", i, "td:nth-child(2) > a > span"),
            );
            let title = match take_between(title_raw.as_str(), '\'') {
                Option::Some(enc) => base64_decode(enc),
                Option::None => String::new(),
            };
            let preview_url = match select_attr_in(html, "tr.default", i, "td:nth-child(2) > a", "href") {
                Option::Some(h) => concat_str("https://hxx.533923.xyz", h.as_str()),
                Option::None => String::new(),
            };
            let size_text = unwrap_or_empty(select_text_in(html, "tr.default", i, "td:nth-child(3)"));
            let date_text = unwrap_or_empty(select_text_in(html, "tr.default", i, "td:nth-child(1)"));
            let item = Item::new(
                title,
                Size::parse(size_text.as_str()),
                Self::parse_listing_date(date_text.as_str(), year, month, day),
                Previewable::new(SourceId::Madou, preview_url),
            );
            items.push(item);
            i = i + 1;
        }
        items
    }

    /// What a whole parsed listing holds against one calendar date.
    pub open spec fn spec_items_for(
        html: Seq<char>,
        y: int,
        m: int,
        d: int,
        items: Seq<Item>,
    ) -> bool {
        &&& items.len() == Self::spec_row_count(html)
        &&& forall|k: int|
            0 <= k < items.len() ==> Self::spec_item_at(html, y, m, d, k, #[trigger] items[k])
    }

    /// Parses a listing page against the machine's current date.  The
    /// items are those of [`Self::parse_find`] for some valid calendar
    /// date, whichever the clock returned.
    pub fn parse_find_today(&self, html: &str) -> (r: Vec<Item>)
        ensures
            exists|y: int, m: int, d: int|
                {
                    &&& -400000 < y < 400000
                    &&& 1 <= m <= 12
                    &&& 1 <= d <= 31
                    &&& #[trigger] Self::spec_items_for(html@, y, m, d, r@)
                },
    {
        let (y, m, d) = today_ymd();
        let r = self.parse_find(html, y, m, d);
        proof {
            assert(Self::spec_items_for(html@, y as int, m as int, d as int, r@));
        }
        r
    }

    /// The decoded title of a preview page: the quoted literal inside the
    /// heading, base64-decoded; anything missing or malformed degrades to
    /// empty.
    pub open spec fn spec_preview_title(html: Seq<char>) -> Seq<char> {
        match spec_between(
            or_empty(
                spec_select_text(
                    html,
                    "body > div:nth-child(5) > div:nth-child(1) > div.panel-heading > h3"@,
                    0,
                ),
            ),
            '\'',
        ) {
            Option::Some(enc) => spec_base64_text(enc),
            Option::None => Seq::empty(),
        }
    }

    /// The size text of a preview page, or empty when absent.
    pub open spec fn spec_preview_size(html: Seq<char>) -> Seq<char> {
        or_empty(
            spec_select_text(
                html,
                "body > div:nth-child(5) > div:nth-child(1) > div.panel-body > div:nth-child(2) > div:nth-child(2)"@,
                0,
            ),
        )
    }

    /// The trimmed date text of a preview page, or empty when absent.
    pub open spec fn spec_preview_date(html: Seq<char>) -> Seq<char> {
        spec_trim(
            or_empty(
                spec_select_text(
                    html,
                    "body > div:nth-child(5) > div:nth-child(1) > div.panel-body > div:nth-child(1) > div:nth-child(2)"@,
                    0,
                ),
            ),
        )
    }

    /// The magnet link of a preview page, or empty when absent.  This
    /// source's link needs no trimming.
    pub open spec fn spec_preview_magnet(html: Seq<char>) -> Seq<char> {
        or_empty(
            spec_select_attr(
                html,
                "body > div:nth-child(5) > div.download > div > a:nth-child(2)"@,
                0,
                "href"@,
            ),
        )
    }

    /// The image URLs of a preview page, in document order.
    pub open spec fn spec_preview_images(html: Seq<char>) -> Seq<Seq<char>> {
        let sel = "#torrent-description > div > img"@;
        spec_attr_list(html, sel, "src"@, spec_select_count(html, sel) as int)
    }

    /// What a parsed preview holds: the decoded title, exactly one
    /// magnet-link variant built from the page's size, date and link, and
    /// the page's images.
    pub open spec fn spec_preview_at(html: Seq<char>, p: Preview) -> bool {
        &&& p.title@ == Self::spec_preview_title(html)
        &&& p.bounds@.len() == 1
        &&& p.bounds@[0].size.spec_size() as nat == spec_parse_size(Self::spec_preview_size(html))
        &&& p.bounds@[0].size.wf()
        &&& p.bounds@[0].date.spec_timestamp() == spec_date_or_epoch(
            spec_date_ts(Self::spec_preview_date(html), "%Y-%m-%d"@),
        )
        &&& p.bounds@[0].magnet@ == Self::spec_preview_magnet(html)
        &&& p.images.deep_view() == Self::spec_preview_images(html)
    }

    /// Parses a preview page: decoded title, one magnet-link variant, and
    /// every image.  A missing field degrades to its default; only the
    /// transport can fail, never the parse.
    pub fn parse_preview(&self, html: &str) -> (r: Preview)
        ensures
            Self::spec_preview_at(html@, r),
    {
        let title_raw = unwrap_or_empty(
            select_text(html, "body > div:nth-child(5) > div:nth-child(1) > div.panel-heading > h3", 0),
        );
        let title = match take_between(title_raw.as_str(), '\'') {
            Option::Some(enc) => base64_decode(enc),
            Option::None => String::new(),
        };
        let size_text = unwrap_or_empty(
            select_text(
                html,
                "body > div:nth-child(5) > div:nth-child(1) > div.panel-body > div:nth-child(2) > div:nth-child(2)",
                0,
            ),
        );
        let date_raw = unwrap_or_empty(
            select_text(
                html,
                "body > div:nth-child(5) > div:nth-child(1) > div.panel-body > div:nth-child(1) > div:nth-child(2)",
                0,
            ),
        );
        let date_text = trim_spaces(date_raw.as_str());
        let magnet = unwrap_or_empty(
            select_attr(html, "body > div:nth-child(5) > div.download > div > a:nth-child(2)", 0, "href"),
        );
        let images = collect_attrs(html, "#torrent-description > div > img", "src");
        let size = Size::parse(size_text.as_str());
        let date = Date::parse_date(date_text, "%Y-%m-%d");
        let mut bounds: Vec<Bound> = Vec::new();
        bounds.push(Bound::new(size, date, magnet));
        Preview::new(title, bounds, images)
    }
}

} // verus!
