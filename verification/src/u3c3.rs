use vstd::prelude::*;
use crate::date::{spec_date_or_epoch, spec_date_time_ts, Date};
use crate::error::Error;
use crate::html::{
    or_empty, select_attr, select_attr_in, select_count, select_text, select_text_in, selector_ok,
    spec_select_attr, spec_select_attr_in, spec_select_count, spec_select_text,
    spec_select_text_in, spec_selector_ok,
};
use crate::item::{Bound, Item, Method, Preview, Previewable, Request, SourceId};
use crate::size::{spec_parse_size, Size};
use crate::text::{
    char_pos, concat_str, spec_before, spec_trim, take_before_strict, trim_spaces, unwrap_or_empty,
};

verus! {

/// The finder for a BitTorrent index site: rows of a listing table carry
/// title, size and a date-time; the first two matching rows are header
/// chrome and are skipped.
pub struct U3C3 {}

impl U3C3 {
    /// The site's base URL.
    pub open spec fn spec_base_url() -> Seq<char> {
        "https://u3c3.com"@
    }

    /// The date-and-time pattern the site's listing uses.
    pub open spec fn spec_date_fmt() -> Seq<char> {
        "%Y-%m-%d %H:%M:%S"@
    }

    /// Whether every selector literal of this finder compiles.
    pub open spec fn spec_selectors_ok() -> bool {
        &&& spec_selector_ok("tr.default"@)
        &&& spec_selector_ok("td:nth-child(2) > a:nth-child(1)"@)
        &&& spec_selector_ok("td:nth-child(4)"@)
        &&& spec_selector_ok("td:nth-child(5)"@)
        &&& spec_selector_ok("div.panel:nth-child(1) > div:nth-child(1) > h3:nth-child(1)"@)
        &&& spec_selector_ok("div.row:nth-child(3) > div:nth-child(2)"@)
        &&& spec_selector_ok("div.row:nth-child(1) > div:nth-child(4)"@)
        &&& spec_selector_ok(".card-footer-item"@)
        &&& spec_selector_ok("div.panel:nth-child(4) > div:nth-child(1) > img:nth-child(1)"@)
    }

    /// Builds the finder, compiling every selector literal once; a
    /// malformed literal is a construction-time `Parse` error naming it.
    pub fn new() -> (r: Result<U3C3, Error>)
        ensures
            r is Ok <==> Self::spec_selectors_ok(),
            r matches Err(e) ==> e matches Error::Parse(s) && !spec_selector_ok(s@),
    {
        if !selector_ok("tr.default") {
            return Err(Error::Parse("tr.default"));
        }
        if !selector_ok("td:nth-child(2) > a:nth-child(1)") {
            return Err(Error::Parse("td:nth-child(2) > a:nth-child(1)"));
        }
        if !selector_ok("td:nth-child(4)") {
            return Err(Error::Parse("td:nth-child(4)"));
        }
        if !selector_ok("td:nth-child(5)") {
            return Err(Error::Parse("td:nth-child(5)"));
        }
        if !selector_ok("div.panel:nth-child(1) > div:nth-child(1) > h3:nth-child(1)") {
            return Err(Error::Parse("div.panel:nth-child(1) > div:nth-child(1) > h3:nth-child(1)"));
        }
        if !selector_ok("div.row:nth-child(3) > div:nth-child(2)") {
            return Err(Error::Parse("div.row:nth-child(3) > div:nth-child(2)"));
        }
        if !selector_ok("div.row:nth-child(1) > div:nth-child(4)") {
            return Err(Error::Parse("div.row:nth-child(1) > div:nth-child(4)"));
        }
        if !selector_ok(".card-footer-item") {
            return Err(Error::Parse(".card-footer-item"));
        }
        if !selector_ok("div.panel:nth-child(4) > div:nth-child(1) > img:nth-child(1)") {
            return Err(Error::Parse("div.panel:nth-child(4) > div:nth-child(1) > img:nth-child(1)"));
        }
        Ok(U3C3 {})
    }

    /// The search request for a keyword: the site is queried at its base
    /// URL with the keyword and its fixed secondary search token.
    pub fn find_request(&self, key: &str) -> (r: Request)
        ensures
            r.method == Method::Get,
            r.url@ == Self::spec_base_url(),
            r.params.deep_view() == seq![("search"@, key@), ("search2"@, "eelja3lfe1a1"@)],
    {
        let mut params: Vec<(String, String)> = Vec::new();
        params.push(("search".to_owned(), key.to_owned()));
        params.push(("search2".to_owned(), "eelja3lfe1a1".to_owned()));
        proof {
            assert(params.deep_view() =~= seq![("search"@, key@), ("search2"@, "eelja3lfe1a1"@)]);
        }
        Request { method: Method::Get, url: "https://u3c3.com".to_owned(), params }
    }

    /// The title of listing row `i`, or empty when absent.
    pub open spec fn spec_row_title(html: Seq<char>, i: int) -> Seq<char> {
        or_empty(
            spec_select_attr_in(html, "tr.default"@, i, "td:nth-child(2) > a:nth-child(1)"@, "title"@),
        )
    }

    /// The preview URL of listing row `i`: the base URL glued to the row's
    /// link, or empty when the link is absent.
    pub open spec fn spec_row_preview(html: Seq<char>, i: int) -> Seq<char> {
        match spec_select_attr_in(
            html,
            "tr.default"@,
            i,
            "td:nth-child(2) > a:nth-child(1)"@,
            "href"@,
        ) {
            Option::Some(h) => Self::spec_base_url() + h,
            Option::None => Seq::empty(),
        }
    }

    /// The size text of listing row `i`, or empty when absent.
    pub open spec fn spec_row_size(html: Seq<char>, i: int) -> Seq<char> {
        or_empty(spec_select_text_in(html, "tr.default"@, i, "td:nth-child(4)"@))
    }

    /// The date text of listing row `i`, or empty when absent.
    pub open spec fn spec_row_date(html: Seq<char>, i: int) -> Seq<char> {
        or_empty(spec_select_text_in(html, "tr.default"@, i, "td:nth-child(5)"@))
    }

    /// How many items a listing page parses to: its matching rows less the
    /// two header rows.
    pub open spec fn spec_row_count(html: Seq<char>) -> nat {
        let c = spec_select_count(html, "tr.default"@);
        if c >= 2 {
            (c - 2) as nat
        } else {
            0
        }
    }

    /// What the item parsed from listing row `i` holds: the row's title
    /// and preview link, its size text parsed as a byte count, its date
    /// text parsed as a date-and-time, and a handle naming this source.
    pub open spec fn spec_item_at(html: Seq<char>, i: int, item: Item) -> bool {
        &&& item.title@ == Self::spec_row_title(html, i)
        &&& item.size.spec_size() as nat == spec_parse_size(Self::spec_row_size(html, i))
        &&& item.size.wf()
        &&& item.date.spec_timestamp() == spec_date_or_epoch(
            spec_date_time_ts(Self::spec_row_date(html, i), Self::spec_date_fmt()),
        )
        &&& item.preview.source == SourceId::U3c3
        &&& item.preview.url@ == Self::spec_row_preview(html, i)
    }

    /// Parses a listing page into items, one per matching row past the two
    /// header rows.  A missing field degrades to its default; a row never
    /// fails the whole page.
    pub fn parse_find(&self, html: &str) -> (r: Vec<Item>)
        ensures
            r@.len() == Self::spec_row_count(html@),
            forall|k: int| 0 <= k < r@.len() ==> Self::spec_item_at(html@, k + 2, #[trigger] r@[k]),
    {
        let total = select_count(html, "tr.default");
        let mut items: Vec<Item> = Vec::new();
        let mut i: usize = 2;
        while i < total
            invariant
                2 <= i,
                total >= 2 ==> i <= total,
                total < 2 ==> i == 2,
                total as nat == spec_select_count(html@, "tr.default"@),
                items@.len() == i - 2,
                forall|k: int|
                    0 <= k < items@.len() ==> Self::spec_item_at(html@, k + 2, #[trigger] items@[k]),
            decreases total - i,
        {
            let title = unwrap_or_empty(
                select_attr_in(html, "tr.default", i, "td:nth-child(2) > a:nth-child(1)", "title"),
            );
            let preview_url = match select_attr_in(
                html,
                "tr.default",
                i,
                "td:nth-child(2) > a:nth-child(1)",
                "href",
            ) {
                Option::Some(h) => concat_str("https://u3c3.com", h.as_str()),
                Option::None => String::new(),
            };
            let size_text = unwrap_or_empty(select_text_in(html, "tr.default", i, "td:nth-child(4)"));
            let date_text = unwrap_or_empty(select_text_in(html, "tr.default", i, "td:nth-child(5)"));
            let item = Item::new(
                title,
                Size::parse(size_text.as_str()),
                Date::parse_date_time(date_text.as_str(), "%Y-%m-%d %H:%M:%S"),
                Previewable::new(SourceId::U3c3, preview_url),
            );
            items.push(item);
            i = i + 1;
        }
        items
    }

    /// The trimmed title of a preview page, or empty when absent.
    pub open spec fn spec_preview_title(html: Seq<char>) -> Seq<char> {
        spec_trim(
            or_empty(
                spec_select_text(
                    html,
                    "div.panel:nth-child(1) > div:nth-child(1) > h3:nth-child(1)"@,
                    0,
                ),
            ),
        )
    }

    /// The size text of a preview page, or empty when absent.
    pub open spec fn spec_preview_size(html: Seq<char>) -> Seq<char> {
        or_empty(spec_select_text(html, "div.row:nth-child(3) > div:nth-child(2)"@, 0))
    }

    /// The date text of a preview page, or empty when absent.
    pub open spec fn spec_preview_date(html: Seq<char>) -> Seq<char> {
        or_empty(spec_select_text(html, "div.row:nth-child(1) > div:nth-child(4)"@, 0))
    }

    /// The magnet link of a preview page: the first download link's target
    /// up to its query-string artifact; a link without one, or no link at
    /// all, degrades to empty.
    pub open spec fn spec_preview_magnet(html: Seq<char>) -> Seq<char> {
        match spec_select_attr(html, ".card-footer-item"@, 0, "href"@) {
            Option::Some(h) => if char_pos(h, '&') < h.len() {
                spec_before(h, '&')
            } else {
                Seq::empty()
            },
            Option::None => Seq::empty(),
        }
    }

    /// The image URLs of a preview page: the first sample image, prefixed
    /// with the base URL; none when absent.
    pub open spec fn spec_preview_images(html: Seq<char>) -> Seq<Seq<char>> {
        match spec_select_attr(
            html,
            "div.panel:nth-child(4) > div:nth-child(1) > img:nth-child(1)"@,
            0,
            "src"@,
        ) {
            Option::Some(s) => seq![Self::spec_base_url() + s],
            Option::None => Seq::empty(),
        }
    }

    /// What a parsed preview holds: the page's trimmed title, exactly one
    /// magnet-link variant built from the page's size, date and download
    /// link, and the page's sample image when it has one.
    pub open spec fn spec_preview_at(html: Seq<char>, p: Preview) -> bool {
        &&& p.title@ == Self::spec_preview_title(html)
        &&& p.bounds@.len() == 1
        &&& p.bounds@[0].size.spec_size() as nat == spec_parse_size(Self::spec_preview_size(html))
        &&& p.bounds@[0].size.wf()
        &&& p.bounds@[0].date.spec_timestamp() == spec_date_or_epoch(
            spec_date_time_ts(Self::spec_preview_date(html), Self::spec_date_fmt()),
        )
        &&& p.bounds@[0].magnet@ == Self::spec_preview_magnet(html)
        &&& p.images.deep_view() == Self::spec_preview_images(html)
    }

    /// Parses a preview page: title, one magnet-link variant, and the
    /// sample image when present.  A missing field degrades to its
    /// default; only the transport can fail, never the parse.
    pub fn parse_preview(&self, html: &str) -> (r: Preview)
        ensures
            Self::spec_preview_at(html@, r),
    {
        let title_raw = unwrap_or_empty(
            select_text(html, "div.panel:nth-child(1) > div:nth-child(1) > h3:nth-child(1)", 0),
        );
        let title = trim_spaces(title_raw.as_str()).to_owned();
        let size_text = unwrap_or_empty(
            select_text(html, "div.row:nth-child(3) > div:nth-child(2)", 0),
        );
        let date_text = unwrap_or_empty(
            select_text(html, "div.row:nth-child(1) > div:nth-child(4)", 0),
        );
        let magnet = match select_attr(html, ".card-footer-item", 0, "href") {
            Option::Some(h) => match take_before_strict(h.as_str(), '&') {
                Option::Some(m) => m.to_owned(),
                Option::None => String::new(),
            },
            Option::None => String::new(),
        };
        let mut images: Vec<String> = Vec::new();
        match select_attr(html, "div.panel:nth-child(4) > div:nth-child(1) > img:nth-child(1)", 0, "src") {
            Option::Some(s) => {
                images.push(concat_str("https://u3c3.com", s.as_str()));
            },
            Option::None => {},
        }
        let size = Size::parse(size_text.as_str());
        let date = Date::parse_date_time(date_text.as_str(), "%Y-%m-%d %H:%M:%S");
        let mut bounds: Vec<Bound> = Vec::new();
        bounds.push(Bound::new(size, date, magnet));
        proof {
            assert(images.deep_view() =~= Self::spec_preview_images(html@));
        }
        Preview::new(title, bounds, images)
    }
}

} // verus!
