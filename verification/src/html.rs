use vstd::prelude::*;

verus! {

/// Whether a CSS selector group compiles.  A property of the selector
/// string alone.
pub uninterp spec fn spec_selector_ok(sel: Seq<char>) -> bool;

/// How many elements of an HTML document match a selector; zero when the
/// selector does not compile.  A function of the two strings alone.
pub uninterp spec fn spec_select_count(html: Seq<char>, sel: Seq<char>) -> nat;

/// The concatenated text of the `nth` element of an HTML document
/// matching a selector; `None` when there are not that many matches or
/// the selector does not compile.  A function of its arguments alone.
pub uninterp spec fn spec_select_text(html: Seq<char>, sel: Seq<char>, nth: int) -> Option<
    Seq<char>,
>;

/// The value of an attribute on the `nth` element of an HTML document
/// matching a selector; `None` when there are not that many matches, the
/// element lacks the attribute, or the selector does not compile.  A
/// function of its arguments alone.
pub uninterp spec fn spec_select_attr(
    html: Seq<char>,
    sel: Seq<char>,
    nth: int,
    attr: Seq<char>,
) -> Option<Seq<char>>;

/// The concatenated text of the first element matching an inner selector
/// inside the `nth` element matching an outer selector; `None` when
/// either match is missing or a selector does not compile.  A function of
/// its arguments alone.
pub uninterp spec fn spec_select_text_in(
    html: Seq<char>,
    outer: Seq<char>,
    nth: int,
    inner: Seq<char>,
) -> Option<Seq<char>>;

/// The value of an attribute on the first element matching an inner
/// selector inside the `nth` element matching an outer selector; `None`
/// when a match is missing, the attribute is absent, or a selector does
/// not compile.  A function of its arguments alone.
pub uninterp spec fn spec_select_attr_in(
    html: Seq<char>,
    outer: Seq<char>,
    nth: int,
    inner: Seq<char>,
    attr: Seq<char>,
) -> Option<Seq<char>>;


/// The text an optional extraction produced, or the empty string: a
/// missing selector match degrades to a default rather than an error.
pub open spec fn or_empty(o: Option<Seq<char>>) -> Seq<char> {
    match o {
        Option::Some(s) => s,
        Option::None => Seq::empty(),
    }
}

/// Relies on scraper's `Selector::parse`: whether a CSS selector group
/// compiles, which depends on the selector string alone.
#[verifier::external_body]
pub(crate) fn selector_ok(sel: &str) -> (r: bool)
    ensures
        r == spec_selector_ok(sel@),
{
    scraper::Selector::parse(sel).is_ok()
}

/// Relies on scraper's `Selector::parse`, `Html::parse_document` and
/// `Html::select`: counts the elements matching a selector, a function of
/// the two strings alone.
#[verifier::external_body]
pub(crate) fn select_count(html: &str, sel: &str) -> (r: usize)
    ensures
        r as nat == spec_select_count(html@, sel@),
{
    let Ok(s) = scraper::Selector::parse(sel) else {
        return 0;
    };
    scraper::Html::parse_document(html).select(&s).count()
}

/// Relies on scraper's `Selector::parse`, `Html::parse_document`,
/// `Html::select` and `ElementRef::text`: the text of the `nth` matching
/// element, a function of the arguments alone.
#[verifier::external_body]
pub(crate) fn select_text(html: &str, sel: &str, nth: usize) -> (r: Option<String>)
    ensures
        r.deep_view() == spec_select_text(html@, sel@, nth as int),
{
    let Ok(s) = scraper::Selector::parse(sel) else {
        return None;
    };
    let doc = scraper::Html::parse_document(html);
    let found = doc.select(&s).nth(nth)?;
    Some(found.text().collect())
}

/// Relies on scraper's `Selector::parse`, `Html::parse_document`,
/// `Html::select` and `ElementRef::attr`: an attribute of the `nth`
/// matching element, a function of the arguments alone.
#[verifier::external_body]
pub(crate) fn select_attr(html: &str, sel: &str, nth: usize, attr: &str) -> (r: Option<String>)
    ensures
        r.deep_view() == spec_select_attr(html@, sel@, nth as int, attr@),
{
    let Ok(s) = scraper::Selector::parse(sel) else {
        return None;
    };
    let doc = scraper::Html::parse_document(html);
    let found = doc.select(&s).nth(nth)?;
    found.attr(attr).map(String::from)
}

/// Relies on scraper's `Selector::parse`, `Html::parse_document`,
/// `Html::select`, `ElementRef::select` and `ElementRef::text`: the text
/// of the first inner match inside the `nth` outer match, a function of
/// the arguments alone.
#[verifier::external_body]
pub(crate) fn select_text_in(html: &str, outer: &str, nth: usize, inner: &str) -> (r: Option<
    String,
>)
    ensures
        r.deep_view() == spec_select_text_in(html@, outer@, nth as int, inner@),
{
    let Ok(so) = scraper::Selector::parse(outer) else {
        return None;
    };
    let Ok(si) = scraper::Selector::parse(inner) else {
        return None;
    };
    let doc = scraper::Html::parse_document(html);
    let row = doc.select(&so).nth(nth)?;
    let found = row.select(&si).next()?;
    Some(found.text().collect())
}

/// Relies on scraper's `Selector::parse`, `Html::parse_document`,
/// `Html::select`, `ElementRef::select` and `ElementRef::attr`: an
/// attribute of the first inner match inside the `nth` outer match, a
/// function of the arguments alone.
#[verifier::external_body]
pub(crate) fn select_attr_in(
    html: &str,
    outer: &str,
    nth: usize,
    inner: &str,
    attr: &str,
) -> (r: Option<String>)
    ensures
        r.deep_view() == spec_select_attr_in(html@, outer@, nth as int, inner@, attr@),
{
    let Ok(so) = scraper::Selector::parse(outer) else {
        return None;
    };
    let Ok(si) = scraper::Selector::parse(inner) else {
        return None;
    };
    let doc = scraper::Html::parse_document(html);
    let row = doc.select(&so).nth(nth)?;
    let found = row.select(&si).next()?;
    found.attr(attr).map(String::from)
}

/// The attribute values of the first `n` elements matching a selector,
/// kept in document order; an element without the attribute contributes
/// nothing.
pub open spec fn spec_attr_list(
    html: Seq<char>,
    sel: Seq<char>,
    attr: Seq<char>,
    n: int,
) -> Seq<Seq<char>>
    decreases n,
{
    if n <= 0 {
        Seq::empty()
    } else {
        let rest = spec_attr_list(html, sel, attr, n - 1);
        match spec_select_attr(html, sel, n - 1, attr) {
            Option::Some(s) => rest.push(s),
            Option::None => rest,
        }
    }
}

/// Collects an attribute over every element matching a selector, in
/// document order, skipping elements without the attribute.
pub(crate) fn collect_attrs(html: &str, sel: &str, attr: &str) -> (r: Vec<String>)
    ensures
        r.deep_view() == spec_attr_list(
            html@,
            sel@,
            attr@,
            spec_select_count(html@, sel@) as int,
        ),
{
    let total = select_count(html, sel);
    let mut out: Vec<String> = Vec::new();
    let mut i: usize = 0;
    while i < total
        invariant
            i <= total,
            total as nat == spec_select_count(html@, sel@),
            out.deep_view() == spec_attr_list(html@, sel@, attr@, i as int),
        decreases total - i,
    {
        match select_attr(html, sel, i, attr) {
            Option::Some(s) => {
                out.push(s);
            },
            Option::None => {},
        }
        i = i + 1;
        proof {
            assert(out.deep_view() =~= spec_attr_list(html@, sel@, attr@, i as int));
        }
    }
    out
}

} // verus!
