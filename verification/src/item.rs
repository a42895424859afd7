use vstd::prelude::*;
use crate::date::Date;
use crate::size::Size;

verus! {

/// The opaque identifier of a source adapter.  It keys the aggregator's
/// finder registry, so two adapters never collide: each gets its own
/// variant of this closed enum.
#[derive(Debug, Clone, Copy, PartialEq, Eq, Structural)]
pub enum SourceId {
    U3c3,
    Javdb,
    Madou,
}

/// The opaque routing handle attached to every search result: the
/// identifier of the source that produced the item, plus the
/// source-specific locator of its preview page.  Created at search time;
/// looking it up later is idempotent, so it may be cloned and used
/// repeatedly.
#[derive(Debug, Clone)]
pub struct Previewable {
    pub source: SourceId,
    pub url: String,
}

impl Previewable {
    /// Builds a handle for a source and a preview locator.
    pub fn new(source: SourceId, url: String) -> (r: Self)
        ensures
            r.source == source,
            r.url@ == url@,
    {
        Previewable { source, url }
    }

    /// The pair a preview request is routed by: the source identifier and
    /// the source-specific locator.
    pub fn preview_url(&self) -> (r: (SourceId, &String))
        ensures
            r.0 == self.source,
            r.1@ == self.url@,
    {
        (self.source, &self.url)
    }
}

/// One normalized search result: a title, a normalized size and date, and
/// the opaque handle used later to fetch its preview.
#[derive(Debug, Clone)]
pub struct Item {
    pub title: String,
    pub size: Size,
    pub date: Date,
    pub preview: Previewable,
}

impl Item {
    /// Assembles a search result row.
    pub fn new(title: String, size: Size, date: Date, preview: Previewable) -> (r: Self)
        ensures
            r.title@ == title@,
            r.size == size,
            r.date == date,
            r.preview == preview,
    {
        Item { title, size, date, preview }
    }
}

/// One concrete downloadable magnet-link variant of a preview, with its
/// own size and date.
#[derive(Debug, Clone)]
pub struct Bound {
    pub size: Size,
    pub date: Date,
    pub magnet: String,
}

impl Bound {
    /// Assembles a magnet-link variant.
    pub fn new(size: Size, date: Date, magnet: String) -> (r: Self)
        ensures
            r.size == size,
            r.date == date,
            r.magnet@ == magnet@,
    {
        Bound { size, date, magnet }
    }
}

/// The resolved detail of one search result: a title, one or more
/// magnet-link variants (most recent first where a source offers
/// several), and zero or more image URLs.
#[derive(Debug, Clone)]
pub struct Preview {
    pub title: String,
    pub bounds: Vec<Bound>,
    pub images: Vec<String>,
}

impl Preview {
    /// Assembles a preview.
    pub fn new(title: String, bounds: Vec<Bound>, images: Vec<String>) -> (r: Self)
        ensures
            r.title@ == title@,
            r.bounds == bounds,
            r.images == images,
    {
        Preview { title, bounds, images }
    }
}

/// The HTTP method of a [`Request`].
#[derive(Debug, Clone, Copy, PartialEq, Eq, Structural)]
pub enum Method {
    Get,
    Post,
}

/// One outbound HTTP request a finder asks its caller to perform: the
/// caller fetches the body and hands the text back for parsing.  For a
/// `Get` the parameters are the query string; for a `Post` they are the
/// form fields.
#[derive(Debug, Clone)]
pub struct Request {
    pub method: Method,
    pub url: String,
    pub params: Vec<(String, String)>,
}

} // verus!
