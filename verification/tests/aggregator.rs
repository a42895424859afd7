use dga::{
    AppState, Date, Error, Finder, FromState, IconName, Item, Javdb, Magnet, Method, Previewable,
    Size, SourceId, U3C3,
};

fn item(title: &str, date: &str, size: &str, source: SourceId) -> Item {
    Item::new(
        title.to_string(),
        Size::parse(size),
        Date::parse_date(date, "%Y-%m-%d"),
        Previewable::new(source, format!("https://example/{title}")),
    )
}

#[test]
fn fanout_drops_failing_sources() {
    let m = Magnet::new().unwrap();
    let outcomes = vec![
        Ok(vec![
            item("a1", "2024-01-01", "1 MB", SourceId::U3c3),
            item("a2", "2024-01-02", "1 MB", SourceId::U3c3),
        ]),
        Ok(vec![
            item("b1", "2024-01-03", "1 MB", SourceId::Javdb),
            item("b2", "2024-01-04", "1 MB", SourceId::Javdb),
            item("b3", "2024-01-05", "1 MB", SourceId::Javdb),
        ]),
        Err(Error::Network),
    ];
    let merged = m.find(outcomes);
    // the failing source contributes nothing and aborts nothing
    assert_eq!(merged.len(), 5);
}

#[test]
fn merge_orders_by_date_then_size() {
    let m = Magnet::new().unwrap();
    let outcomes = vec![Ok(vec![
        item("old-small", "2023-01-01", "1 MB", SourceId::U3c3),
        item("new-big", "2024-06-01", "2 GB", SourceId::U3c3),
        item("new-small", "2024-06-01", "500 MB", SourceId::U3c3),
    ])];
    let merged = m.find(outcomes);
    let titles: Vec<&str> = merged.iter().map(|it| it.title.as_str()).collect();
    assert_eq!(titles, vec!["new-big", "new-small", "old-small"]);
}

#[test]
fn end_to_end_two_sources() {
    let m = Magnet::new().unwrap();
    let source1 = vec![item("Foo 2024", "2024-05-01", "700MB", SourceId::U3c3)];
    let source2 = vec![item("FooBar", "2024-05-02", "1.2GB", SourceId::Javdb)];
    let merged = m.find(vec![Ok(source1), Ok(source2)]);
    assert_eq!(merged.len(), 2);
    assert_eq!(merged[0].title, "FooBar");
    assert_eq!(merged[0].date.timestamp(), 1714608000);
    assert_eq!(merged[0].size.size(), 1288490188);
    assert_eq!(merged[1].title, "Foo 2024");
    assert_eq!(merged[1].date.timestamp(), 1714521600);
    assert_eq!(merged[1].size.size(), 734003200);
}

const JAVDB_PREVIEW: &str = r#"
<body><section><div>
<div class="video-detail"><h2><strong class="current-title">Routed Title</strong></h2></div>
<div id="magnets-content">
<div><div class="magnet-name column is-four-fifths"><a href="magnet:?xt=z&amp;tr=x"><span class="meta">1 GB</span></a></div><div class="date column"><span>2024-01-01</span></div></div>
</div>
</div></section></body>
"#;

#[test]
fn preview_routes_to_the_producing_source_only() {
    let m = Magnet::with_finders(vec![
        Finder::U3c3(U3C3::new().unwrap()),
        Finder::Javdb(Javdb::new().unwrap()),
    ]);
    let handle = Previewable::new(SourceId::Javdb, "https://javdb.com/v/abc".to_string());
    let p = m.preview(&handle, JAVDB_PREVIEW).unwrap();
    // the page reads as the producing source's adapter reads it
    assert_eq!(p.title, "Routed Title");
    assert_eq!(p.bounds.len(), 1);
    // the other adapter would have read the same page quite differently
    let other = Previewable::new(SourceId::U3c3, "https://u3c3.com/view?id=x".to_string());
    let q = m.preview(&other, JAVDB_PREVIEW).unwrap();
    assert_eq!(q.title, "");
    assert_eq!(q.bounds[0].magnet, "");
}

#[test]
fn unknown_handle_yields_type_not_found() {
    let m = Magnet::with_finders(vec![Finder::U3c3(U3C3::new().unwrap())]);
    let handle = Previewable::new(SourceId::Madou, "https://somewhere/else".to_string());
    let r = m.preview(&handle, "<body></body>");
    assert!(matches!(r, Err(Error::TypeNotFound)));
    let r = m.preview_request(&handle);
    assert!(matches!(r, Err(Error::TypeNotFound)));
}

#[test]
fn preview_request_fetches_the_locator() {
    let m = Magnet::new().unwrap();
    let handle = Previewable::new(SourceId::U3c3, "https://u3c3.com/view?id=abc".to_string());
    let req = m.preview_request(&handle).unwrap();
    assert!(matches!(req.method, Method::Get));
    assert_eq!(req.url, "https://u3c3.com/view?id=abc");
    assert!(req.params.is_empty());
}

#[test]
fn registry_holds_every_source_once() {
    let m = Magnet::new().unwrap();
    assert_eq!(m.source_count(), 3);
    let reqs = m.find_requests("foo");
    assert_eq!(reqs.len(), 3);
    assert!(matches!(reqs[0].0, SourceId::U3c3));
    assert!(matches!(reqs[1].0, SourceId::Javdb));
    assert!(matches!(reqs[2].0, SourceId::Madou));
    assert_eq!(reqs[1].1.params[0].1, "foo");
}

#[test]
fn parse_find_routes_by_source() {
    let m = Magnet::new().unwrap();
    let html = r#"<body><section><div><div class="movie-list h cols-4 vcols-8">
<div><a href="/v/abc" title="One"><div class="meta">2024-05-01</div></a></div>
</div></div></section></body>"#;
    let items = m.parse_find(SourceId::Javdb, html).unwrap();
    assert_eq!(items.len(), 1);
    assert_eq!(items[0].title, "One");
    // the same page holds no rows for the other sources
    let empty = m.parse_find(SourceId::U3c3, html).unwrap();
    assert!(empty.is_empty());
}

#[test]
fn error_messages_are_sentences() {
    assert_eq!(Error::BuildClient.message(), "failed to build the HTTP client");
    assert_eq!(Error::Network.message(), "network error");
    assert_eq!(Error::Parse("tr.bad(").message(), "failed to parse selector: tr.bad(");
    assert_eq!(Error::Task.message(), "a background task failed");
    assert_eq!(
        Error::TypeNotFound.message(),
        "no finder is registered for this preview handle"
    );
}

#[test]
fn app_state_returns_where_license_was_opened() {
    assert_eq!(AppState::from(&FromState::Home), AppState::Home);
    assert_eq!(AppState::from(&FromState::Download), AppState::Download);
}

#[test]
fn icon_paths_name_their_assets() {
    assert_eq!(IconName::Sun.path(), "icons/sun.svg");
    assert_eq!(IconName::HardDriveDownload.path(), "icons/hard-drive-download.svg");
    assert_eq!(IconName::Trash2.path(), "icons/trash-2.svg");
}

#[test]
fn parse_find_unregistered_source_fails() {
    let m = Magnet::with_finders(Vec::new());
    let r = m.parse_find(SourceId::U3c3, "<body></body>");
    assert!(matches!(r, Err(Error::TypeNotFound)));
}
