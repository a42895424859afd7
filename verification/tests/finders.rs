use dga::{Javdb, Madou, Method, SourceId, U3C3};

const U3C3_LISTING: &str = r#"
<table><tbody>
<tr class="default"><td>h</td><td><a href="/x" title="header one">x</a></td><td>-</td><td>-</td><td>-</td></tr>
<tr class="default"><td>h</td><td><a href="/y" title="header two">y</a></td><td>-</td><td>-</td><td>-</td></tr>
<tr class="default"><td>c</td><td><a href="/view?id=abc" title="First Real">v</a></td><td>t</td><td>1.5GB</td><td>2024-01-01 00:00:00</td></tr>
<tr class="default"><td>c</td><td><a href="/view?id=def" title="Second Real">v</a></td><td>t</td><td>512 MB</td><td>2024-02-02 10:00:00</td></tr>
</tbody></table>
"#;

#[test]
fn u3c3_listing_skips_headers_and_normalizes() {
    let f = U3C3::new().unwrap();
    let items = f.parse_find(U3C3_LISTING);
    assert_eq!(items.len(), 2);
    assert_eq!(items[0].title, "First Real");
    assert_eq!(items[0].size.size(), 1610612736);
    assert_eq!(items[0].date.timestamp(), 1704067200);
    assert_eq!(items[0].preview.url, "https://u3c3.com/view?id=abc");
    assert!(matches!(items[0].preview.source, SourceId::U3c3));
    assert_eq!(items[1].title, "Second Real");
    assert_eq!(items[1].size.size(), 536870912);
    assert_eq!(items[1].date.timestamp(), 1706868000);
}

#[test]
fn u3c3_listing_missing_fields_degrade() {
    let html = r#"<table><tbody>
<tr class="default"><td>h</td><td>x</td></tr>
<tr class="default"><td>h</td><td>y</td></tr>
<tr class="default"><td>c</td><td>no link here</td></tr>
</tbody></table>"#;
    let f = U3C3::new().unwrap();
    let items = f.parse_find(html);
    assert_eq!(items.len(), 1);
    assert_eq!(items[0].title, "");
    assert_eq!(items[0].preview.url, "");
    assert_eq!(items[0].size.size(), 0);
    assert_eq!(items[0].date.timestamp(), 0);
}

const U3C3_PREVIEW: &str = r#"
<body>
<div class="panel"><div><h3>  Spaced Title  </h3></div></div>
<div>
  <div class="row"><div>a</div><div>b</div><div>c</div><div>2024-02-02 10:00:00</div></div>
  <div>filler</div>
  <div class="row"><div>label</div><div>512 MB</div></div>
</div>
<div><a class="card-footer-item" href="magnet:?xt=u3&amp;tr=t">dl</a></div>
<div class="panel"><div><img src="/img/sample.jpg"></div></div>
</body>
"#;

#[test]
fn u3c3_preview_extracts_and_trims() {
    let f = U3C3::new().unwrap();
    let p = f.parse_preview(U3C3_PREVIEW);
    assert_eq!(p.title, "Spaced Title");
    assert_eq!(p.bounds.len(), 1);
    assert_eq!(p.bounds[0].size.size(), 536870912);
    assert_eq!(p.bounds[0].date.timestamp(), 1706868000);
    // the magnet link is cut at its query-string artifact
    assert_eq!(p.bounds[0].magnet, "magnet:?xt=u3");
    assert_eq!(p.images, vec!["https://u3c3.com/img/sample.jpg".to_string()]);
}

#[test]
fn u3c3_preview_magnet_without_artifact_degrades() {
    let html = r#"<body><div><a class="card-footer-item" href="magnet:?xt=only">dl</a></div></body>"#;
    let f = U3C3::new().unwrap();
    let p = f.parse_preview(html);
    assert_eq!(p.bounds[0].magnet, "");
    assert!(p.images.is_empty());
}

const JAVDB_LISTING: &str = r#"
<body><section><div><div class="movie-list h cols-4 vcols-8">
<div><a href="/v/abc" title="Title A"><div class="video-title"><strong>ID-1</strong></div><div class="meta"> 2024-05-01 </div></a></div>
<div><a href="/v/def" title="Title B"><div class="video-title"><strong>ID-2</strong></div><div class="meta"> 2024-05-02 </div></a></div>
</div></div></section></body>
"#;

#[test]
fn javdb_listing_normalizes() {
    let f = Javdb::new().unwrap();
    let items = f.parse_find(JAVDB_LISTING);
    assert_eq!(items.len(), 2);
    assert_eq!(items[0].title, "Title A");
    assert_eq!(items[0].preview.url, "https://javdb.com/v/abc");
    assert_eq!(items[0].date.timestamp(), 1714521600);
    // this source lists no sizes
    assert_eq!(items[0].size.size(), 0);
    assert!(matches!(items[0].preview.source, SourceId::Javdb));
    assert_eq!(items[1].date.timestamp(), 1714608000);
}

const JAVDB_PREVIEW: &str = r#"
<body><section><div>
<div class="video-detail"><h2><strong class="current-title">Detail Title</strong></h2></div>
<div id="magnets-content">
<div><div class="magnet-name column is-four-fifths"><a href="magnet:?xt=old&amp;tr=x"><span class="meta">1.5GB, 2 files</span></a></div><div class="date column"><span>2024-01-01</span></div></div>
<div><div class="magnet-name column is-four-fifths"><a href="magnet:?xt=new&amp;tr=y"><span class="meta">512 MB, 1 file</span></a></div><div class="date column"><span>2024-03-01</span></div></div>
</div>
</div></section></body>
"#;

#[test]
fn javdb_preview_sorts_variants_most_recent_first() {
    let f = Javdb::new().unwrap();
    let p = f.parse_preview(JAVDB_PREVIEW);
    assert_eq!(p.title, "Detail Title");
    assert_eq!(p.bounds.len(), 2);
    assert_eq!(p.bounds[0].magnet, "magnet:?xt=new");
    assert_eq!(p.bounds[0].size.size(), 536870912);
    assert_eq!(p.bounds[1].magnet, "magnet:?xt=old");
    assert_eq!(p.bounds[1].size.size(), 1610612736);
    assert!(p.bounds[0].date.timestamp() >= p.bounds[1].date.timestamp());
    assert!(p.images.is_empty());
}

const MADOU_LISTING: &str = r#"
<table><tbody>
<tr class="default"><td>06-21</td><td><a href="/movie.php?id=7"><span>play('aGVsbG8=')</span></a></td><td>1 GB</td></tr>
</tbody></table>
"#;

#[test]
fn madou_listing_decodes_titles_and_infers_year() {
    let f = Madou::new().unwrap();
    let items = f.parse_find(MADOU_LISTING, 2024, 5, 1);
    assert_eq!(items.len(), 1);
    assert_eq!(items[0].title, "hello");
    assert_eq!(items[0].size.size(), 1073741824);
    assert_eq!(items[0].date.timestamp(), 1687305600); // 2023-06-21
    assert_eq!(items[0].preview.url, "https://hxx.533923.xyz/movie.php?id=7");
    assert!(matches!(items[0].preview.source, SourceId::Madou));
}

#[test]
fn madou_listing_bad_encoding_degrades() {
    let html = r#"<table><tbody>
<tr class="default"><td>x</td><td><a href="/m"><span>play('%%%')</span></a></td><td>?</td></tr>
</tbody></table>"#;
    let f = Madou::new().unwrap();
    let items = f.parse_find(html, 2024, 5, 1);
    assert_eq!(items.len(), 1);
    assert_eq!(items[0].title, "");
}

const MADOU_PREVIEW: &str = r#"
<body>
<div>1</div><div>2</div><div>3</div><div>4</div>
<div>
  <div>
    <div class="panel-heading"><h3>show('aGVsbG8=')</h3></div>
    <div class="panel-body">
      <div><div>date</div><div> 2024-05-01 </div></div>
      <div><div>size</div><div>512 MB</div></div>
    </div>
  </div>
  <div class="download"><div><a href="/first">1</a><a href="magnet:?xt=madou">2</a></div></div>
</div>
<div id="torrent-description"><div><img src="i1.jpg"><img src="i2.jpg"></div></div>
</body>
"#;

#[test]
fn madou_preview_extracts_everything() {
    let f = Madou::new().unwrap();
    let p = f.parse_preview(MADOU_PREVIEW);
    assert_eq!(p.title, "hello");
    assert_eq!(p.bounds.len(), 1);
    assert_eq!(p.bounds[0].size.size(), 536870912);
    assert_eq!(p.bounds[0].date.timestamp(), 1714521600);
    // this source's link is kept whole
    assert_eq!(p.bounds[0].magnet, "magnet:?xt=madou");
    assert_eq!(p.images, vec!["i1.jpg".to_string(), "i2.jpg".to_string()]);
}

#[test]
fn base64_titles_decode_or_degrade() {
    assert_eq!(dga::madou::base64_decode("aGVsbG8="), "hello");
    assert_eq!(dga::madou::base64_decode("not base64!"), "");
}

#[test]
fn find_requests_carry_the_keyword() {
    let u = U3C3::new().unwrap();
    let r = u.find_request("stars-804");
    assert!(matches!(r.method, Method::Get));
    assert_eq!(r.url, "https://u3c3.com");
    assert_eq!(r.params[0], ("search".to_string(), "stars-804".to_string()));
    assert_eq!(r.params[1], ("search2".to_string(), "eelja3lfe1a1".to_string()));

    let j = Javdb::new().unwrap();
    let r = j.find_request("stars-804");
    assert_eq!(r.url, "https://javdb.com/search");
    assert_eq!(r.params, vec![
        ("q".to_string(), "stars-804".to_string()),
        ("f".to_string(), "all".to_string()),
    ]);

    let m = Madou::new().unwrap();
    let r = m.find_request("stars-804");
    assert!(matches!(r.method, Method::Post));
    assert_eq!(r.url, "https://hxx.533923.xyz/search.php");
    assert_eq!(r.params, vec![("keyword".to_string(), "stars-804".to_string())]);
}

#[test]
fn madou_listing_against_the_clock() {
    // whatever today is, the row still parses and the title still decodes
    let f = Madou::new().unwrap();
    let items = f.parse_find_today(MADOU_LISTING);
    assert_eq!(items.len(), 1);
    assert_eq!(items[0].title, "hello");
    assert_eq!(items[0].size.size(), 1073741824);
}
