use linkfetch::extract_download_link;
use linkfetch::extract_download_links;
use linkfetch::BaseUrl;
use linkfetch::ParseError;

#[test]
fn test_extract_download_link() {
    let base = BaseUrl::parse("https://www.fit-portal.go.jp/PublicInfo/").unwrap();
    let page = r#"
        <html>
            <body>
                <a href="servlet.FileDownload?file=00P0K00002BkA63UAF">Download</a>
            </body>
        </html>
        "#;

    let expected =
        "https://www.fit-portal.go.jp/PublicInfo/servlet.FileDownload?file=00P0K00002BkA63UAF";
    let actual = extract_download_link(page, &base).unwrap();

    assert_eq!(actual.as_str(), expected);
}

#[test]
fn test_extract_download_links() {
    let base = BaseUrl::parse("https://www.fit-portal.go.jp/PublicInfo/").unwrap();
    let page = r#"
    <html>
        <body>
            <a href="servlet.FileDownload?file=00P0K00002BkA63UAF">Download</a>
            <a href="servlet.FileDownload?file=00P0K00002BkA63UAG">Download</a>
        </body>
    </html>
    "#;

    let expected = vec![
        "https://www.fit-portal.go.jp/PublicInfo/servlet.FileDownload?file=00P0K00002BkA63UAF",
        "https://www.fit-portal.go.jp/PublicInfo/servlet.FileDownload?file=00P0K00002BkA63UAG",
    ];
    let actual = extract_download_links(page, &base).unwrap();

    let actual_strs: Vec<&str> = actual.iter().map(|l| l.as_str()).collect();
    assert_eq!(actual_strs, expected);
}

#[test]
fn non_matching_anchor_yields_empty_sequence() {
    let base = BaseUrl::parse("https://host/").unwrap();
    let page = "<a href='test_link.html'>Test Link</a>";

    let links = extract_download_links(page, &base).unwrap();

    assert!(links.is_empty());
}

#[test]
fn non_matching_anchor_fails_singular_extraction() {
    let base = BaseUrl::parse("https://host/").unwrap();
    let page = "<a href='test_link.html'>Test Link</a>";

    let err = extract_download_link(page, &base).unwrap_err();

    assert_eq!(err, ParseError::NotFound);
}

#[test]
fn page_without_anchors_yields_empty_sequence() {
    let base = BaseUrl::parse("https://host/").unwrap();
    let page = "<html><body><p>nothing to see</p></body></html>";

    let links = extract_download_links(page, &base).unwrap();
    assert!(links.is_empty());

    let err = extract_download_link(page, &base).unwrap_err();
    assert_eq!(err, ParseError::NotFound);
}

#[test]
fn extraction_preserves_document_order() {
    let base = BaseUrl::parse("https://host/dir/").unwrap();
    let page = r#"
        <a href="servlet.FileDownload?file=A">first</a>
        <a href="unrelated.html">skip</a>
        <a href="servlet.FileDownload?file=B">second</a>
    "#;

    let links = extract_download_links(page, &base).unwrap();

    assert_eq!(links.len(), 2);
    assert_eq!(links[0].as_str(), "https://host/dir/servlet.FileDownload?file=A");
    assert_eq!(links[1].as_str(), "https://host/dir/servlet.FileDownload?file=B");
}

#[test]
fn absolute_href_resolves_to_itself() {
    let base = BaseUrl::parse("https://host/dir/").unwrap();
    let page = r#"<a href="https://elsewhere.example/servlet.FileDownload?file=Z">abs</a>"#;

    let links = extract_download_links(page, &base).unwrap();

    assert_eq!(links.len(), 1);
    assert_eq!(links[0].as_str(), "https://elsewhere.example/servlet.FileDownload?file=Z");
}

#[test]
fn rooted_href_resolves_against_host() {
    let base = BaseUrl::parse("https://host/deep/dir/page.html").unwrap();
    let page = r#"<a href="/servlet.FileDownload?file=R">rooted</a>"#;

    let links = extract_download_links(page, &base).unwrap();

    assert_eq!(links.len(), 1);
    assert_eq!(links[0].as_str(), "https://host/servlet.FileDownload?file=R");
}

#[test]
fn unresolvable_matching_href_fails_extraction() {
    let base = BaseUrl::parse("https://host/").unwrap();
    let page = r#"
        <a href="servlet.FileDownload?file=OK">good</a>
        <a href="http://[::1/servlet.FileDownload">bad</a>
    "#;

    let err = extract_download_links(page, &base).unwrap_err();

    assert_eq!(err, ParseError::Unresolvable("http://[::1/servlet.FileDownload".to_string()));
}

#[test]
fn marker_is_case_sensitive() {
    let base = BaseUrl::parse("https://host/").unwrap();
    let page = r#"
        <a href="servlet.filedownload?file=A">lower</a>
        <a href="servlet.FileDownloa">cut short</a>
    "#;

    let links = extract_download_links(page, &base).unwrap();
    assert!(links.is_empty());
}

#[test]
fn marker_matches_anywhere_in_href() {
    let base = BaseUrl::parse("https://host/").unwrap();
    let page = r#"<a href="deep/path/servlet.FileDownload?file=Q&x=1">nested</a>"#;

    let links = extract_download_links(page, &base).unwrap();

    assert_eq!(links.len(), 1);
    assert_eq!(links[0].as_str(), "https://host/deep/path/servlet.FileDownload?file=Q&x=1");
}

#[test]
fn base_url_is_normalized() {
    let base = BaseUrl::parse("https://HOST").unwrap();
    assert_eq!(base.as_str(), "https://host/");

    assert!(BaseUrl::parse("not a url").is_none());
    assert!(BaseUrl::parse("relative/path").is_none());
}

#[test]
fn two_marked_anchors_name_two_output_files() {
    let base = BaseUrl::parse("https://host/").unwrap();
    let page = r#"
        <a href="servlet.FileDownload?file=A">A</a>
        <a href="servlet.FileDownload?file=B">B</a>
    "#;

    let links = extract_download_links(page, &base).unwrap();
    assert_eq!(links.len(), 2);
    assert_eq!(links[0].as_str(), "https://host/servlet.FileDownload?file=A");
    assert_eq!(links[1].as_str(), "https://host/servlet.FileDownload?file=B");

    let paths = linkfetch::download_paths("out_", links.len() as u64);
    assert_eq!(paths, vec!["out_file_0", "out_file_1"]);
}
