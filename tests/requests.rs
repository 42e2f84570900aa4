use mimetest::filetype::{FileTypeKey, PayloadTable};
use mimetest::query::{parse_query, QueryError};
use mimetest::response::{error_response, Response};
use mimetest::router::{respond, Variant, INDEX_PAGE};

fn payload_of(key: FileTypeKey) -> Vec<u8> {
    let mut bytes = b"payload of ".to_vec();
    bytes.extend_from_slice(key.name().as_bytes());
    bytes.push(0xff);
    bytes
}

fn dynamic() -> Variant {
    let payloads: Vec<Vec<u8>> = FileTypeKey::all().into_iter().map(payload_of).collect();
    Variant::Dynamic(PayloadTable::new(payloads).unwrap())
}

fn download(query: &str) -> Response {
    respond(&dynamic(), "/dl/test.bin", Some(query))
}

fn assert_error(r: &Response, status: u16, body: &str) {
    assert_eq!(r.status, status);
    assert_eq!(r.content_type.as_deref(), Some("text/plain; charset=UTF-8"));
    assert_eq!(r.content_disposition, None);
    assert_eq!(r.body, body.as_bytes());
}

#[test]
fn plain_download_of_every_kind() {
    for key in FileTypeKey::all() {
        let r = download(&format!("ty={}&ct=none&cd=none", key.name()));
        assert_eq!(r.status, 200);
        assert_eq!(r.content_type, None);
        assert_eq!(r.content_disposition, None);
        assert_eq!(r.body, payload_of(key));
    }
}

#[test]
fn download_with_both_headers() {
    let r = download("ty=svg&ct=image%2Fsvg%2Bxml&cd=attachment");
    assert_eq!(r.status, 200);
    assert_eq!(r.content_type.as_deref(), Some("image/svg+xml"));
    assert_eq!(r.content_disposition.as_deref(), Some("attachment"));
    assert_eq!(r.body, payload_of(FileTypeKey::Svg));
}

#[test]
fn download_keys_in_any_order() {
    let r = download("cd=attachment%3B%20filename%3D%22a.txt%22&ty=pdf&ct=text%2Fplain");
    assert_eq!(r.status, 200);
    assert_eq!(r.content_type.as_deref(), Some("text/plain"));
    assert_eq!(r.content_disposition.as_deref(), Some("attachment; filename=\"a.txt\""));
    assert_eq!(r.body, payload_of(FileTypeKey::Pdf));
}

#[test]
fn later_duplicate_key_wins() {
    let r = download("ty=txt&ct=none&cd=none&ty=png");
    assert_eq!(r.status, 200);
    assert_eq!(r.body, payload_of(FileTypeKey::Png));
}

#[test]
fn missing_part_is_refused() {
    assert_error(&download("ty=pdf&ct=none"), 400, "missing query part");
    assert_error(&download("ct=none&cd=none"), 400, "missing query part");
    assert_error(&download("ty=pdf&cd=none"), 400, "missing query part");
}

#[test]
fn extra_part_is_refused() {
    assert_error(&download("ty=pdf&ct=none&cd=none&extra=1"), 400, "extra query parts");
}

#[test]
fn bad_percent_encoding_is_refused() {
    assert_error(&download("ty=pdf&ct=%GG&cd=none"), 400, "decode failed");
    assert_error(&download("ty=pdf&ct=none&cd=100%"), 400, "decode failed");
}

#[test]
fn invalid_utf8_is_refused() {
    assert_error(&download("ty=pdf&ct=%FF&cd=none"), 400, "decode failed");
}

#[test]
fn unknown_file_type_is_refused() {
    assert_error(&download("ty=doesnotexist&ct=none&cd=none"), 400, "Bad file type");
}

#[test]
fn malformed_component_is_refused() {
    assert_error(&download("ty"), 400, "malformed query");
    assert_error(&download("ty=pdf&ct=a=b&cd=none"), 400, "malformed query");
    assert_error(&download(""), 400, "malformed query");
    assert_error(&download("ty=pdf&ct=none&cd=none&"), 400, "malformed query");
}

#[test]
fn first_failing_component_decides() {
    assert_error(&download("ty=%GG&ct"), 400, "decode failed");
    assert_error(&download("ty&ct=%GG"), 400, "malformed query");
}

#[test]
fn missing_query_is_refused() {
    let r = respond(&dynamic(), "/dl/test.pdf", None);
    assert_error(&r, 400, "missing query");
}

#[test]
fn header_value_rejected_by_builder() {
    assert_error(&download("ty=pdf&ct=text%0Aplain&cd=none"), 500, "Internal Server Error");
    assert_error(&download("ty=pdf&ct=none&cd=a%7Fb"), 500, "Internal Server Error");
}

#[test]
fn header_value_with_tab_and_high_bytes_passes() {
    let r = download("ty=pdf&ct=a%09b&cd=%C3%A9");
    assert_eq!(r.status, 200);
    assert_eq!(r.content_type.as_deref(), Some("a\tb"));
    assert_eq!(r.content_disposition.as_deref(), Some("\u{e9}"));
}

#[test]
fn bad_file_type_comes_before_bad_header() {
    assert_error(&download("ty=nope&ct=a%0Ab&cd=none"), 400, "Bad file type");
}

#[test]
fn index_page() {
    for variant in [dynamic(), Variant::Static] {
        let r = respond(&variant, "/", None);
        assert_eq!(r.status, 200);
        assert_eq!(r.content_type.as_deref(), Some("text/html; charset=UTF-8"));
        assert_eq!(r.content_disposition, None);
        assert_eq!(r.body, INDEX_PAGE.as_bytes());
        assert!(r.body.starts_with(b"<!doctype html>"));
    }
}

#[test]
fn unknown_path_is_not_found() {
    assert_error(&respond(&dynamic(), "/does/not/exist", None), 404, "Not Found");
    assert_error(&respond(&Variant::Static, "/does/not/exist", None), 404, "Not Found");
    assert_error(&respond(&dynamic(), "/test.png", None), 404, "Not Found");
    assert_error(&respond(&Variant::Static, "/dl/x?ty=pdf", None), 404, "Not Found");
}

#[test]
fn static_attachment_png() {
    let r = respond(&Variant::Static, "/att/test.png", None);
    assert_eq!(r.status, 200);
    assert_eq!(r.content_disposition.as_deref(), Some("attachment"));
    assert_eq!(r.content_type.as_deref(), Some("image/png"));
    assert_eq!(r.body, b"Hello World!");
}

#[test]
fn static_nomime_png() {
    let r = respond(&Variant::Static, "/nomime/test.png", None);
    assert_eq!(r.status, 200);
    assert_eq!(r.content_type, None);
    assert_eq!(r.content_disposition, None);
    assert_eq!(r.body, b"Hello World!");
}

#[test]
fn static_attachment_nomime_png() {
    let r = respond(&Variant::Static, "/att/nomime/test.png", None);
    assert_eq!(r.status, 200);
    assert_eq!(r.content_type, None);
    assert_eq!(r.content_disposition.as_deref(), Some("attachment"));
    assert_eq!(r.body, b"Hello World!");
}

#[test]
fn static_pages_by_suffix() {
    let r = respond(&Variant::Static, "/test.html", None);
    assert_eq!(r.content_type.as_deref(), Some("text/html"));
    assert_eq!(r.body, b"Hello");
    let r = respond(&Variant::Static, "/test.xml", None);
    assert_eq!(r.content_type.as_deref(), Some("text/xml"));
    assert!(r.body.starts_with(b"<?xml"));
    let r = respond(&Variant::Static, "/test.blah2", None);
    assert_eq!(r.status, 200);
    assert_eq!(r.body, b"Hello");
    let r = respond(&Variant::Static, "/test.txt", None);
    assert_eq!(r.content_type.as_deref(), Some("text/plain"));
    assert_eq!(r.body, b"Hello World!");
}

#[test]
fn same_request_same_response() {
    let v = dynamic();
    for (path, query) in [
        ("/dl/a", Some("ty=png&ct=image%2Fpng&cd=attachment")),
        ("/dl/a", Some("ty=png&ct=none")),
        ("/", None),
        ("/nowhere", None),
    ] {
        assert_eq!(respond(&v, path, query), respond(&v, path, query));
    }
    assert_eq!(
        respond(&Variant::Static, "/att/test.png", None),
        respond(&Variant::Static, "/att/test.png", None)
    );
}

#[test]
fn parse_query_values() {
    let q = parse_query(Some("ty=c&ct=text%2Fx-csrc&cd=none")).unwrap();
    assert_eq!(q.file_type, "c");
    assert_eq!(q.content_type, "text/x-csrc");
    assert_eq!(q.content_disposition, "none");
    assert!(matches!(parse_query(None), Err(QueryError::MissingQuery)));
    assert_eq!(QueryError::ExtraParts.message(), "extra query parts");
}

#[test]
fn payload_table_needs_one_payload_per_kind() {
    assert!(PayloadTable::new(vec![vec![1u8]; 8]).is_none());
    assert!(PayloadTable::new(vec![vec![1u8]; 10]).is_none());
    let t = PayloadTable::new(vec![vec![7u8]; 9]).unwrap();
    assert_eq!(t.get(FileTypeKey::Avif), &vec![7u8]);
}

#[test]
fn file_type_names() {
    for key in FileTypeKey::all() {
        assert_eq!(FileTypeKey::from_name(key.name()), Some(key));
    }
    assert_eq!(FileTypeKey::from_name("PNG"), None);
    assert_eq!(FileTypeKey::from_name(""), None);
    assert_eq!(FileTypeKey::Webp.file_path(), "files/example.webp");
    assert_eq!(FileTypeKey::C.index(), 8);
}

#[test]
fn error_response_bodies() {
    let r = error_response(None, 599);
    assert_eq!(r.status, 599);
    assert_eq!(r.content_type.as_deref(), Some("text/plain; charset=UTF-8"));
    assert_eq!(r.content_disposition, None);
    assert!(r.body.is_empty());
    assert_error(&error_response(None, 503), 503, "Service Unavailable");
    assert_error(&error_response(None, 404), 404, "Not Found");
    assert_error(&error_response(Some("custom"), 599), 599, "custom");
}
