//! Responses, and how a download request's values become one.

use vstd::prelude::*;
use vstd::string::{StrSliceExecFns, StringExecFns, StringSliceAdditionalSpecFns};
use vstd::utf8::encode_utf8;
use crate::filetype::{key_named, FileTypeKey, PayloadTable};
use crate::query::{parse_query, parse_query_spec, query_bytes, Query, QueryError, QueryView};

verus! {

pub const STATUS_OK: u16 = 200;

pub const STATUS_BAD_REQUEST: u16 = 400;

pub const STATUS_NOT_FOUND: u16 = 404;

pub const STATUS_SERVER_ERROR: u16 = 500;

/// A response as it goes on the wire: a status, the two headers under test
/// (absent when `None`), and the body.
#[derive(Clone, Debug, PartialEq, Eq)]
pub struct Response {
    pub status: u16,
    pub content_type: Option<String>,
    pub content_disposition: Option<String>,
    pub body: Vec<u8>,
}

pub struct ResponseView {
    pub status: u16,
    pub content_type: Option<Seq<char>>,
    pub content_disposition: Option<Seq<char>>,
    pub body: Seq<u8>,
}

pub open spec fn text_view(s: Option<String>) -> Option<Seq<char>> {
    match s {
        Some(t) => Some(t@),
        None => None,
    }
}

impl View for Response {
    type V = ResponseView;

    open spec fn view(&self) -> ResponseView {
        ResponseView {
            status: self.status,
            content_type: text_view(self.content_type),
            content_disposition: text_view(self.content_disposition),
            body: self.body@,
        }
    }
}

/// The canonical reason phrase of a status, if it has one.
pub uninterp spec fn canonical_reason_of(status: u16) -> Option<Seq<char>>;

pub open spec fn str_view(s: Option<&'static str>) -> Option<Seq<char>> {
    match s {
        Some(t) => Some(t@),
        None => None,
    }
}

/// Whether every byte may stand in a header value: visible ASCII, tab, or a
/// byte of 128 and above.
pub open spec fn valid_header_value(b: Seq<u8>) -> bool {
    forall|i: int| 0 <= i < b.len() ==> ((#[trigger] b[i] >= 32 && b[i] != 127) || b[i] == 9)
}

/// Relies on http's StatusCode::from_u16 and StatusCode::canonical_reason
/// (through hyper): the canonical reason phrase of a status, which depends on
/// the status alone.
#[verifier::external_body]
fn canonical_reason(status: u16) -> (r: Option<&'static str>)
    requires
        100 <= status < 1000,
    ensures
        str_view(r) == canonical_reason_of(status),
        status == STATUS_NOT_FOUND ==> r == Some("Not Found"),
        status == STATUS_SERVER_ERROR ==> r == Some("Internal Server Error"),
{
    match hyper::StatusCode::from_u16(status) {
        Ok(code) => code.canonical_reason(),
        Err(_) => None,
    }
}

/// Relies on http's HeaderValue::from_str (through hyper): a value is
/// accepted exactly when each of its bytes is visible ASCII, a tab, or at
/// least 128.
#[verifier::external_body]
fn header_value_accepted(v: &str) -> (r: bool)
    ensures
        r == valid_header_value(v.spec_bytes()),
{
    hyper::header::HeaderValue::from_str(v).is_ok()
}

/// The plain-text error response with `message`, or with the status's
/// canonical reason phrase when there is none (empty when the status has no
/// phrase).
pub open spec fn error_view(message: Option<&'static str>, status: u16) -> ResponseView {
    ResponseView {
        status,
        content_type: Some("text/plain; charset=UTF-8"@),
        content_disposition: None,
        body: match message {
            Some(m) => m.spec_bytes(),
            None => match canonical_reason_of(status) {
                Some(t) => encode_utf8(t),
                None => Seq::empty(),
            },
        },
    }
}

pub fn error_response(message: Option<&'static str>, status: u16) -> (r: Response)
    requires
        100 <= status < 1000,
    ensures
        r@ == error_view(message, status),
{
    let body = match message {
        Some(m) => m.as_bytes_vec(),
        None => match canonical_reason(status) {
            Some(reason) => reason.as_bytes_vec(),
            None => Vec::new(),
        },
    };
    Response {
        status,
        content_type: Some(String::from_str("text/plain; charset=UTF-8")),
        content_disposition: None,
        body,
    }
}

/// `none` asks for a header to be left out.
pub open spec fn header_directive(v: Seq<char>) -> Option<Seq<char>> {
    if v == "none"@ {
        None
    } else {
        Some(v)
    }
}

/// Whether the response builder accepts a header directive.
pub open spec fn directive_accepted(d: Option<Seq<char>>) -> bool {
    match d {
        None => true,
        Some(v) => valid_header_value(encode_utf8(v)),
    }
}

/// The response to a download request whose query read as `q`, served from
/// the payloads `table`.
pub open spec fn download_view(table: Seq<Seq<u8>>, q: Result<QueryView, QueryError>) -> ResponseView {
    match q {
        Err(e) => error_view(Some(e.text()), STATUS_BAD_REQUEST),
        Ok(v) => match key_named(v.0) {
            None => error_view(Some("Bad file type"), STATUS_BAD_REQUEST),
            Some(k) => {
                let ct = header_directive(v.1);
                let cd = header_directive(v.2);
                if !directive_accepted(ct) || !directive_accepted(cd) {
                    error_view(None, STATUS_SERVER_ERROR)
                } else {
                    ResponseView {
                        status: STATUS_OK,
                        content_type: ct,
                        content_disposition: cd,
                        body: table[k.index_spec()],
                    }
                }
            },
        },
    }
}

/// The header that a directive value asks for, with whether the response
/// builder accepts it.
fn directive(v: String) -> (r: (Option<String>, bool))
    ensures
        text_view(r.0) == header_directive(v@),
        r.1 == directive_accepted(header_directive(v@)),
{
    if v == String::from_str("none") {
        (None, true)
    } else {
        let ok = header_value_accepted(v.as_str());
        (Some(v), ok)
    }
}

/// The response to a download request with the values `q`.
pub fn respond_to_query(table: &PayloadTable, q: Query) -> (r: Response)
    ensures
        r@ == download_view(table@, Ok(q@)),
{
    let ghost qv = q@;
    let key = match FileTypeKey::from_name(q.file_type.as_str()) {
        None => return error_response(Some("Bad file type"), STATUS_BAD_REQUEST),
        Some(k) => k,
    };
    let (ct, ct_ok) = directive(q.content_type);
    let (cd, cd_ok) = directive(q.content_disposition);
    if !ct_ok || !cd_ok {
        return error_response(None, STATUS_SERVER_ERROR);
    }
    let body = table.get(key).clone();
    Response { status: STATUS_OK, content_type: ct, content_disposition: cd, body }
}

/// The response to a download request with the query string `query`.
pub fn respond_to_download(table: &PayloadTable, query: Option<&str>) -> (r: Response)
    ensures
        r@ == download_view(table@, parse_query_spec(query_bytes(query))),
{
    match parse_query(query) {
        Err(e) => error_response(Some(e.message()), STATUS_BAD_REQUEST),
        Ok(q) => respond_to_query(table, q),
    }
}

} // verus!
