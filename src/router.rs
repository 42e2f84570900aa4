//! Routing: the index page, download requests, and the fixed pages of the
//! path-driven variant.

use vstd::prelude::*;
use vstd::string::{StrSliceExecFns, StringExecFns, StringSliceAdditionalSpecFns};
use crate::filetype::PayloadTable;
use crate::query::query_bytes;
use crate::response::{
    download_view, error_view, respond_to_download, error_response, Response, ResponseView,
    STATUS_NOT_FOUND, STATUS_OK,
};
use crate::query::parse_query_spec;

verus! {

/// The page served at `/`: links to the prebuilt cases and a form that builds
/// a download link from a kind, an extension and the two header values.
pub const INDEX_PAGE: &'static str = "<!doctype html><html>\n<head>\n<title>File type tests</title>\n<link rel=\"icon\" type=\"image/png\" href=\"data:;base64,iVBORw0KGgoAAAANSUhEUgAAABAAAAAQAQAAAAA3iMLMAAAAH0lEQVR4AWP8zwBCD9RB6IM8FP1Qh6I/zlD0rxGiEgClfRHhbGAkhQAAAABJRU5ErkJggg==\"/>\n</head>\n<body>\n<h1>File type tests</h1>\n<h2>Prebuilt</h2>\n<ul>\n<li>content-disposition: attachment\n    <ul>\n    <li>default content-type and extension\n        <ul>\n        <li><a href=\"https://mime.ty.ax/dl/test.pdf?ty=pdf&ct=application%2Fpdf&cd=attachment\">PDF</a></li>\n        <li><a href=\"https://mime.ty.ax/dl/test.xml?ty=xml&ct=text%2Fxml&cd=attachment\">XML</a></li>\n        <li><a href=\"https://mime.ty.ax/dl/test.svg?ty=svg&ct=image%2Fsvg%2Bxml&cd=attachment\">SVG</a></li>\n        <li><a href=\"https://mime.ty.ax/dl/test.webp?ty=webp&ct=image%2Fwebp&cd=attachment\">WebP</a></li>\n        <li><a href=\"https://mime.ty.ax/dl/test.avif?ty=webp&ct=image%2Favif&cd=attachment\">AVIF</a></li>\n        </ul>\n    </li>\n    <li><a href=\"https://mime.ty.ax/dl/test.pdf?ty=pdf&ct=application%2Foctet-stream&cd=attachment\">.pdf application/octet-stream</a></li>\n    <li><a href=\"https://mime.ty.ax/dl/test.svg?ty=svg&ct=application%2Foctet-stream&cd=attachment\">.svg application/octet-stream</a></li>\n    <li><a href=\"https://mime.ty.ax/dl/test.bin?ty=webp&ct=image%2Fwebp&cd=attachment\">.bin WebP</a></li>\n    </ul>\n</li>\n</ul>\n<hr>\n<h2>Custom</h2>\n<form id=\"form\">\n<p>\n<label for=\"file-type\">File Type</label><br>\n<select id=\"file-type\" size=9>\n  <option value=\"html\">HTML</option>\n  <option value=\"txt\">TXT</option>\n  <option value=\"png\">PNG</option>\n  <option value=\"pdf\" selected>PDF</option>\n  <option value=\"svg\">SVG</option>\n  <option value=\"xml\">XML</option>\n  <option value=\"webp\">WebP</option>\n  <option value=\"avif\">AVIF</option>\n  <option value=\"c\">C source</option>\n</select>\n</p>\n\n<p>\n<label for=\"extension\">File Extension<label><br>\n<select id=\"extension\" size=5>\n  <option value=\"by-type\" id=\"extension-by-type-option\" selected></option>\n  <option value=\".bin\">.bin</option>\n  <option value=\".png\">.png</option>\n  <option value=\".txt\">.txt</option>\n  <option value=\"\">&lt;none&gt;</option>\n</select>\n</p>\n\n<p>\n<label for=\"content-type\">content-type</label><br>\n<select id=\"content-type\" size=7>\n  <option value=\"by-type\" id=\"content-type-by-type-option\" selected></option>\n  <option value=\"none\">&lt;none&gt;</option>\n  <option value=\"application/octet-stream\">application/octet-stream</option>\n  <option value=\"application/xml\">application/xml</option>\n  <option value=\"text/plain\">text/plain</option>\n  <option value=\"text/x-c\">text/x-c</option>\n  <option value=\"text/x-csrc\">text/x-csrc</option>\n</select>\n</p>\n\n<p>\n<label for=\"content-disposition\">content-disposition</label><br>\n<select id=\"content-disposition\" size=3>\n  <option value=\"none\">&lt;none&gt;</option>\n  <option value=\"attachment\" selected>attachment</option>\n  <option value=\"attachment-name\" id=\"attachment-name-option\"></option>\n</select>\n</form>\n</p>\n\n<a id=\"file-link\" href=\"about:blank\"></a>\n\n<script>\n\"use strict\";\n\nlet form = document.getElementById(\"form\");\nlet allInputs = [\"file-type\",    \"extension\",    \"content-type\",   \"content-disposition\"].map(\n     n => document.getElementById(n));\nlet [fileTypeInput, extensionInput, contentTypeInput, contentDispositionInput] = allInputs;\nlet extensionByTypeOption = document.getElementById(\"extension-by-type-option\");\nlet contentTypeByTypeOption = document.getElementById(\"content-type-by-type-option\");\nlet attachmentNameOption = document.getElementById(\"attachment-name-option\");\nlet fileLink = document.getElementById(\"file-link\");\n\nlet kv = function(key, keyArray, valArray) {\n    let idx = keyArray.indexOf(key);\n    if (keyArray.length !== valArray.length) {\n        throw new Error(\"array size mismatch\");\n    }\n    if (idx == -1) {\n        throw new Error(key + \" not found\");\n    }\n    return valArray[idx];\n};\n\nlet types = [\n    {\n        key: \"html\",\n        ext: \".html\",\n        ct: \"text/html\",\n    },\n    {\n        key: \"txt\",\n        ext: \".txt\",\n        ct: \"text/plain\",\n    },\n    {\n        key: \"png\",\n        ext: \".png\",\n        ct: \"image/png\",\n    },\n    {\n        key: \"pdf\",\n        ext: \".pdf\",\n        ct: \"application/pdf\",\n    },\n    {\n        key: \"svg\",\n        ext: \".svg\",\n        ct: \"image/svg+xml\",\n    },\n    {\n        key: \"xml\",\n        ext: \".xml\",\n        ct: \"text/xml\",\n    },\n    {\n        key: \"webp\",\n        ext: \".webp\",\n        ct: \"image/webp\",\n    },\n    {\n        key: \"avif\",\n        ext: \".avif\",\n        ct: \"image/avif\",\n    },\n    {\n        key: \"c\",\n        ext: \".c\",\n        ct: \"text/x-c\",\n    },\n];\n\nlet typeKeys = [];\nlet extensions = [];\nlet contentTypes = [];\nfor (const {key, ext, ct} of types) {\n    typeKeys.push(key);\n    extensions.push(ext);\n    contentTypes.push(ct);\n}\n\nextensions.forType = ty => kv(ty, typeKeys, extensions);\ncontentTypes.forType = ty => kv(ty, typeKeys, contentTypes);\n\nlet handleChange = function() {\n    let fileType = fileTypeInput.value;\n    let defaultExtension = extensions.forType(fileType);\n    let extension = extensionInput.value;\n    let defaultContentType = contentTypes.forType(fileType);\n    let contentType = contentTypeInput.value;\n    if (extension === \"by-type\") {\n        extension = defaultExtension;\n    }\n    if (contentType === \"by-type\") {\n        contentType = defaultContentType;\n    }\n    let fileName = `test${extension}`;\n    let attachmentNameStr = `attachment; filename=\"${fileName}\"`;\n\n    let contentDisposition = contentDispositionInput.value;\n    if (contentDisposition === \"attachment-name\") {\n        contentDisposition = attachmentNameStr;\n        fileName = `shouldBeIgnored`;\n    }\n\n    extensionByTypeOption.textContent = `by type (${defaultExtension})`;\n    contentTypeByTypeOption.textContent = `by type (${defaultContentType})`;\n    attachmentNameOption.textContent = attachmentNameStr;\n\n    let link = `/dl/${fileName}?ty=${encodeURIComponent(fileType)}&ct=${encodeURIComponent(contentType)}&cd=${encodeURIComponent(contentDisposition)}`;\n\n    fileLink.href = link;\n    fileLink.textContent = link;\n};\nallInputs.map(el => el.addEventListener('change', handleChange));\n\nhandleChange();\n\n</script>";

/// A page of the path-driven variant, chosen by how the path ends.
#[derive(Clone, Copy, Debug, PartialEq, Eq, Structural)]
pub enum StaticPage {
    Html,
    Txt,
    Png,
    Xml,
    Blah2,
}

impl StaticPage {
    /// The ending of the paths that serve this page.
    pub open spec fn suffix_spec(self) -> &'static str {
        match self {
            StaticPage::Html => "/test.html",
            StaticPage::Txt => "/test.txt",
            StaticPage::Png => "/test.png",
            StaticPage::Xml => "/test.xml",
            StaticPage::Blah2 => "/test.blah2",
        }
    }

    /// The `Content-Type` that the page is sent with, unless the path asks
    /// for none.
    pub open spec fn content_type_spec(self) -> &'static str {
        match self {
            StaticPage::Html => "text/html",
            StaticPage::Txt => "text/plain",
            StaticPage::Png => "image/png",
            StaticPage::Xml => "text/xml",
            StaticPage::Blah2 => "text/plain",
        }
    }

    pub open spec fn body_spec(self) -> &'static str {
        match self {
            StaticPage::Html => "Hello",
            StaticPage::Txt => "Hello World!",
            StaticPage::Png => "Hello World!",
            StaticPage::Xml => "<?xml version=\"1.0\" encoding=\"UTF-8\"?>\n<hello>World</hello>\n",
            StaticPage::Blah2 => "Hello",
        }
    }

    pub fn suffix(&self) -> (r: &'static str)
        ensures
            r == self.suffix_spec(),
    {
        match self {
            StaticPage::Html => "/test.html",
            StaticPage::Txt => "/test.txt",
            StaticPage::Png => "/test.png",
            StaticPage::Xml => "/test.xml",
            StaticPage::Blah2 => "/test.blah2",
        }
    }

    pub fn content_type(&self) -> (r: &'static str)
        ensures
            r == self.content_type_spec(),
    {
        match self {
            StaticPage::Html => "text/html",
            StaticPage::Txt => "text/plain",
            StaticPage::Png => "image/png",
            StaticPage::Xml => "text/xml",
            StaticPage::Blah2 => "text/plain",
        }
    }

    pub fn body(&self) -> (r: &'static str)
        ensures
            r == self.body_spec(),
    {
        match self {
            StaticPage::Html => "Hello",
            StaticPage::Txt => "Hello World!",
            StaticPage::Png => "Hello World!",
            StaticPage::Xml => "<?xml version=\"1.0\" encoding=\"UTF-8\"?>\n<hello>World</hello>\n",
            StaticPage::Blah2 => "Hello",
        }
    }
}

/// The pages in the order in which paths are matched against them.
pub open spec fn static_pages() -> Seq<StaticPage> {
    seq![StaticPage::Html, StaticPage::Txt, StaticPage::Png, StaticPage::Xml, StaticPage::Blah2]
}

pub fn all_static_pages() -> (r: Vec<StaticPage>)
    ensures
        r@ == static_pages(),
{
    let r = vec![StaticPage::Html, StaticPage::Txt, StaticPage::Png, StaticPage::Xml, StaticPage::Blah2];
    assert(r@ =~= static_pages());
    r
}

pub open spec fn is_prefix(p: Seq<u8>, s: Seq<u8>) -> bool {
    p.len() <= s.len() && s.take(p.len() as int) == p
}

pub open spec fn is_suffix(p: Seq<u8>, s: Seq<u8>) -> bool {
    p.len() <= s.len() && s.skip(s.len() - p.len()) == p
}

/// The first page, from `pages` on, whose ending ends `path`.
pub open spec fn first_page(pages: Seq<StaticPage>, path: Seq<u8>) -> Option<StaticPage>
    decreases pages.len(),
{
    if pages.len() == 0 {
        None
    } else if is_suffix(pages[0].suffix_spec().spec_bytes(), path) {
        Some(pages[0])
    } else {
        first_page(pages.drop_first(), path)
    }
}

/// The page found for a path ends it.
pub proof fn lemma_first_page_matches(pages: Seq<StaticPage>, path: Seq<u8>)
    requires
        first_page(pages, path) is Some,
    ensures
        is_suffix(first_page(pages, path).unwrap().suffix_spec().spec_bytes(), path),
    decreases pages.len(),
{
    if !is_suffix(pages[0].suffix_spec().spec_bytes(), path) {
        lemma_first_page_matches(pages.drop_first(), path);
    }
}

/// `/`
pub open spec fn root_path() -> Seq<u8> {
    seq![47u8]
}

/// `/dl/`
pub open spec fn download_prefix() -> Seq<u8> {
    seq![47u8, 100u8, 108u8, 47u8]
}

/// `/att/`
pub open spec fn attachment_prefix() -> Seq<u8> {
    seq![47u8, 97u8, 116u8, 116u8, 47u8]
}

/// `/nomime`
pub open spec fn no_mime_dir() -> Seq<u8> {
    seq![47u8, 110u8, 111u8, 109u8, 105u8, 109u8, 101u8]
}

/// The response of the path-driven variant: a page chosen by the path's
/// ending, sent as an attachment under `/att/` and without a type when the
/// page's ending follows `/nomime`.
pub open spec fn static_view(path: Seq<u8>) -> ResponseView {
    match first_page(static_pages(), path) {
        None => error_view(None, STATUS_NOT_FOUND),
        Some(page) => {
            let before = path.take(path.len() - page.suffix_spec().spec_bytes().len());
            ResponseView {
                status: STATUS_OK,
                content_type: if is_suffix(no_mime_dir(), before) {
                    None
                } else {
                    Some(page.content_type_spec()@)
                },
                content_disposition: if is_prefix(attachment_prefix(), path) {
                    Some("attachment"@)
                } else {
                    None
                },
                body: page.body_spec().spec_bytes(),
            }
        },
    }
}

pub open spec fn index_view() -> ResponseView {
    ResponseView {
        status: STATUS_OK,
        content_type: Some("text/html; charset=UTF-8"@),
        content_disposition: None,
        body: INDEX_PAGE.spec_bytes(),
    }
}

/// Which of the two fixtures a server runs.
pub enum Variant {
    /// Headers and payload chosen by the query of `/dl/` requests.
    Dynamic(PayloadTable),
    /// Headers and body fixed by the path.
    Static,
}

/// The response of a server running `variant` to a request for `path` with
/// the query string `query`.
pub open spec fn response_for(variant: Variant, path: Seq<u8>, query: Option<Seq<u8>>) -> ResponseView {
    if path == root_path() {
        index_view()
    } else {
        match variant {
            Variant::Dynamic(table) => if is_prefix(download_prefix(), path) {
                download_view(table@, parse_query_spec(query))
            } else {
                error_view(None, STATUS_NOT_FOUND)
            },
            Variant::Static => static_view(path),
        }
    }
}

/// Whether `p` is a prefix of `s`.
pub fn starts_with(s: &[u8], p: &[u8]) -> (r: bool)
    ensures
        r == is_prefix(p@, s@),
{
    if p.len() > s.len() {
        return false;
    }
    let mut i: usize = 0;
    while i < p.len()
        invariant
            p@.len() <= s@.len(),
            i <= p@.len(),
            forall|j: int| 0 <= j < i ==> s@[j] == p@[j],
        decreases p@.len() - i,
    {
        if s[i] != p[i] {
            assert(s@.take(p@.len() as int)[i as int] != p@[i as int]);
            return false;
        }
        i = i + 1;
    }
    assert(s@.take(p@.len() as int) =~= p@);
    true
}

/// Whether `p` is a suffix of `s[..hi]`.
pub fn ends_with(s: &[u8], hi: usize, p: &[u8]) -> (r: bool)
    requires
        hi <= s@.len(),
    ensures
        r == is_suffix(p@, s@.take(hi as int)),
{
    let ghost t = s@.take(hi as int);
    if p.len() > hi {
        return false;
    }
    let off = hi - p.len();
    let mut i: usize = 0;
    while i < p.len()
        invariant
            t == s@.take(hi as int),
            hi <= s@.len(),
            off + p@.len() == hi,
            i <= p@.len(),
            forall|j: int| 0 <= j < i ==> s@[off + j] == p@[j],
        decreases p@.len() - i,
    {
        if s[off + i] != p[i] {
            assert(t.skip(off as int)[i as int] != p@[i as int]);
            return false;
        }
        i = i + 1;
    }
    assert(t.skip(off as int) =~= p@);
    true
}

/// The first page whose ending ends `path`.
pub fn match_static_page(path: &[u8]) -> (r: Option<StaticPage>)
    ensures
        r == first_page(static_pages(), path@),
{
    let pages = all_static_pages();
    let mut i: usize = 0;
    assert(pages@.skip(0) =~= pages@);
    while i < pages.len()
        invariant
            pages@ == static_pages(),
            i <= pages@.len(),
            first_page(static_pages(), path@) == first_page(pages@.skip(i as int), path@),
        decreases pages@.len() - i,
    {
        let page = pages[i];
        assert(pages@.skip(i as int)[0] == page);
        assert(pages@.skip(i as int).drop_first() =~= pages@.skip(i + 1));
        assert(path@.take(path@.len() as int) =~= path@);
        if ends_with(path, path.len(), page.suffix().as_bytes()) {
            return Some(page);
        }
        i = i + 1;
    }
    None
}

/// The response of the path-driven variant to a request for `path`.
pub fn respond_static(path: &[u8]) -> (r: Response)
    ensures
        r@ == static_view(path@),
{
    match match_static_page(path) {
        None => error_response(None, STATUS_NOT_FOUND),
        Some(page) => {
            let suffix = page.suffix().as_bytes();
            proof {
                lemma_first_page_matches(static_pages(), path@);
            }
            let before = path.len() - suffix.len();
            proof {
                assert(path@.take(before as int).take(before as int) =~= path@.take(before as int));
            }
            let no_mime = ends_with(path, before, &[47u8, 110u8, 111u8, 109u8, 105u8, 109u8, 101u8]);
            let content_type = if no_mime {
                None
            } else {
                Some(String::from_str(page.content_type()))
            };
            let content_disposition = if starts_with(path, &[47u8, 97u8, 116u8, 116u8, 47u8]) {
                Some(String::from_str("attachment"))
            } else {
                None
            };
            Response {
                status: STATUS_OK,
                content_type,
                content_disposition,
                body: page.body().as_bytes_vec(),
            }
        },
    }
}

/// The response of a server running `variant` to a request for `path` with
/// the query string `query`.
pub fn respond(variant: &Variant, path: &str, query: Option<&str>) -> (r: Response)
    ensures
        r@ == response_for(*variant, path.spec_bytes(), query_bytes(query)),
{
    let p = path.as_bytes();
    if p.len() == 1 && p[0] == 47 {
        assert(p@ =~= root_path());
        return Response {
            status: STATUS_OK,
            content_type: Some(String::from_str("text/html; charset=UTF-8")),
            content_disposition: None,
            body: INDEX_PAGE.as_bytes_vec(),
        };
    }
    proof {
        if p@ == root_path() {
            assert(p@[0] == 47);
        }
    }
    match variant {
        Variant::Dynamic(table) => {
            if starts_with(p, &[47u8, 100u8, 108u8, 47u8]) {
                respond_to_download(table, query)
            } else {
                error_response(None, STATUS_NOT_FOUND)
            }
        },
        Variant::Static => respond_static(p),
    }
}

} // verus!
