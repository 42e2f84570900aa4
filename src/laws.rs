//! What holds of every request.

use vstd::prelude::*;
use crate::filetype::{key_named, FileTypeKey, PayloadTable};
use crate::query::{
    collect_pairs, decoded_value, has_all_keys, has_extra_key, parse_component, parse_query_spec,
    QueryError, QueryView,
};
use crate::response::{
    error_view, Response, ResponseView, STATUS_BAD_REQUEST, STATUS_OK,
};
use crate::router::{download_prefix, is_prefix, response_for, root_path, Variant};
use crate::query::{key_cd, key_ct, key_ty, percent_decoded, well_escaped};
use crate::split::{lacks_byte, lemma_split_first, lemma_split_single, split_on};
use vstd::string::StringSliceAdditionalSpecFns;
use vstd::utf8::{encode_utf8, encode_utf8_decode_utf8, encode_utf8_valid_utf8, is_ascii_chars, is_ascii_chars_encode_utf8};

verus! {

/// A download request lies under `/dl/`, so it is not the index.
proof fn lemma_download_path_not_root(path: Seq<u8>)
    requires
        is_prefix(download_prefix(), path),
    ensures
        path != root_path(),
{
    assert(path.len() >= 4);
}

/// A download whose query names a kind and gives `none` for both headers is
/// answered with 200, neither header, and exactly the bytes loaded for that
/// kind.
pub proof fn lemma_plain_download_parsed(
    table: PayloadTable,
    key: FileTypeKey,
    path: Seq<u8>,
    query: Option<Seq<u8>>,
)
    requires
        is_prefix(download_prefix(), path),
        parse_query_spec(query) == Ok::<QueryView, QueryError>(
            (key.name_spec()@, "none"@, "none"@),
        ),
    ensures
        response_for(Variant::Dynamic(table), path, query) == (ResponseView {
            status: STATUS_OK,
            content_type: None,
            content_disposition: None,
            body: table@[key.index_spec()],
        }),
{
    lemma_download_path_not_root(path);
    reveal_strlit("html");
    reveal_strlit("txt");
    reveal_strlit("png");
    reveal_strlit("pdf");
    reveal_strlit("svg");
    reveal_strlit("xml");
    reveal_strlit("webp");
    reveal_strlit("avif");
    reveal_strlit("c");
    let names: Seq<Seq<char>> = seq![
        "html"@,
        "txt"@,
        "png"@,
        "pdf"@,
        "svg"@,
        "xml"@,
        "webp"@,
        "avif"@,
        "c"@,
    ];
    assert forall|a: int, b: int| 0 <= a < b < 9 implies #[trigger] names[a] != #[trigger] names[b] by {
        if names[a].len() == names[b].len() {
            assert(names[a][0] != names[b][0] || names[a][1] != names[b][1]);
        }
    }
    assert(names[key.index_spec()] == key.name_spec()@);
    assert(key_named(key.name_spec()@) == Some(key));
}

/// A download whose components are well formed but lack one of `ty`, `ct`,
/// `cd` is refused with 400 and "missing query part".
pub proof fn lemma_missing_part(table: PayloadTable, path: Seq<u8>, query: Seq<u8>)
    requires
        is_prefix(download_prefix(), path),
        collect_pairs(split_on(query, 38)) is Ok,
        !has_all_keys(collect_pairs(split_on(query, 38))->Ok_0),
    ensures
        response_for(Variant::Dynamic(table), path, Some(query)) == error_view(
            Some("missing query part"),
            STATUS_BAD_REQUEST,
        ),
{
    lemma_download_path_not_root(path);
}

/// A download whose components are well formed and hold `ty`, `ct`, `cd` and
/// any other key is refused with 400 and "extra query parts".
pub proof fn lemma_extra_parts(table: PayloadTable, path: Seq<u8>, query: Seq<u8>)
    requires
        is_prefix(download_prefix(), path),
        collect_pairs(split_on(query, 38)) is Ok,
        has_all_keys(collect_pairs(split_on(query, 38))->Ok_0),
        has_extra_key(collect_pairs(split_on(query, 38))->Ok_0),
    ensures
        response_for(Variant::Dynamic(table), path, Some(query)) == error_view(
            Some("extra query parts"),
            STATUS_BAD_REQUEST,
        ),
{
    lemma_download_path_not_root(path);
}

/// Components that each hold one `=` either all decode, or fail to decode;
/// and they fail when any value fails.
proof fn lemma_decode_failure(comps: Seq<Seq<u8>>)
    requires
        forall|i: int| 0 <= i < comps.len() ==> (#[trigger] split_on(comps[i], 61)).len() == 2,
    ensures
        collect_pairs(comps) is Ok || collect_pairs(comps) == Err::<
            Map<Seq<u8>, Seq<char>>,
            QueryError,
        >(QueryError::DecodeFailed),
        (exists|i: int|
            0 <= i < comps.len() && (#[trigger] decoded_value(split_on(comps[i], 61)[1])) is None)
            ==> collect_pairs(comps) == Err::<Map<Seq<u8>, Seq<char>>, QueryError>(
            QueryError::DecodeFailed,
        ),
    decreases comps.len(),
{
    if comps.len() > 0 {
        let init = comps.drop_last();
        assert forall|i: int| 0 <= i < init.len() implies (#[trigger] split_on(init[i], 61)).len()
            == 2 by {
            assert(init[i] == comps[i]);
        }
        lemma_decode_failure(init);
        let last = comps.last();
        assert(split_on(comps[comps.len() - 1], 61).len() == 2);
        if exists|i: int|
            0 <= i < comps.len() && (#[trigger] decoded_value(split_on(comps[i], 61)[1])) is None {
            let i = choose|i: int|
                0 <= i < comps.len() && (#[trigger] decoded_value(split_on(comps[i], 61)[1])) is None;
            if i < comps.len() - 1 {
                assert(init[i] == comps[i]);
                assert(decoded_value(split_on(init[i], 61)[1]) is None);
            } else {
                assert(parse_component(last) == Err::<(Seq<u8>, Seq<char>), QueryError>(
                    QueryError::DecodeFailed,
                ));
            }
        }
    }
}

/// A download whose components each hold one `=`, one of whose values is
/// badly percent-encoded or not UTF-8, is refused with 400 and "decode
/// failed".
pub proof fn lemma_decode_failed(table: PayloadTable, path: Seq<u8>, query: Seq<u8>, i: int)
    requires
        is_prefix(download_prefix(), path),
        forall|j: int|
            0 <= j < split_on(query, 38).len() ==> (#[trigger] split_on(
                split_on(query, 38)[j],
                61,
            )).len() == 2,
        0 <= i < split_on(query, 38).len(),
        decoded_value(split_on(split_on(query, 38)[i], 61)[1]) is None,
    ensures
        response_for(Variant::Dynamic(table), path, Some(query)) == error_view(
            Some("decode failed"),
            STATUS_BAD_REQUEST,
        ),
{
    lemma_download_path_not_root(path);
    lemma_decode_failure(split_on(query, 38));
}

/// A download whose query reads well but names no known kind is refused with
/// 400 and "Bad file type".
pub proof fn lemma_bad_file_type(table: PayloadTable, path: Seq<u8>, query: Option<Seq<u8>>)
    requires
        is_prefix(download_prefix(), path),
        parse_query_spec(query) is Ok,
        key_named((parse_query_spec(query)->Ok_0).0) is None,
    ensures
        response_for(Variant::Dynamic(table), path, query) == error_view(
            Some("Bad file type"),
            STATUS_BAD_REQUEST,
        ),
{
    lemma_download_path_not_root(path);
}

/// The same request, made twice, is answered with the same response: the
/// response depends on the variant, the path and the query alone.
pub proof fn lemma_same_request_same_response(
    variant: Variant,
    path: Seq<u8>,
    query: Option<Seq<u8>>,
    first: Response,
    second: Response,
)
    requires
        first@ == response_for(variant, path, query),
        second@ == response_for(variant, path, query),
    ensures
        first@ == second@,
{
}

/// Bytes without `%` decode to themselves.
proof fn lemma_no_escape_decodes_to_itself(b: Seq<u8>)
    requires
        lacks_byte(b, 37),
    ensures
        percent_decoded(b) == b,
        well_escaped(b),
    decreases b.len(),
{
    if b.len() > 0 {
        assert(b[0] != 37);
        lemma_no_escape_decodes_to_itself(b.skip(1));
        assert(seq![b[0]] + b.skip(1) =~= b);
    }
}

/// The bytes of ASCII text without `%` are a value that decodes to the text.
proof fn lemma_plain_value(t: Seq<char>)
    requires
        is_ascii_chars(t),
        forall|i: int| 0 <= i < t.len() ==> t[i] != '%',
    ensures
        decoded_value(encode_utf8(t)) == Some(t),
{
    is_ascii_chars_encode_utf8(t);
    let b = encode_utf8(t);
    assert forall|k: int| 0 <= k < b.len() implies b[k] != 37 by {
        assert(t[k] as u8 == b[k]);
    }
    lemma_no_escape_decodes_to_itself(b);
    encode_utf8_valid_utf8(t);
    encode_utf8_decode_utf8(t);
}

/// `ty=`
pub open spec fn ty_eq() -> Seq<u8> {
    seq![116u8, 121u8, 61u8]
}

/// `none`
pub open spec fn none_bytes() -> Seq<u8> {
    seq![110u8, 111u8, 110u8, 101u8]
}

/// The query `ty=<name>&ct=none&cd=none`.
pub open spec fn plain_query(key: FileTypeKey) -> Seq<u8> {
    ty_eq() + key.name_spec().spec_bytes() + seq![38u8] + key_ct() + seq![61u8] + none_bytes()
        + seq![38u8] + key_cd() + seq![61u8] + none_bytes()
}

/// A download with the query `ty=<name>&ct=none&cd=none`, for any kind, is
/// answered with 200, neither header, and exactly the bytes loaded for that
/// kind.
pub proof fn lemma_plain_download(table: PayloadTable, key: FileTypeKey, path: Seq<u8>)
    requires
        is_prefix(download_prefix(), path),
    ensures
        response_for(Variant::Dynamic(table), path, Some(plain_query(key))) == (ResponseView {
            status: STATUS_OK,
            content_type: None,
            content_disposition: None,
            body: table@[key.index_spec()],
        }),
{
    reveal_strlit("html");
    reveal_strlit("txt");
    reveal_strlit("png");
    reveal_strlit("pdf");
    reveal_strlit("svg");
    reveal_strlit("xml");
    reveal_strlit("webp");
    reveal_strlit("avif");
    reveal_strlit("c");
    reveal_strlit("none");
    let name = key.name_spec()@;
    assert(is_ascii_chars(name));
    assert(forall|i: int| 0 <= i < name.len() ==> name[i] != '%' && name[i] != '&' && name[i] != '=');
    assert(is_ascii_chars("none"@));
    assert("none"@ =~= seq!['n', 'o', 'n', 'e']);
    lemma_plain_value(name);
    lemma_plain_value("none"@);
    is_ascii_chars_encode_utf8(name);
    is_ascii_chars_encode_utf8("none"@);
    let nb = key.name_spec().spec_bytes();
    assert(nb == encode_utf8(name));
    assert(none_bytes() =~= encode_utf8("none"@));
    assert forall|k: int| 0 <= k < nb.len() implies nb[k] != 38 && nb[k] != 61 by {
        assert(name[k] as u8 == nb[k]);
    }
    let first = ty_eq() + nb;
    let ct_part = key_ct() + seq![61u8] + none_bytes();
    let cd_part = key_cd() + seq![61u8] + none_bytes();
    assert(lacks_byte(first, 38));
    assert(lacks_byte(ct_part, 38));
    assert(lacks_byte(cd_part, 38));
    assert(plain_query(key) =~= first + seq![38u8] + (ct_part + seq![38u8] + cd_part));
    lemma_split_first(first, 38, ct_part + seq![38u8] + cd_part);
    lemma_split_first(ct_part, 38, cd_part);
    lemma_split_single(cd_part, 38);
    let comps = split_on(plain_query(key), 38);
    assert(comps =~= seq![first, ct_part, cd_part]);
    assert(first =~= key_ty() + seq![61u8] + nb);
    lemma_split_first(key_ty(), 61, nb);
    lemma_split_single(nb, 61);
    lemma_split_first(key_ct(), 61, none_bytes());
    lemma_split_first(key_cd(), 61, none_bytes());
    lemma_split_single(none_bytes(), 61);
    assert(split_on(first, 61) =~= seq![key_ty(), nb]);
    assert(split_on(ct_part, 61) =~= seq![key_ct(), none_bytes()]);
    assert(split_on(cd_part, 61) =~= seq![key_cd(), none_bytes()]);
    let m0 = Map::<Seq<u8>, Seq<char>>::empty();
    let m1 = m0.insert(key_ty(), name);
    let m2 = m1.insert(key_ct(), "none"@);
    let m3 = m2.insert(key_cd(), "none"@);
    assert(parse_component(first) == Ok::<(Seq<u8>, Seq<char>), QueryError>((key_ty(), name)));
    assert(parse_component(ct_part) == Ok::<(Seq<u8>, Seq<char>), QueryError>((key_ct(), "none"@)));
    assert(parse_component(cd_part) == Ok::<(Seq<u8>, Seq<char>), QueryError>((key_cd(), "none"@)));
    assert(comps.drop_last().drop_last() =~= seq![first]);
    assert(comps.drop_last() =~= seq![first, ct_part]);
    assert(seq![first].drop_last() =~= Seq::<Seq<u8>>::empty());
    assert(collect_pairs(Seq::<Seq<u8>>::empty()) == Ok::<Map<Seq<u8>, Seq<char>>, QueryError>(m0));
    assert(collect_pairs(comps.drop_last().drop_last()) == Ok::<Map<Seq<u8>, Seq<char>>, QueryError>(m1));
    assert(collect_pairs(comps.drop_last()) == Ok::<Map<Seq<u8>, Seq<char>>, QueryError>(m2));
    assert(collect_pairs(comps) == Ok::<Map<Seq<u8>, Seq<char>>, QueryError>(m3));
    assert(key_ty() != key_ct() && key_ty() != key_cd() && key_ct() != key_cd()) by {
        assert(key_ty()[0] != key_ct()[0]);
        assert(key_ty()[0] != key_cd()[0]);
        assert(key_ct()[1] != key_cd()[1]);
    }
    assert(has_all_keys(m3));
    assert(!has_extra_key(m3));
    assert(parse_query_spec(Some(plain_query(key))) == Ok::<QueryView, QueryError>(
        (name, "none"@, "none"@),
    ));
    lemma_plain_download_parsed(table, key, path, Some(plain_query(key)));
}

} // verus!
