//! The query grammar of a download request: exactly the keys `ty`, `ct` and
//! `cd`, each with a percent-encoded UTF-8 value.

use vstd::prelude::*;
use vstd::string::StringSliceAdditionalSpecFns;
use vstd::utf8::{decode_utf8, valid_utf8};
use crate::split::{split_on, split_ranges};

verus! {

/// Why a query string was refused.
#[derive(Clone, Copy, Debug, PartialEq, Eq, Structural)]
pub enum QueryError {
    /// The request has no query string at all.
    MissingQuery,
    /// A component does not hold exactly one `=`.
    Malformed,
    /// A value is badly percent-encoded or does not decode to UTF-8.
    DecodeFailed,
    /// One of `ty`, `ct`, `cd` is absent.
    MissingPart,
    /// A key other than `ty`, `ct`, `cd` is present.
    ExtraParts,
}

impl QueryError {
    /// The text sent back to the client for this error.
    pub open spec fn text(self) -> &'static str {
        match self {
            QueryError::MissingQuery => "missing query",
            QueryError::Malformed => "malformed query",
            QueryError::DecodeFailed => "decode failed",
            QueryError::MissingPart => "missing query part",
            QueryError::ExtraParts => "extra query parts",
        }
    }

    pub fn message(&self) -> (r: &'static str)
        ensures
            r == self.text(),
    {
        match self {
            QueryError::MissingQuery => "missing query",
            QueryError::Malformed => "malformed query",
            QueryError::DecodeFailed => "decode failed",
            QueryError::MissingPart => "missing query part",
            QueryError::ExtraParts => "extra query parts",
        }
    }
}

/// The three values of a download request, percent-decoded.
pub struct Query {
    /// Name of the payload to send (`ty`).
    pub file_type: String,
    /// Value of the `Content-Type` header, or `none` (`ct`).
    pub content_type: String,
    /// Value of the `Content-Disposition` header, or `none` (`cd`).
    pub content_disposition: String,
}

/// What a query holds: its three values, in the order `ty`, `ct`, `cd`.
pub type QueryView = (Seq<char>, Seq<char>, Seq<char>);

impl View for Query {
    type V = QueryView;

    open spec fn view(&self) -> QueryView {
        (self.file_type@, self.content_type@, self.content_disposition@)
    }
}

pub open spec fn is_hex(b: u8) -> bool {
    (48 <= b <= 57) || (65 <= b <= 70) || (97 <= b <= 102)
}

pub open spec fn hex_value(b: u8) -> int {
    if b <= 57 {
        b - 48
    } else if b <= 70 {
        b - 55
    } else {
        b - 87
    }
}

/// Percent-decoding: `%` and two hex digits give one byte; any other byte,
/// a lone `%` included, stands for itself.
pub open spec fn percent_decoded(b: Seq<u8>) -> Seq<u8>
    decreases b.len(),
{
    if b.len() == 0 {
        seq![]
    } else if b[0] == 37 && b.len() >= 3 && is_hex(b[1]) && is_hex(b[2]) {
        seq![(hex_value(b[1]) * 16 + hex_value(b[2])) as u8] + percent_decoded(b.skip(3))
    } else {
        seq![b[0]] + percent_decoded(b.skip(1))
    }
}

/// Every `%` in `v` starts an escape of two hex digits.
pub open spec fn well_escaped(v: Seq<u8>) -> bool {
    forall|i: int|
        0 <= i < v.len() && #[trigger] v[i] == 37 ==> i + 2 < v.len() && is_hex(v[i + 1])
            && is_hex(v[i + 2])
}

/// The text that a raw value stands for, when it is well escaped and decodes
/// to UTF-8.
pub open spec fn decoded_value(raw: Seq<u8>) -> Option<Seq<char>> {
    if well_escaped(raw) && valid_utf8(percent_decoded(raw)) {
        Some(decode_utf8(percent_decoded(raw)))
    } else {
        None
    }
}

/// One `key=value` component: the raw key and the decoded value.
pub open spec fn parse_component(c: Seq<u8>) -> Result<(Seq<u8>, Seq<char>), QueryError> {
    let parts = split_on(c, 61);
    if parts.len() != 2 {
        Err(QueryError::Malformed)
    } else {
        match decoded_value(parts[1]) {
            Some(v) => Ok((parts[0], v)),
            None => Err(QueryError::DecodeFailed),
        }
    }
}

/// The components read left to right into a map, a later key replacing an
/// earlier one; the first component in error decides the error.
pub open spec fn collect_pairs(comps: Seq<Seq<u8>>) -> Result<Map<Seq<u8>, Seq<char>>, QueryError>
    decreases comps.len(),
{
    if comps.len() == 0 {
        Ok(Map::empty())
    } else {
        match collect_pairs(comps.drop_last()) {
            Err(e) => Err(e),
            Ok(m) => match parse_component(comps.last()) {
                Err(e) => Err(e),
                Ok(kv) => Ok(m.insert(kv.0, kv.1)),
            },
        }
    }
}

pub open spec fn key_ty() -> Seq<u8> {
    seq![116u8, 121u8]
}

pub open spec fn key_ct() -> Seq<u8> {
    seq![99u8, 116u8]
}

pub open spec fn key_cd() -> Seq<u8> {
    seq![99u8, 100u8]
}

pub open spec fn is_known_key(k: Seq<u8>) -> bool {
    k == key_ty() || k == key_ct() || k == key_cd()
}

pub open spec fn has_all_keys(m: Map<Seq<u8>, Seq<char>>) -> bool {
    m.contains_key(key_ty()) && m.contains_key(key_ct()) && m.contains_key(key_cd())
}

pub open spec fn has_extra_key(m: Map<Seq<u8>, Seq<char>>) -> bool {
    exists|k: Seq<u8>| #[trigger] m.contains_key(k) && !is_known_key(k)
}

/// The result of parsing a query string (`None`: the request had none).
pub open spec fn parse_query_spec(q: Option<Seq<u8>>) -> Result<QueryView, QueryError> {
    match q {
        None => Err(QueryError::MissingQuery),
        Some(q) => match collect_pairs(split_on(q, 38)) {
            Err(e) => Err(e),
            Ok(m) => if !has_all_keys(m) {
                Err(QueryError::MissingPart)
            } else if has_extra_key(m) {
                Err(QueryError::ExtraParts)
            } else {
                Ok((m[key_ty()], m[key_ct()], m[key_cd()]))
            },
        },
    }
}

/// The bytes of an optional query string.
pub open spec fn query_bytes(q: Option<&str>) -> Option<Seq<u8>> {
    match q {
        None => None,
        Some(s) => Some(s.spec_bytes()),
    }
}

/// Relies on percent_encoding::percent_decode and PercentDecode::decode_utf8:
/// `%` and two hex digits become that byte, every other byte is kept, and the
/// bytes are returned as text when they are valid UTF-8.
#[verifier::external_body]
fn decode_percent_utf8(raw: &[u8]) -> (r: Option<String>)
    ensures
        r.is_some() == valid_utf8(percent_decoded(raw@)),
        r.is_some() ==> r.unwrap()@ == decode_utf8(percent_decoded(raw@)),
{
    match percent_encoding::percent_decode(raw).decode_utf8() {
        Ok(text) => Some(text.into_owned()),
        Err(_) => None,
    }
}

pub fn is_hex_digit(b: u8) -> (r: bool)
    ensures
        r == is_hex(b),
{
    (48 <= b && b <= 57) || (65 <= b && b <= 70) || (97 <= b && b <= 102)
}

/// Whether every `%` of `s[lo..hi]` starts an escape of two hex digits.
pub fn is_well_escaped(s: &[u8], lo: usize, hi: usize) -> (r: bool)
    requires
        lo <= hi <= s@.len(),
    ensures
        r == well_escaped(s@.subrange(lo as int, hi as int)),
{
    let ghost v = s@.subrange(lo as int, hi as int);
    let mut i: usize = lo;
    while i < hi
        invariant
            lo <= i <= hi <= s@.len(),
            v == s@.subrange(lo as int, hi as int),
            forall|j: int|
                0 <= j < i - lo && #[trigger] v[j] == 37 ==> j + 2 < v.len() && is_hex(v[j + 1])
                    && is_hex(v[j + 2]),
        decreases hi - i,
    {
        if s[i] == 37 {
            if hi - i <= 2 || !is_hex_digit(s[i + 1]) || !is_hex_digit(s[i + 2]) {
                assert(v[i - lo] == 37);
                return false;
            }
        }
        i = i + 1;
    }
    true
}

/// The text that `s[lo..hi]` stands for, when it is well escaped and decodes
/// to UTF-8.
pub fn decode_value(s: &[u8], lo: usize, hi: usize) -> (r: Option<String>)
    requires
        lo <= hi <= s@.len(),
    ensures
        match r {
            Some(v) => decoded_value(s@.subrange(lo as int, hi as int)) == Some(v@),
            None => decoded_value(s@.subrange(lo as int, hi as int)).is_none(),
        },
{
    if !is_well_escaped(s, lo, hi) {
        return None;
    }
    decode_percent_utf8(&s[lo..hi])
}

/// Once a prefix of the components is in error, so are all of them, with the
/// same error.
pub proof fn lemma_collect_error_persists(comps: Seq<Seq<u8>>, n: int)
    requires
        0 <= n <= comps.len(),
        collect_pairs(comps.take(n)) is Err,
    ensures
        collect_pairs(comps) == collect_pairs(comps.take(n)),
    decreases comps.len() - n,
{
    if n < comps.len() {
        assert(comps.take(n + 1).drop_last() =~= comps.take(n));
        lemma_collect_error_persists(comps, n + 1);
    } else {
        assert(comps.take(n) =~= comps);
    }
}

/// Whether `s[lo..hi]` is the two bytes `c0`, `c1`.
fn is_key(s: &[u8], lo: usize, hi: usize, c0: u8, c1: u8) -> (r: bool)
    requires
        lo <= hi <= s@.len(),
    ensures
        r == (s@.subrange(lo as int, hi as int) == seq![c0, c1]),
{
    if hi - lo == 2 && s[lo] == c0 && s[lo + 1] == c1 {
        assert(s@.subrange(lo as int, hi as int) =~= seq![c0, c1]);
        true
    } else {
        proof {
            let t = s@.subrange(lo as int, hi as int);
            let w = seq![c0, c1];
            if t == w {
                assert(t.len() == 2);
                assert(t[0] == s@[lo as int] && w[0] == c0);
                assert(t[1] == s@[lo + 1] && w[1] == c1);
            }
        }
        false
    }
}

pub open spec fn value_of(m: Map<Seq<u8>, Seq<char>>, k: Seq<u8>, v: Option<String>) -> bool {
    match v {
        Some(s) => m.contains_key(k) && m[k] == s@,
        None => !m.contains_key(k),
    }
}

/// Parses the query string of a download request into its three values.
pub fn parse_query(query: Option<&str>) -> (r: Result<Query, QueryError>)
    ensures
        match r {
            Ok(q) => parse_query_spec(query_bytes(query)) == Ok::<QueryView, QueryError>(q@),
            Err(e) => parse_query_spec(query_bytes(query)) == Err::<QueryView, QueryError>(e),
        },
{
    let q = match query {
        None => return Err(QueryError::MissingQuery),
        Some(q) => q,
    };
    let bytes = q.as_bytes();
    let comps = split_ranges(bytes, 0, bytes.len(), 38);
    let ghost all = split_on(bytes@, 38);
    proof {
        assert(bytes@.subrange(0, bytes@.len() as int) =~= bytes@);
    }
    let mut ty: Option<String> = None;
    let mut ct: Option<String> = None;
    let mut cd: Option<String> = None;
    let mut extra = false;
    let ghost mut m: Map<Seq<u8>, Seq<char>> = Map::empty();
    let mut i: usize = 0;
    while i < comps.len()
        invariant
            i <= comps@.len() == all.len(),
            all == split_on(bytes@, 38),
            bytes@ == q.spec_bytes(),
            query_bytes(query) == Some(bytes@),
            forall|j: int|
                0 <= j < comps@.len() ==> {
                    &&& 0 <= (#[trigger] comps@[j]).0 <= comps@[j].1 <= bytes@.len()
                    &&& bytes@.subrange(comps@[j].0 as int, comps@[j].1 as int) == all[j]
                },
            collect_pairs(all.take(i as int)) == Ok::<Map<Seq<u8>, Seq<char>>, QueryError>(m),
            value_of(m, key_ty(), ty),
            value_of(m, key_ct(), ct),
            value_of(m, key_cd(), cd),
            extra == has_extra_key(m),
        decreases comps@.len() - i,
    {
        let (a, b) = comps[i];
        let ghost c = all[i as int];
        assert(all.take(i + 1).drop_last() =~= all.take(i as int));
        assert(all.take(i + 1).last() == c);
        assert(bytes@.subrange(a as int, b as int) == c);
        let parts = split_ranges(bytes, a, b, 61);
        if parts.len() != 2 {
            proof {
                assert(parse_component(c) == Err::<(Seq<u8>, Seq<char>), QueryError>(QueryError::Malformed));
                assert(collect_pairs(all.take(i + 1)) == Err::<Map<Seq<u8>, Seq<char>>, QueryError>(QueryError::Malformed));
                lemma_collect_error_persists(all, i + 1);
            }
            return Err(QueryError::Malformed);
        }
        let (ka, kb) = parts[0];
        let (va, vb) = parts[1];
        let ghost parts_spec = split_on(c, 61);
        assert(bytes@.subrange(va as int, vb as int) == parts_spec[1]);
        assert(bytes@.subrange(ka as int, kb as int) == parts_spec[0]);
        let v = match decode_value(bytes, va, vb) {
            None => {
                proof {
                    assert(parse_component(c) == Err::<(Seq<u8>, Seq<char>), QueryError>(QueryError::DecodeFailed));
                    assert(collect_pairs(all.take(i + 1)) == Err::<Map<Seq<u8>, Seq<char>>, QueryError>(QueryError::DecodeFailed));
                    lemma_collect_error_persists(all, i + 1);
                }
                return Err(QueryError::DecodeFailed);
            },
            Some(v) => v,
        };
        let ghost k = bytes@.subrange(ka as int, kb as int);
        let ghost m2 = m.insert(k, v@);
        if is_key(bytes, ka, kb, 116, 121) {
            ty = Some(v);
        } else if is_key(bytes, ka, kb, 99, 116) {
            ct = Some(v);
        } else if is_key(bytes, ka, kb, 99, 100) {
            cd = Some(v);
        } else {
            extra = true;
            assert(m2.contains_key(k) && !is_known_key(k));
        }
        proof {
            if is_known_key(k) {
                if has_extra_key(m2) {
                    let w = choose|w: Seq<u8>| #[trigger] m2.contains_key(w) && !is_known_key(w);
                    assert(m.contains_key(w));
                }
                if has_extra_key(m) {
                    let w = choose|w: Seq<u8>| #[trigger] m.contains_key(w) && !is_known_key(w);
                    assert(m2.contains_key(w));
                }
            }
            m = m2;
        }
        i = i + 1;
    }
    assert(all.take(i as int) =~= all);
    match (ty, ct, cd) {
        (Some(t), Some(c), Some(d)) => {
            if extra {
                Err(QueryError::ExtraParts)
            } else {
                Ok(Query { file_type: t, content_type: c, content_disposition: d })
            }
        },
        _ => Err(QueryError::MissingPart),
    }
}

} // verus!
