//! EVE single sign-on: the callback address, the authorization URL, the
//! callback query, and who a token belongs to.

use vstd::prelude::*;
use vstd::string::StringSliceAdditionalSpecFns;
use base64::Engine;
use sha2::Digest;
use crate::text::{
    chars_of, join, owned, parse_i64, parse_u16, push_decimal, push_str, same_text, spec_decimal,
    spec_join, spec_parse_signed, spec_parse_unsigned, spec_split, spec_trim, spec_words,
    split_chars, string_from_chars, string_views, trim_chars, words_of, words_view,
};

verus! {

/// The error of `base64` decoding, carried through as an opaque value.
#[verifier::external_type_specification]
#[verifier::external_body]
pub struct ExDecodeError(base64::DecodeError);

/// Bytes that `urlencoding::encode` leaves as they are.
pub open spec fn is_unreserved(b: u8) -> bool {
    ||| (48 <= b && b <= 57)
    ||| (65 <= b && b <= 90)
    ||| (97 <= b && b <= 122)
    ||| b == 45
    ||| b == 46
    ||| b == 95
    ||| b == 126
}

pub open spec fn hex_upper(d: int) -> char {
    if d < 10 {
        (48 + d) as char
    } else {
        (55 + d) as char
    }
}

/// Percent-encoding of bytes: unreserved bytes stay, every other byte
/// becomes `%` and two upper-case hex digits.
pub open spec fn spec_percent_encode(b: Seq<u8>) -> Seq<char>
    decreases b.len(),
{
    if b.len() == 0 {
        Seq::empty()
    } else {
        let x = b.last();
        spec_percent_encode(b.drop_last()) + if is_unreserved(x) {
            seq![x as char]
        } else {
            seq!['%', hex_upper((x / 16) as int), hex_upper((x % 16) as int)]
        }
    }
}

/// `urlencoding::encode`. Claimed: it percent-encodes the UTF-8 bytes of `s`,
/// leaving the unreserved bytes as they are.
#[verifier::external_body]
fn url_encode(s: &str) -> (r: String)
    ensures
        r@ == spec_percent_encode(s.spec_bytes()),
{
    urlencoding::encode(s).into_owned()
}

/// The value of a hexadecimal digit byte (either case).
pub open spec fn hex_value(b: u8) -> Option<int> {
    if 48 <= b <= 57 {
        Some(b - 48)
    } else if 65 <= b <= 70 {
        Some(b - 55)
    } else if 97 <= b <= 102 {
        Some(b - 87)
    } else {
        None
    }
}

/// Percent-decoding of bytes: `%` and two hex digits become that byte;
/// every other byte, a lone `%` included, stays as it is.
pub open spec fn spec_percent_decode(b: Seq<u8>) -> Seq<u8>
    decreases b.len(),
{
    if b.len() == 0 {
        Seq::empty()
    } else if b[0] == 37 && b.len() >= 3 && hex_value(b[1]) is Some && hex_value(b[2]) is Some {
        seq![(hex_value(b[1])->0 * 16 + hex_value(b[2])->0) as u8] + spec_percent_decode(b.skip(3))
    } else {
        seq![b[0]] + spec_percent_decode(b.skip(1))
    }
}

/// What `urlencoding::decode` gives for a string: the percent-decoded bytes
/// of its UTF-8 encoding read as UTF-8, or nothing when they are not UTF-8.
pub open spec fn spec_url_decode(s: Seq<char>) -> Option<Seq<char>> {
    let b = spec_percent_decode(vstd::utf8::encode_utf8(s));
    if vstd::utf8::valid_utf8(b) {
        Some(vstd::utf8::decode_utf8(b))
    } else {
        None
    }
}

/// `urlencoding::decode`. Claimed: it percent-decodes the UTF-8 bytes of
/// `s` and reads them back as UTF-8, with invalid UTF-8 as `None`.
#[verifier::external_body]
fn url_decode(s: &str) -> (r: Option<String>)
    ensures
        r is Some <==> spec_url_decode(s@) is Some,
        r matches Some(x) ==> x@ == spec_url_decode(s@)->0,
{
    match urlencoding::decode(s) {
        Ok(x) => Some(x.into_owned()),
        Err(_) => None,
    }
}

/// The URL-safe base64 digit of a six-bit value.
pub open spec fn b64_digit(v: int) -> char {
    if v < 26 {
        (65 + v) as char
    } else if v < 52 {
        (71 + v) as char
    } else if v < 62 {
        (v - 4) as char
    } else if v == 62 {
        '-'
    } else {
        '_'
    }
}

/// URL-safe base64 without padding: each three bytes become four digits; a
/// last one or two bytes become two or three digits.
pub open spec fn spec_base64url_encode(b: Seq<u8>) -> Seq<char>
    decreases b.len(),
{
    if b.len() == 0 {
        Seq::empty()
    } else {
        let x = b[0] as int;
        if b.len() == 1 {
            seq![b64_digit(x / 4), b64_digit((x % 4) * 16)]
        } else {
            let y = b[1] as int;
            if b.len() == 2 {
                seq![b64_digit(x / 4), b64_digit((x % 4) * 16 + y / 16), b64_digit((y % 16) * 4)]
            } else {
                let z = b[2] as int;
                seq![
                    b64_digit(x / 4),
                    b64_digit((x % 4) * 16 + y / 16),
                    b64_digit((y % 16) * 4 + z / 64),
                    b64_digit(z % 64),
                ] + spec_base64url_encode(b.skip(3))
            }
        }
    }
}

/// `base64::engine::general_purpose::URL_SAFE_NO_PAD.encode`. Claimed: the
/// result is the unpadded URL-safe base64 encoding of the bytes.
#[verifier::external_body]
fn base64url_encode(b: &[u8]) -> (r: String)
    requires
        b.len() <= usize::MAX / 2,
    ensures
        r@ == spec_base64url_encode(b@),
{
    base64::engine::general_purpose::URL_SAFE_NO_PAD.encode(b)
}

/// The bytes that URL-safe, unpadded base64 text stands for, if it is valid.
pub uninterp spec fn spec_base64url_decode(s: Seq<char>) -> Option<Seq<u8>>;

/// `base64::engine::general_purpose::URL_SAFE_NO_PAD.decode`. Claimed: it
/// succeeds exactly when the named decoding exists, and gives those bytes.
#[verifier::external_body]
fn base64url_decode(s: &str) -> (r: Result<Vec<u8>, base64::DecodeError>)
    ensures
        r is Ok <==> spec_base64url_decode(s@) is Some,
        r matches Ok(v) ==> v@ == spec_base64url_decode(s@)->0,
{
    base64::engine::general_purpose::URL_SAFE_NO_PAD.decode(s)
}

/// The SHA-256 digest of some bytes.
pub uninterp spec fn spec_sha256(b: Seq<u8>) -> Seq<u8>;

/// `sha2::Sha256::digest`. Claimed: the result is the named digest of the
/// bytes, and it is 32 bytes long.
#[verifier::external_body]
fn sha256(b: &[u8]) -> (r: Vec<u8>)
    ensures
        r@ == spec_sha256(b@),
        r@.len() == 32,
{
    sha2::Sha256::digest(b).to_vec()
}

/// `s` without the prefix `p`, when it starts with it.
pub open spec fn strip_prefix(s: Seq<char>, p: Seq<char>) -> Option<Seq<char>> {
    if p.len() <= s.len() && s.subrange(0, p.len() as int) == p {
        Some(s.subrange(p.len() as int, s.len() as int))
    } else {
        None
    }
}

/// Index of the first `c` in `s`.
pub open spec fn find_char(s: Seq<char>, c: char) -> Option<int>
    decreases s.len(),
{
    if s.len() == 0 {
        None
    } else {
        match find_char(s.drop_last(), c) {
            Some(i) => Some(i),
            None => if s.last() == c {
                Some(s.len() - 1)
            } else {
                None
            },
        }
    }
}

pub open spec fn callback_prefix_message() -> Seq<char> {
    "Callback URL must start with http://localhost: or http://127.0.0.1:"@
}

pub open spec fn callback_port_message() -> Seq<char> {
    "Callback URL port must be a number."@
}

/// Port and path of a local callback URL: after `http://localhost:` or
/// `http://127.0.0.1:` come the port and, after a `/`, the path, which is
/// `/callback` when absent.
pub open spec fn spec_callback_parts(url: Seq<char>) -> Result<(u16, Seq<char>), Seq<char>> {
    let rest = match strip_prefix(url, "http://localhost:"@) {
        Some(r) => Some(r),
        None => strip_prefix(url, "http://127.0.0.1:"@),
    };
    match rest {
        None => Err(callback_prefix_message()),
        Some(r) => {
            let (port_text, tail) = match find_char(r, '/') {
                Some(i) => (r.take(i), r.skip(i + 1)),
                None => (r, "callback"@),
            };
            match spec_parse_unsigned(port_text) {
                Some(p) => if p <= u16::MAX {
                    Ok((p as u16, seq!['/'] + tail))
                } else {
                    Err(callback_port_message())
                },
                None => Err(callback_port_message()),
            }
        },
    }
}

fn strip_prefix_chars(s: &Vec<char>, p: &str) -> (r: Option<Vec<char>>)
    ensures
        r matches Some(v) ==> strip_prefix(s@, p@) == Some(v@),
        r is None <==> strip_prefix(s@, p@) is None,
{
    let pc = chars_of(p);
    if pc.len() > s.len() {
        return None;
    }
    let mut i: usize = 0;
    while i < pc.len()
        invariant
            pc@ == p@,
            pc.len() <= s.len(),
            i <= pc.len(),
            forall|k: int| 0 <= k < i ==> s@[k] == pc@[k],
        decreases pc.len() - i,
    {
        if s[i] != pc[i] {
            assert(s@.subrange(0, p@.len() as int)[i as int] != p@[i as int]);
            return None;
        }
        i = i + 1;
    }
    assert(s@.subrange(0, p@.len() as int) =~= p@);
    let mut rest: Vec<char> = Vec::new();
    let mut k: usize = pc.len();
    while k < s.len()
        invariant
            pc.len() <= k <= s.len(),
            pc@ == p@,
            rest@ == s@.subrange(pc.len() as int, k as int),
        decreases s.len() - k,
    {
        rest.push(s[k]);
        assert(rest@ =~= s@.subrange(pc.len() as int, k + 1));
        k = k + 1;
    }
    Some(rest)
}

pub(crate) fn find_char_index(s: &Vec<char>, c: char) -> (r: Option<usize>)
    ensures
        r matches Some(i) ==> find_char(s@, c) == Some(i as int) && i < s.len(),
        r is None <==> find_char(s@, c) is None,
{
    let mut i: usize = 0;
    while i < s.len()
        invariant
            i <= s.len(),
            find_char(s@.take(i as int), c) is None,
        decreases s.len() - i,
    {
        assert(s@.take(i + 1).drop_last() =~= s@.take(i as int));
        if s[i] == c {
            proof {
                lemma_find_char_extends(s@, i as int, c);
            }
            return Some(i);
        }
        i = i + 1;
    }
    assert(s@.take(s.len() as int) =~= s@);
    None
}

proof fn lemma_find_char_extends(s: Seq<char>, i: int, c: char)
    requires
        0 <= i < s.len(),
        find_char(s.take(i), c) is None,
        s[i] == c,
    ensures
        find_char(s, c) == Some(i),
    decreases s.len(),
{
    assert(s.take(i + 1).drop_last() =~= s.take(i));
    if s.len() > i + 1 {
        let t = s.drop_last();
        assert(t.take(i) =~= s.take(i));
        lemma_find_char_extends(t, i, c);
    } else {
        assert(s.take(i + 1) =~= s);
    }
}

pub(crate) fn slice_chars(s: &Vec<char>, from: usize, to: usize) -> (r: Vec<char>)
    requires
        from <= to <= s.len(),
    ensures
        r@ == s@.subrange(from as int, to as int),
{
    let mut r: Vec<char> = Vec::new();
    let mut k: usize = from;
    while k < to
        invariant
            from <= k <= to <= s.len(),
            r@ == s@.subrange(from as int, k as int),
        decreases to - k,
    {
        r.push(s[k]);
        assert(r@ =~= s@.subrange(from as int, k + 1));
        k = k + 1;
    }
    r
}

/// Splits a local callback URL into the port to listen on and the path to expect.
pub fn callback_parts(callback_url: &str) -> (r: Result<(u16, String), String>)
    ensures
        match spec_callback_parts(callback_url@) {
            Ok((port, path)) => r matches Ok(x) && x.0 == port && x.1@ == path,
            Err(msg) => r matches Err(e) && e@ == msg,
        },
{
    let url = chars_of(callback_url);
    let rest = match strip_prefix_chars(&url, "http://localhost:") {
        Some(r) => r,
        None => match strip_prefix_chars(&url, "http://127.0.0.1:") {
            Some(r) => r,
            None => {
                return Err(owned("Callback URL must start with http://localhost: or http://127.0.0.1:"));
            },
        },
    };
    let (port_text, tail) = match find_char_index(&rest, '/') {
        Some(i) => {
            let a = slice_chars(&rest, 0, i);
            let b = slice_chars(&rest, i + 1, rest.len());
            assert(a@ =~= rest@.take(i as int));
            assert(b@ =~= rest@.skip(i + 1));
            (a, b)
        },
        None => {
            let a = slice_chars(&rest, 0, rest.len());
            assert(a@ =~= rest@);
            (a, chars_of("callback"))
        },
    };
    let port_string = string_from_chars(port_text.as_slice());
    match parse_u16(port_string.as_str()) {
        Some(port) => {
            let mut path: Vec<char> = Vec::new();
            path.push('/');
            let tail_string = string_from_chars(tail.as_slice());
            push_str(&mut path, tail_string.as_str());
            assert(path@ =~= seq!['/'] + tail@);
            Ok((port, string_from_chars(path.as_slice())))
        },
        None => Err(owned("Callback URL port must be a number.")),
    }
}

/// The PKCE challenge of a verifier: URL-safe base64 of its SHA-256 digest.
pub open spec fn spec_pkce_challenge(verifier: Seq<char>) -> Seq<char> {
    spec_base64url_encode(spec_sha256(vstd::utf8::encode_utf8(verifier)))
}

pub fn pkce_challenge(verifier: &str) -> (r: String)
    ensures
        r@ == spec_pkce_challenge(verifier@),
{
    let digest = sha256(verifier.as_bytes());
    base64url_encode(digest.as_slice())
}

/// `rand::thread_rng().fill_bytes` on a buffer of `len` bytes. Claimed: the
/// result has `len` bytes; what they are is left open, as they are random.
#[verifier::external_body]
fn random_bytes(len: usize) -> (r: Vec<u8>)
    ensures
        r@.len() == len,
{
    let mut buffer = vec![0u8; len];
    rand::RngCore::fill_bytes(&mut rand::thread_rng(), &mut buffer);
    buffer
}

/// A fresh random token: URL-safe base64 of `bytes` random bytes.
pub fn random_url_token(bytes: usize) -> (r: String)
    requires
        bytes <= usize::MAX / 2,
    ensures
        exists|b: Seq<u8>| b.len() == bytes && r@ == #[trigger] spec_base64url_encode(b),
{
    let buffer = random_bytes(bytes);
    url_token(&buffer)
}

/// A random token as URL-safe base64 of its bytes.
pub fn url_token(bytes: &Vec<u8>) -> (r: String)
    requires
        bytes.len() <= usize::MAX / 2,
    ensures
        r@ == spec_base64url_encode(bytes@),
{
    base64url_encode(bytes.as_slice())
}

/// The EVE authorization URL for a PKCE login.
pub open spec fn spec_authorize_url(
    callback_url: &str,
    client_id: &str,
    scopes: &str,
    challenge: &str,
    state: &str,
) -> Seq<char> {
    "https://login.eveonline.com/v2/oauth/authorize/?response_type=code&redirect_uri="@
        + spec_percent_encode(callback_url.spec_bytes()) + "&client_id="@ + spec_percent_encode(
        client_id.spec_bytes(),
    ) + "&scope="@ + spec_percent_encode(scopes.spec_bytes()) + "&code_challenge="@
        + spec_percent_encode(challenge.spec_bytes()) + "&code_challenge_method=S256&state="@
        + spec_percent_encode(state.spec_bytes())
}

pub fn authorize_url(
    callback_url: &str,
    client_id: &str,
    scopes: &str,
    challenge: &str,
    state: &str,
) -> (r: String)
    ensures
        r@ == spec_authorize_url(callback_url, client_id, scopes, challenge, state),
{
    let mut v: Vec<char> = Vec::new();
    push_str(&mut v, "https://login.eveonline.com/v2/oauth/authorize/?response_type=code&redirect_uri=");
    let e1 = url_encode(callback_url);
    push_str(&mut v, e1.as_str());
    push_str(&mut v, "&client_id=");
    let e2 = url_encode(client_id);
    push_str(&mut v, e2.as_str());
    push_str(&mut v, "&scope=");
    let e3 = url_encode(scopes);
    push_str(&mut v, e3.as_str());
    push_str(&mut v, "&code_challenge=");
    let e4 = url_encode(challenge);
    push_str(&mut v, e4.as_str());
    push_str(&mut v, "&code_challenge_method=S256&state=");
    let e5 = url_encode(state);
    push_str(&mut v, e5.as_str());
    assert(v@ =~= spec_authorize_url(callback_url, client_id, scopes, challenge, state));
    string_from_chars(v.as_slice())
}


/// The decoded key and value of one `key=value` piece of a query, if it has
/// an `=` and both halves decode.
pub open spec fn spec_query_pair(piece: Seq<char>) -> Option<(Seq<char>, Seq<char>)> {
    match find_char(piece, '=') {
        None => None,
        Some(i) => match (spec_url_decode(piece.take(i)), spec_url_decode(piece.skip(i + 1))) {
            (Some(k), Some(v)) => Some((k, v)),
            _ => None,
        },
    }
}

/// The decoded pairs of the pieces, in order, leaving out pieces that give none.
pub open spec fn spec_query_pairs(pieces: Seq<Seq<char>>) -> Seq<(Seq<char>, Seq<char>)>
    decreases pieces.len(),
{
    if pieces.len() == 0 {
        Seq::empty()
    } else {
        let rest = spec_query_pairs(pieces.drop_last());
        match spec_query_pair(pieces.last()) {
            Some(p) => rest.push(p),
            None => rest,
        }
    }
}

/// The pairs of a URL query string.
pub open spec fn spec_parse_query(query: Seq<char>) -> Seq<(Seq<char>, Seq<char>)> {
    spec_query_pairs(spec_split(query, '&'))
}

/// One decoded query parameter.
#[derive(Debug)]
pub struct QueryPair {
    pub key: String,
    pub value: String,
}

pub open spec fn pair_view(p: QueryPair) -> (Seq<char>, Seq<char>) {
    (p.key@, p.value@)
}

/// The keys and values of query pairs.
pub open spec fn pairs_view(pairs: Seq<QueryPair>) -> Seq<(Seq<char>, Seq<char>)> {
    pairs.map_values(|p: QueryPair| pair_view(p))
}


fn query_pair(piece: &Vec<char>) -> (r: Option<QueryPair>)
    ensures
        r matches Some(p) ==> spec_query_pair(piece@) == Some(pair_view(p)),
        r is None <==> spec_query_pair(piece@) is None,
{
    let eq = match find_char_index(piece, '=') {
        Some(i) => i,
        None => return None,
    };
    let k = slice_chars(piece, 0, eq);
    let v = slice_chars(piece, eq + 1, piece.len());
    assert(k@ =~= piece@.take(eq as int));
    assert(v@ =~= piece@.skip(eq + 1));
    let ks = string_from_chars(k.as_slice());
    let vs = string_from_chars(v.as_slice());
    let key = match url_decode(ks.as_str()) {
        Some(x) => x,
        None => return None,
    };
    let value = match url_decode(vs.as_str()) {
        Some(x) => x,
        None => return None,
    };
    Some(QueryPair { key, value })
}

/// Splits a query string at `&` and each piece at its first `=`, decoding
/// both halves; pieces without `=` or that do not decode are left out.
pub fn parse_query(query: &str) -> (r: Vec<QueryPair>)
    ensures
        r@.len() == spec_parse_query(query@).len(),
        forall|i: int| 0 <= i < r@.len() ==> pair_view(#[trigger] r@[i]) == spec_parse_query(query@)[i],
{
    let q = chars_of(query);
    let pieces = split_chars(&q, '&');
    let ghost sp = spec_split(query@, '&');
    let mut out: Vec<QueryPair> = Vec::new();
    let mut i: usize = 0;
    while i < pieces.len()
        invariant
            i <= pieces.len(),
            pieces@.len() == sp.len(),
            forall|k: int| 0 <= k < pieces@.len() ==> (#[trigger] pieces@[k])@ == sp[k],
            out@.len() == spec_query_pairs(sp.take(i as int)).len(),
            forall|k: int| 0 <= k < out@.len() ==> pair_view(#[trigger] out@[k]) == spec_query_pairs(sp.take(i as int))[k],
        decreases pieces.len() - i,
    {
        assert(sp.take(i + 1).drop_last() =~= sp.take(i as int));
        assert(sp.take(i + 1).last() == pieces@[i as int]@);
        match query_pair(&pieces[i]) {
            Some(p) => {
                out.push(p);
            },
            None => {},
        }
        i = i + 1;
    }
    assert(sp.take(pieces.len() as int) =~= sp);
    out
}

/// The value of the last pair with this key, as a map built from the pairs in order holds.
pub open spec fn spec_query_value(pairs: Seq<(Seq<char>, Seq<char>)>, key: Seq<char>) -> Option<Seq<char>>
    decreases pairs.len(),
{
    if pairs.len() == 0 {
        None
    } else if pairs.last().0 == key {
        Some(pairs.last().1)
    } else {
        spec_query_value(pairs.drop_last(), key)
    }
}

/// Looks a key up among query pairs; the last pair with the key wins.
pub fn query_value<'a>(pairs: &'a Vec<QueryPair>, key: &str) -> (r: Option<&'a str>)
    ensures
        match spec_query_value(pairs_view(pairs@), key@) {
            Some(v) => r matches Some(x) && x@ == v,
            None => r is None,
        },
{
    let ghost pv = pairs_view(pairs@);
    assert(pv.take(pairs.len() as int) =~= pv);
    let mut i: usize = pairs.len();
    while i > 0
        invariant
            i <= pairs.len(),
            pv == pairs_view(pairs@),
            spec_query_value(pv, key@) == spec_query_value(pv.take(i as int), key@),
        decreases i,
    {
        let p = &pairs[i - 1];
        assert(pv.take(i as int).last() == pair_view(pairs@[i - 1]));
        assert(pv.take(i as int).drop_last() =~= pv.take(i - 1));
        if same_text(p.key.as_str(), key) {
            return Some(p.value.as_str());
        }
        i = i - 1;
    }
    None
}

/// Where the callback leaves the login.
#[derive(Debug)]
pub enum CallbackOutcome {
    /// The authorization code to exchange.
    Code(String),
    /// The login stops: what to log, when anything, and the error to return.
    Rejected { log: Option<String>, error: String },
}

pub open spec fn state_mismatch_log() -> Seq<char> {
    "EVE login state did not match."@
}

pub open spec fn state_mismatch_error() -> Seq<char> {
    "EVE login state did not match. Please try again."@
}

pub open spec fn missing_code_error() -> Seq<char> {
    "EVE login did not return a code."@
}

/// What the login does with the callback's query: a state other than the
/// one sent is rejected; an `error` is reported with its description; else
/// the `code` is taken.
pub open spec fn callback_outcome_ok(pairs: Seq<(Seq<char>, Seq<char>)>, expected_state: Seq<char>, r: CallbackOutcome) -> bool {
    let got_state = match spec_query_value(pairs, "state"@) {
        Some(v) => v,
        None => Seq::<char>::empty(),
    };
    if got_state != expected_state {
        r matches CallbackOutcome::Rejected { log, error } && log matches Some(l) && l@
            == state_mismatch_log() && error@ == state_mismatch_error()
    } else {
        match spec_query_value(pairs, "error"@) {
            Some(err) => {
                let description = match spec_query_value(pairs, "error_description"@) {
                    Some(d) => ": "@ + d,
                    None => Seq::<char>::empty(),
                };
                r matches CallbackOutcome::Rejected { log, error } && log matches Some(l) && l@
                    == "EVE login failed: "@ + err + description && error@ == "EVE login failed: "@
                    + err
            },
            None => match spec_query_value(pairs, "code"@) {
                Some(c) => r matches CallbackOutcome::Code(code) && code@ == c,
                None => r matches CallbackOutcome::Rejected { log, error } && log is None && error@
                    == missing_code_error(),
            },
        }
    }
}

/// Decides what the login does with the callback's query parameters.
pub fn callback_outcome(pairs: &Vec<QueryPair>, expected_state: &str) -> (r: CallbackOutcome)
    ensures
        callback_outcome_ok(pairs_view(pairs@), expected_state@, r),
{
    let state_matches = match query_value(pairs, "state") {
        Some(v) => same_text(v, expected_state),
        None => {
            let e = chars_of(expected_state);
            if e.len() == 0 {
                assert(expected_state@ =~= Seq::<char>::empty());
                true
            } else {
                false
            }
        },
    };
    if !state_matches {
        return CallbackOutcome::Rejected {
            log: Some(owned("EVE login state did not match.")),
            error: owned("EVE login state did not match. Please try again."),
        };
    }
    match query_value(pairs, "error") {
        Some(err) => {
            let mut short: Vec<char> = Vec::new();
            push_str(&mut short, "EVE login failed: ");
            push_str(&mut short, err);
            let mut long: Vec<char> = Vec::new();
            push_str(&mut long, "EVE login failed: ");
            push_str(&mut long, err);
            match query_value(pairs, "error_description") {
                Some(d) => {
                    push_str(&mut long, ": ");
                    push_str(&mut long, d);
                    assert(long@ =~= "EVE login failed: "@ + err@ + (": "@ + d@));
                },
                None => {
                    assert(long@ =~= "EVE login failed: "@ + err@ + Seq::<char>::empty());
                },
            }
            CallbackOutcome::Rejected {
                log: Some(string_from_chars(long.as_slice())),
                error: string_from_chars(short.as_slice()),
            }
        },
        None => match query_value(pairs, "code") {
            Some(c) => CallbackOutcome::Code(owned(c)),
            None => CallbackOutcome::Rejected {
                log: None,
                error: owned("EVE login did not return a code."),
            },
        },
    }
}

/// The part of `s` after its last `c` (all of `s` when there is none).
pub open spec fn after_last(s: Seq<char>, c: char) -> Seq<char>
    decreases s.len(),
{
    if s.len() == 0 {
        s
    } else if s.last() == c {
        Seq::empty()
    } else {
        after_last(s.drop_last(), c).push(s.last())
    }
}

fn after_last_chars(s: &Vec<char>, c: char) -> (r: Vec<char>)
    ensures
        r@ == after_last(s@, c),
{
    let mut start: usize = 0;
    let mut i: usize = 0;
    while i < s.len()
        invariant
            i <= s.len(),
            start <= i,
            after_last(s@.take(i as int), c) == s@.subrange(start as int, i as int),
        decreases s.len() - i,
    {
        assert(s@.take(i + 1).drop_last() =~= s@.take(i as int));
        if s[i] == c {
            start = i + 1;
            assert(s@.subrange(start as int, i + 1) =~= Seq::<char>::empty());
        } else {
            assert(s@.subrange(start as int, i + 1) =~= s@.subrange(start as int, i as int).push(s@[i as int]));
        }
        i = i + 1;
    }
    assert(s@.take(s.len() as int) =~= s@);
    slice_chars(s, start, s.len())
}

/// Who a token belongs to: character ID, name and scopes.
#[derive(Debug)]
pub struct Identity {
    pub character_id: i64,
    pub character_name: String,
    pub scopes: String,
}

pub open spec fn not_numeric_message() -> Seq<char> {
    "EVE token character ID was not numeric."@
}

/// The identity in a token's claims: the character ID is the last
/// `:`-separated part of the subject; a missing name becomes
/// `Character <id>`; missing scopes are the requested ones.
pub fn token_identity(
    subject: &str,
    name: Option<String>,
    scopes: Option<Vec<String>>,
    requested_scopes: &str,
) -> (r: Result<Identity, String>)
    ensures
        ({
            let id_text = after_last(subject@, ':');
            match spec_parse_signed(id_text) {
                Some(id) => if i64::MIN <= id <= i64::MAX {
                    r matches Ok(ident) && ident.character_id == id && ident.character_name@ == (
                    match name {
                        Some(n) => n@,
                        None => "Character "@ + spec_decimal(id),
                    }) && ident.scopes@ == (match scopes {
                        Some(list) => spec_join(string_views(list@), " "@),
                        None => requested_scopes@,
                    })
                } else {
                    r matches Err(e) && e@ == not_numeric_message()
                },
                None => r matches Err(e) && e@ == not_numeric_message(),
            }
        }),
{
    let s = chars_of(subject);
    let tail = after_last_chars(&s, ':');
    let tail_string = string_from_chars(tail.as_slice());
    let id = match parse_i64(tail_string.as_str()) {
        Some(x) => x,
        None => return Err(owned("EVE token character ID was not numeric.")),
    };
    let character_name = match name {
        Some(n) => n,
        None => {
            let mut v: Vec<char> = Vec::new();
            push_str(&mut v, "Character ");
            push_decimal(&mut v, id);
            assert(v@ =~= "Character "@ + spec_decimal(id as int));
            string_from_chars(v.as_slice())
        },
    };
    let joined = match scopes {
        Some(list) => join(&list, " "),
        None => owned(requested_scopes),
    };
    Ok(Identity { character_id: id, character_name, scopes: joined })
}

pub open spec fn not_jwt_message() -> Seq<char> {
    "EVE access token was not a JWT."@
}

/// The second `.`-separated part of a token, decoded from URL-safe base64.
pub fn jwt_payload(access_token: &str) -> (r: Result<Vec<u8>, String>)
    ensures
        spec_split(access_token@, '.').len() < 2 ==> (r matches Err(e) && e@ == not_jwt_message()),
        spec_split(access_token@, '.').len() >= 2 ==> {
            let part = spec_split(access_token@, '.')[1];
            match spec_base64url_decode(part) {
                Some(b) => r matches Ok(v) && v@ == b,
                None => r matches Err(e) && e@.len() >= "Could not decode EVE token: "@.len()
                    && e@.subrange(0, "Could not decode EVE token: "@.len() as int)
                    == "Could not decode EVE token: "@,
            }
        },
{
    let t = chars_of(access_token);
    let parts = split_chars(&t, '.');
    if parts.len() < 2 {
        return Err(owned("EVE access token was not a JWT."));
    }
    let part = string_from_chars(parts[1].as_slice());
    match base64url_decode(part.as_str()) {
        Ok(v) => Ok(v),
        Err(e) => {
            let msg = crate::text::to_string(e);
            let mut v: Vec<char> = Vec::new();
            push_str(&mut v, "Could not decode EVE token: ");
            let ghost head = v@;
            push_str(&mut v, msg.as_str());
            assert(v@.subrange(0, "Could not decode EVE token: "@.len() as int) =~= head);
            Err(string_from_chars(v.as_slice()))
        },
    }
}

/// `"<label> failed: HTTP <status> <body>"`.
pub open spec fn token_failure_message(label: Seq<char>, status: u16, body: Seq<char>) -> Seq<char> {
    label + " failed: HTTP "@ + spec_decimal(status as int) + " "@ + body
}

/// The error of a token endpoint reply: none for a 2xx status, otherwise
/// the label, the status and the reply's body.
pub fn token_error(label: &str, status: u16, body: &str) -> (r: Option<String>)
    ensures
        200 <= status <= 299 ==> r is None,
        !(200 <= status <= 299) ==> (r matches Some(m) && m@ == token_failure_message(label@, status, body@)),
{
    if crate::esi::is_success(status) {
        return None;
    }
    let mut v: Vec<char> = Vec::new();
    push_str(&mut v, label);
    push_str(&mut v, " failed: HTTP ");
    push_decimal(&mut v, status as i64);
    push_str(&mut v, " ");
    push_str(&mut v, body);
    assert(v@ =~= token_failure_message(label@, status, body@));
    Some(string_from_chars(v.as_slice()))
}

/// The whitespace-separated scopes include `scope`.
pub open spec fn spec_has_scope(scopes: Seq<char>, scope: Seq<char>) -> bool {
    exists|i: int| 0 <= i < spec_words(scopes).len() && #[trigger] spec_words(scopes)[i] == scope
}

/// Whether a token's scopes grant `scope`.
pub fn has_scope(scopes: &str, scope: &str) -> (r: bool)
    ensures
        r == spec_has_scope(scopes@, scope@),
{
    let words = words_of(&chars_of(scopes));
    let ghost wv = spec_words(scopes@);
    let mut i: usize = 0;
    while i < words.len()
        invariant
            i <= words.len(),
            words_view(words@) == wv,
            wv == spec_words(scopes@),
            forall|k: int| 0 <= k < i ==> #[trigger] wv[k] != scope@,
        decreases words.len() - i,
    {
        assert(wv[i as int] == words@[i as int]@);
        let w = string_from_chars(words[i].as_slice());
        if same_text(w.as_str(), scope) {
            return true;
        }
        i = i + 1;
    }
    false
}

pub open spec fn missing_client_id_message() -> Seq<char> {
    "Set EVE SSO client ID in Settings first."@
}

/// The SSO client ID setting, trimmed; a blank one is an error asking to set it.
pub fn client_id_setting(text: &str) -> (r: Result<String, String>)
    ensures
        spec_trim(text@).len() == 0 ==> (r matches Err(e) && e@ == missing_client_id_message()),
        spec_trim(text@).len() > 0 ==> (r matches Ok(id) && id@ == spec_trim(text@)),
{
    let t = trim_chars(text);
    if t.len() == 0 {
        Err(owned("Set EVE SSO client ID in Settings first."))
    } else {
        Ok(string_from_chars(t.as_slice()))
    }
}

pub open spec fn missing_refresh_token_message() -> Seq<char> {
    "EVE did not return a refresh token. Check the app is configured as a native app."@
}

/// The refresh token of a login reply; a reply without one is an error.
pub fn require_refresh_token(token: Option<String>) -> (r: Result<String, String>)
    ensures
        token is None ==> (r matches Err(e) && e@ == missing_refresh_token_message()),
        token matches Some(t) ==> (r matches Ok(x) && x == t),
{
    match token {
        Some(t) => Ok(t),
        None => Err(owned("EVE did not return a refresh token. Check the app is configured as a native app.")),
    }
}

} // verus!
