//! OAuth 1.0a request signing, bit-exact: percent-encoding per RFC 3986,
//! lexicographic parameter ordering, the `METHOD&url&params` signing base
//! string, HMAC-SHA1 over it, and the `OAuth k="v", ...` authorization
//! header. The percent-encoder, the digest and the base64 step come from
//! outside crates behind trusted contracts; everything around them is
//! verified.

use vstd::prelude::*;

use crate::strutil::lemma_lex_antisym;
use crate::strutil::lemma_lex_total;
use crate::strutil::lemma_lex_trans;
use crate::strutil::lex_le;
use crate::strutil::str_le;
use vstd::multiset::Multiset;
use base64::Engine;
use hmac::KeyInit;
use hmac::Mac;

verus! {

/// An ASCII-only character sequence.
pub open spec fn ascii_seq(s: Seq<char>) -> bool {
    vstd::utf8::is_ascii_chars(s)
}

/// Uppercase hexadecimal digit of a value below 16.
pub open spec fn hex_digit(d: int) -> char {
    if d == 0 {
        '0'
    } else if d == 1 {
        '1'
    } else if d == 2 {
        '2'
    } else if d == 3 {
        '3'
    } else if d == 4 {
        '4'
    } else if d == 5 {
        '5'
    } else if d == 6 {
        '6'
    } else if d == 7 {
        '7'
    } else if d == 8 {
        '8'
    } else if d == 9 {
        '9'
    } else if d == 10 {
        'A'
    } else if d == 11 {
        'B'
    } else if d == 12 {
        'C'
    } else if d == 13 {
        'D'
    } else if d == 14 {
        'E'
    } else {
        'F'
    }
}

/// The characters RFC 3986 leaves unencoded.
pub open spec fn is_unreserved(c: char) -> bool {
    ('0' <= c && c <= '9') || ('A' <= c && c <= 'Z') || ('a' <= c && c <= 'z') || c == '-' || c
        == '.' || c == '_' || c == '~'
}

/// Percent-encoding of a single ASCII character.
pub open spec fn enc_char(c: char) -> Seq<char> {
    if is_unreserved(c) {
        seq![c]
    } else {
        seq!['%', hex_digit(c as int / 16), hex_digit(c as int % 16)]
    }
}

/// Percent-encoding of an ASCII string: unreserved characters pass
/// through, every other byte becomes `%XX` with uppercase hex.
pub open spec fn spec_percent_encode(s: Seq<char>) -> Seq<char>
    decreases s.len(),
{
    if s.len() == 0 {
        Seq::empty()
    } else {
        spec_percent_encode(s.drop_last()) + enc_char(s.last())
    }
}

/// Relies on `urlencoding::encode`: percent-encodes every byte except
/// ASCII alphanumerics and `-`, `_`, `.`, `~`, emitting uppercase hex.
/// For ASCII input each character is one byte, so the result is exactly
/// the character-wise encoding; nothing is claimed of non-ASCII input.
#[verifier::external_body]
fn urlencode(s: &str) -> (r: String)
    ensures
        ascii_seq(s@) ==> r@ == spec_percent_encode(s@),
{
    urlencoding::encode(s).into_owned()
}

/// A name for what HMAC-SHA1 returns: a function of key and message
/// alone. Relied on through `hmac_sha1` below.
pub uninterp spec fn hmac_sha1_of(key: Seq<u8>, data: Seq<u8>) -> Seq<u8>;

/// Relies on `hmac::Hmac` over `sha1::Sha1`: the authentication code is a
/// function of key and message alone, 20 bytes long (the SHA-1 output
/// size). Any key length is accepted.
#[verifier::external_body]
fn hmac_sha1(key: &[u8], data: &[u8]) -> (r: Vec<u8>)
    ensures
        r@ == hmac_sha1_of(key@, data@),
        r@.len() == 20,
{
    let mut mac: hmac::Hmac<sha1::Sha1> = hmac::Hmac::new_from_slice(key).unwrap();
    mac.update(data);
    mac.finalize().into_bytes().to_vec()
}

/// A name for standard base64 with padding. Relied on through
/// `base64_encode` below.
pub uninterp spec fn base64_of(data: Seq<u8>) -> Seq<char>;

/// Relies on `base64`'s standard engine: alphabet `A-Za-z0-9+/` with `=`
/// padding, so the output length is exactly `4 * ceil(n / 3)`. The length
/// bound keeps the engine's internal size computation from overflowing.
#[verifier::external_body]
fn base64_encode(data: &[u8]) -> (r: String)
    requires
        data@.len() <= usize::MAX / 4,
    ensures
        r@ == base64_of(data@),
        r@.len() == 4 * ((data@.len() + 2) / 3),
        ascii_seq(r@),
{
    base64::engine::general_purpose::STANDARD.encode(data)
}

/// Mathematical model of one request parameter.
pub ghost struct PairView {
    pub key: Seq<char>,
    pub value: Seq<char>,
}

/// One request parameter: a key and a value, both still unencoded.
#[derive(Debug)]
pub struct OauthParam {
    pub key: String,
    pub value: String,
}

impl View for OauthParam {
    type V = PairView;

    open spec fn view(&self) -> PairView {
        PairView { key: self.key@, value: self.value@ }
    }
}

impl Clone for OauthParam {
    fn clone(&self) -> (r: Self)
        ensures
            r@ == self@,
    {
        OauthParam { key: self.key.clone(), value: self.value.clone() }
    }
}

impl OauthParam {
    pub fn new(key: String, value: String) -> (r: OauthParam)
        ensures
            r@.key == key@,
            r@.value == value@,
    {
        OauthParam { key, value }
    }
}

/// Both sides of every parameter percent-encoded.
pub open spec fn enc_pairs(ps: Seq<PairView>) -> Seq<PairView> {
    ps.map_values(
        |p: PairView| PairView {
            key: spec_percent_encode(p.key),
            value: spec_percent_encode(p.value),
        },
    )
}

pub open spec fn all_ascii_pairs(ps: Seq<PairView>) -> bool {
    forall|i: int|
        0 <= i < ps.len() ==> ascii_seq((#[trigger] ps[i]).key) && ascii_seq(ps[i].value)
}

/// Insertion into a key-sorted run, preserving the order of equal keys.
pub open spec fn insert_sorted(p: PairView, s: Seq<PairView>) -> Seq<PairView>
    decreases s.len(),
{
    if s.len() == 0 {
        seq![p]
    } else if lex_le(p.key, s[0].key) && p.key != s[0].key {
        seq![p] + s
    } else {
        seq![s[0]] + insert_sorted(p, s.drop_first())
    }
}

/// Insertion sort by key, lexicographically.
pub open spec fn sort_pairs(s: Seq<PairView>) -> Seq<PairView>
    decreases s.len(),
{
    if s.len() == 0 {
        Seq::empty()
    } else {
        insert_sorted(s.last(), sort_pairs(s.drop_last()))
    }
}

/// `key=value` pairs joined with `&`.
pub open spec fn spec_param_string(ps: Seq<PairView>) -> Seq<char>
    decreases ps.len(),
{
    if ps.len() == 0 {
        Seq::empty()
    } else if ps.len() == 1 {
        ps[0].key + seq!['='] + ps[0].value
    } else {
        spec_param_string(ps.drop_last()) + seq!['&'] + ps.last().key + seq!['='] + ps.last().value
    }
}

/// The OAuth signing base string: method, encoded URL and encoded,
/// key-sorted parameter string, joined with `&`.
pub open spec fn spec_base_string(
    method: Seq<char>,
    url: Seq<char>,
    params: Seq<PairView>,
) -> Seq<char> {
    method + seq!['&'] + spec_percent_encode(url) + seq!['&'] + spec_percent_encode(
        spec_param_string(sort_pairs(enc_pairs(params))),
    )
}

fn exec_insert_sorted(sorted: &mut Vec<OauthParam>, p: OauthParam)
    ensures
        final(sorted)@.map_values(|q: OauthParam| q@) =~= insert_sorted(
            p@,
            old(sorted)@.map_values(|q: OauthParam| q@),
        ),
{
    let ghost sv = old(sorted)@.map_values(|q: OauthParam| q@);
    let n = sorted.len();
    let mut i: usize = 0;
    while i < n
        invariant
            n == sorted.len(),
            i <= n,
            sv == sorted@.map_values(|q: OauthParam| q@),
            sv == old(sorted)@.map_values(|q: OauthParam| q@),
            sv.len() == n,
            forall|k: int| 0 <= k < n ==> sv[k] == (#[trigger] sorted@[k])@,
            forall|k: int|
                0 <= k < i ==> !(lex_le(p@.key, (#[trigger] sv[k]).key) && p@.key != sv[k].key),
        decreases n - i,
    {
        let cur = &sorted[i];
        let before = str_le(p.key.as_str(), cur.key.as_str());
        let equal = p.key.eq(&cur.key);
        if before && !equal {
            let ghost ip = i as int;
            let ghost ev = sorted@;
            sorted.insert(i, p);
            proof {
                ev.insert_ensures(ip, p);
                lemma_insert_at(sv, p@, ip);
                assert forall|k: int| 0 <= k < sorted@.len() implies (#[trigger] sorted@[k])@
                    == insert_sorted(p@, sv)[k] by {
                    if k < ip {
                        assert(sorted@[k] == ev[k]);
                        assert(insert_sorted(p@, sv)[k] == sv.subrange(0, ip)[k]);
                    } else if k == ip {
                        assert(sorted@[k] == p);
                    } else {
                        assert(sorted@[k] == ev[k - 1]);
                        assert(insert_sorted(p@, sv)[k] == sv.subrange(ip, sv.len() as int)[k - ip
                            - 1]);
                    }
                }
                assert(sorted@.map_values(|q: OauthParam| q@) =~= insert_sorted(p@, sv));
            }
            return ;
        }
        i = i + 1;
    }
    sorted.push(p);
    proof {
        lemma_insert_at_end(sv, p@);
        assert(sorted@.map_values(|q: OauthParam| q@) =~= sv.push(p@));
    }
}

/// Where no earlier slot admits `p`, inserting at `i` is what the
/// recursive insertion produces.
proof fn lemma_insert_at(s: Seq<PairView>, p: PairView, i: int)
    requires
        0 <= i < s.len(),
        forall|k: int| 0 <= k < i ==> !(lex_le(p.key, (#[trigger] s[k]).key) && p.key != s[k].key),
        lex_le(p.key, s[i].key) && p.key != s[i].key,
    ensures
        insert_sorted(p, s) =~= s.subrange(0, i) + seq![p] + s.subrange(i, s.len() as int),
    decreases s.len(),
{
    if i == 0 {
        assert(s.subrange(0, 0) =~= Seq::<PairView>::empty());
        assert(s.subrange(0, s.len() as int) =~= s);
    } else {
        lemma_insert_at(s.drop_first(), p, i - 1);
        assert(s.drop_first().subrange(0, i - 1) =~= s.subrange(1, i));
        assert(s.drop_first().subrange(i - 1, s.drop_first().len() as int) =~= s.subrange(
            i,
            s.len() as int,
        ));
        assert(insert_sorted(p, s) =~= seq![s[0]] + insert_sorted(p, s.drop_first()));
        assert(seq![s[0]] + (s.subrange(1, i) + seq![p] + s.subrange(i, s.len() as int)) =~= s
            .subrange(0, i) + seq![p] + s.subrange(i, s.len() as int));
    }
}

proof fn lemma_insert_at_end(s: Seq<PairView>, p: PairView)
    requires
        forall|k: int|
            0 <= k < s.len() ==> !(lex_le(p.key, (#[trigger] s[k]).key) && p.key != s[k].key),
    ensures
        insert_sorted(p, s) =~= s.push(p),
    decreases s.len(),
{
    if s.len() > 0 {
        lemma_insert_at_end(s.drop_first(), p);
        assert(insert_sorted(p, s) =~= seq![s[0]] + insert_sorted(p, s.drop_first()));
        assert(seq![s[0]] + s.drop_first().push(p) =~= s.push(p));
    }
}

/// The parameters sorted by key: insertion sort, matching `sort_pairs`.
fn sort_params(params: &Vec<OauthParam>) -> (r: Vec<OauthParam>)
    ensures
        r@.map_values(|q: OauthParam| q@) =~= sort_pairs(
            params@.map_values(|q: OauthParam| q@),
        ),
{
    let ghost pv = params@.map_values(|q: OauthParam| q@);
    let mut sorted: Vec<OauthParam> = Vec::new();
    let n = params.len();
    let mut i: usize = 0;
    proof {
        assert(pv.take(0) =~= Seq::<PairView>::empty());
    }
    while i < n
        invariant
            n == params.len(),
            i <= n,
            pv == params@.map_values(|q: OauthParam| q@),
            pv.len() == n,
            forall|k: int| 0 <= k < n ==> pv[k] == (#[trigger] params@[k])@,
            sorted@.map_values(|q: OauthParam| q@) =~= sort_pairs(pv.take(i as int)),
        decreases n - i,
    {
        exec_insert_sorted(&mut sorted, params[i].clone());
        proof {
            assert(pv.take(i + 1).drop_last() =~= pv.take(i as int));
            assert(pv.take(i + 1).last() == pv[i as int]);
        }
        i = i + 1;
    }
    proof {
        assert(pv.take(n as int) =~= pv);
    }
    sorted
}

fn append_str(s: &mut String, t: &str)
    ensures
        final(s)@ == old(s)@ + t@,
{
    s.append(t)
}

/// The OAuth signing base string for one request: percent-encode every
/// key and value, sort the pairs lexicographically by encoded key, join
/// them as `key=value` pairs with `&`, and prefix the HTTP method and the
/// encoded URL. Exact for ASCII inputs, as OAuth credentials and request
/// parameters are.
pub fn signature_base_string(method: &str, url: &str, params: &Vec<OauthParam>) -> (r: String)
    ensures
        ascii_seq(url@) && all_ascii_pairs(params@.map_values(|q: OauthParam| q@)) ==> r@
            == spec_base_string(method@, url@, params@.map_values(|q: OauthParam| q@)),
{
    let ghost pv = params@.map_values(|q: OauthParam| q@);
    let ghost want_enc = enc_pairs(pv);
    let mut encoded: Vec<OauthParam> = Vec::new();
    let n = params.len();
    let mut i: usize = 0;
    while i < n
        invariant
            n == params.len(),
            i <= n,
            pv == params@.map_values(|q: OauthParam| q@),
            pv.len() == n,
            forall|k: int| 0 <= k < n ==> pv[k] == (#[trigger] params@[k])@,
            encoded@.len() == i,
            all_ascii_pairs(pv) ==> forall|k: int|
                0 <= k < i ==> (#[trigger] encoded@[k])@ == enc_pairs(pv)[k],
        decreases n - i,
    {
        let p = &params[i];
        let ek = urlencode(p.key.as_str());
        let ev = urlencode(p.value.as_str());
        encoded.push(OauthParam { key: ek, value: ev });
        i = i + 1;
    }
    let sorted = sort_params(&encoded);
    proof {
        if ascii_seq(url@) && all_ascii_pairs(pv) {
            assert(encoded@.map_values(|q: OauthParam| q@) =~= enc_pairs(pv));
        }
    }
    let mut joined = String::new();
    let m = sorted.len();
    let ghost sv = sorted@.map_values(|q: OauthParam| q@);
    let mut j: usize = 0;
    while j < m
        invariant
            m == sorted.len(),
            j <= m,
            sv == sorted@.map_values(|q: OauthParam| q@),
            sv.len() == m,
            forall|k: int| 0 <= k < m ==> sv[k] == (#[trigger] sorted@[k])@,
            j == 0 ==> joined@ == Seq::<char>::empty(),
            j > 0 ==> joined@ == spec_param_string(sv.take(j as int)),
        decreases m - j,
    {
        proof {
            reveal_strlit("&");
            reveal_strlit("=");
        }
        if j > 0 {
            append_str(&mut joined, "&");
        }
        append_str(&mut joined, sorted[j].key.as_str());
        append_str(&mut joined, "=");
        append_str(&mut joined, sorted[j].value.as_str());
        proof {
            assert(sv.take(j + 1).drop_last() =~= sv.take(j as int));
            assert(sv.take(j + 1).last() == sv[j as int]);
            assert("&"@ =~= seq!['&']);
            assert("="@ =~= seq!['=']);
            if j == 0 {
                assert(joined@ =~= sv[0].key + seq!['='] + sv[0].value);
                assert(sv.take(1)[0] == sv[0]);
            }
        }
        j = j + 1;
    }
    proof {
        assert(sv.take(m as int) =~= sv);
        if m == 0 {
            assert(spec_param_string(sv) =~= Seq::<char>::empty());
        }
    }
    let enc_url = urlencode(url);
    let enc_params = urlencode(joined.as_str());
    let mut base = String::new();
    append_str(&mut base, method);
    proof {
        reveal_strlit("&");
    }
    append_str(&mut base, "&");
    append_str(&mut base, enc_url.as_str());
    append_str(&mut base, "&");
    append_str(&mut base, enc_params.as_str());
    proof {
        assert("&"@ =~= seq!['&']);
        if ascii_seq(url@) && all_ascii_pairs(pv) {
            lemma_enc_pairs_ascii(pv);
            lemma_sort_preserves_ascii(enc_pairs(pv));
            lemma_param_string_ascii(sv);
            assert(base@ =~= spec_base_string(method@, url@, pv));
        }
    }
    base
}

proof fn lemma_insert_preserves_ascii(p: PairView, s: Seq<PairView>)
    requires
        ascii_seq(p.key),
        ascii_seq(p.value),
        forall|i: int|
            0 <= i < s.len() ==> ascii_seq((#[trigger] s[i]).key) && ascii_seq(s[i].value),
    ensures
        forall|i: int|
            0 <= i < insert_sorted(p, s).len() ==> ascii_seq(
                (#[trigger] insert_sorted(p, s)[i]).key,
            ) && ascii_seq(insert_sorted(p, s)[i].value),
    decreases s.len(),
{
    let out = insert_sorted(p, s);
    if s.len() == 0 {
        assert(out[0] == p);
    } else if lex_le(p.key, s[0].key) && p.key != s[0].key {
        assert forall|i: int| 0 <= i < out.len() implies ascii_seq((#[trigger] out[i]).key)
            && ascii_seq(out[i].value) by {
            if i == 0 {
                assert(out[0] == p);
            } else {
                assert(out[i] == s[i - 1]);
            }
        }
    } else {
        assert(forall|i: int| 0 <= i < s.drop_first().len() ==> s.drop_first()[i] == s[i + 1]);
        lemma_insert_preserves_ascii(p, s.drop_first());
        let rest = insert_sorted(p, s.drop_first());
        assert forall|i: int| 0 <= i < out.len() implies ascii_seq((#[trigger] out[i]).key)
            && ascii_seq(out[i].value) by {
            if i == 0 {
                assert(out[0] == s[0]);
            } else {
                assert(out[i] == rest[i - 1]);
            }
        }
    }
}

proof fn lemma_sort_preserves_ascii(s: Seq<PairView>)
    requires
        forall|i: int|
            0 <= i < s.len() ==> ascii_seq((#[trigger] s[i]).key) && ascii_seq(s[i].value),
    ensures
        forall|i: int|
            0 <= i < sort_pairs(s).len() ==> ascii_seq((#[trigger] sort_pairs(s)[i]).key)
                && ascii_seq(sort_pairs(s)[i].value),
    decreases s.len(),
{
    if s.len() > 0 {
        assert(forall|i: int| 0 <= i < s.drop_last().len() ==> s.drop_last()[i] == s[i]);
        lemma_sort_preserves_ascii(s.drop_last());
        assert(s.last() == s[s.len() - 1]);
        lemma_insert_preserves_ascii(s.last(), sort_pairs(s.drop_last()));
    }
}

proof fn lemma_enc_pairs_ascii(ps: Seq<PairView>)
    requires
        all_ascii_pairs(ps),
    ensures
        forall|i: int|
            0 <= i < enc_pairs(ps).len() ==> ascii_seq((#[trigger] enc_pairs(ps)[i]).key)
                && ascii_seq(enc_pairs(ps)[i].value),
{
    assert forall|i: int| 0 <= i < enc_pairs(ps).len() implies ascii_seq(
        (#[trigger] enc_pairs(ps)[i]).key,
    ) && ascii_seq(enc_pairs(ps)[i].value) by {
        lemma_percent_encode_ascii(ps[i].key);
        lemma_percent_encode_ascii(ps[i].value);
    }
}

/// Percent-encoded text is ASCII; joining ASCII pairs stays ASCII.
proof fn lemma_enc_char_ascii(c: char)
    requires
        '\0' <= c <= '\u{7f}',
    ensures
        ascii_seq(enc_char(c)),
{
    let e = enc_char(c);
    assert(forall|i: int| 0 <= i < e.len() ==> '\0' <= #[trigger] e[i] <= '\u{7f}');
}

proof fn lemma_percent_encode_ascii(s: Seq<char>)
    requires
        ascii_seq(s),
    ensures
        ascii_seq(spec_percent_encode(s)),
    decreases s.len(),
{
    if s.len() > 0 {
        assert(ascii_seq(s.drop_last())) by {
            assert(forall|i: int| 0 <= i < s.drop_last().len() ==> s.drop_last()[i] == s[i]);
        }
        lemma_percent_encode_ascii(s.drop_last());
        lemma_enc_char_ascii(s.last());
        let whole = spec_percent_encode(s);
        let head = spec_percent_encode(s.drop_last());
        let tail = enc_char(s.last());
        assert forall|i: int| 0 <= i < whole.len() implies '\0' <= #[trigger] whole[i]
            <= '\u{7f}' by {
            if i < head.len() {
                assert(whole[i] == head[i]);
            } else {
                assert(whole[i] == tail[i - head.len()]);
            }
        }
    }
}

/// Every pair of a sorted run of encoded ASCII pairs is ASCII, and so is
/// the joined parameter string.
proof fn lemma_param_string_ascii(ps: Seq<PairView>)
    requires
        forall|i: int|
            0 <= i < ps.len() ==> ascii_seq((#[trigger] ps[i]).key) && ascii_seq(ps[i].value),
    ensures
        ascii_seq(spec_param_string(ps)),
    decreases ps.len(),
{
    if ps.len() == 0 {
    } else if ps.len() == 1 {
        let whole = spec_param_string(ps);
        assert forall|i: int| 0 <= i < whole.len() implies '\0' <= #[trigger] whole[i]
            <= '\u{7f}' by {
            if i < ps[0].key.len() {
                assert(whole[i] == ps[0].key[i]);
            } else if i == ps[0].key.len() {
                assert(whole[i] == '=');
            } else {
                assert(whole[i] == ps[0].value[i - ps[0].key.len() - 1]);
            }
        }
    } else {
        assert(forall|i: int| 0 <= i < ps.drop_last().len() ==> ps.drop_last()[i] == ps[i]);
        lemma_param_string_ascii(ps.drop_last());
        let whole = spec_param_string(ps);
        let head = spec_param_string(ps.drop_last());
        let k = ps.last().key;
        let v = ps.last().value;
        assert(ps.last() == ps[ps.len() - 1]);
        assert forall|i: int| 0 <= i < whole.len() implies '\0' <= #[trigger] whole[i]
            <= '\u{7f}' by {
            if i < head.len() {
                assert(whole[i] == head[i]);
            } else if i == head.len() {
                assert(whole[i] == '&');
            } else if i < head.len() + 1 + k.len() {
                assert(whole[i] == k[i - head.len() - 1]);
            } else if i == head.len() + 1 + k.len() {
                assert(whole[i] == '=');
            } else {
                assert(whole[i] == v[i - head.len() - 1 - k.len() - 1]);
            }
        }
    }
}

/// The signing key: encoded consumer secret and encoded token secret,
/// joined with `&`.
pub fn signing_key(consumer_secret: &str, token_secret: &str) -> (r: String)
    ensures
        ascii_seq(consumer_secret@) && ascii_seq(token_secret@) ==> r@ == spec_percent_encode(
            consumer_secret@,
        ) + seq!['&'] + spec_percent_encode(token_secret@),
{
    let mut key = urlencode(consumer_secret);
    proof {
        reveal_strlit("&");
    }
    append_str(&mut key, "&");
    let ts = urlencode(token_secret);
    append_str(&mut key, ts.as_str());
    proof {
        assert("&"@ =~= seq!['&']);
    }
    key
}

/// HMAC-SHA1 over `message` with `key`, base64-encoded: the textual
/// signature OAuth puts on the wire.
pub fn signed_digest(key: &[u8], message: &[u8]) -> (r: String)
    ensures
        r@ == base64_of(hmac_sha1_of(key@, message@)),
        r@.len() == 28,
        ascii_seq(r@),
{
    let mac = hmac_sha1(key, message);
    base64_encode(mac.as_slice())
}

/// The bytes of an ASCII string, character by character.
pub open spec fn spec_ascii_bytes(s: Seq<char>) -> Seq<u8> {
    Seq::new(s.len(), |i: int| s[i] as u8)
}

/// The six protocol parameters of one signed request.
pub open spec fn spec_oauth_params(
    consumer_key: Seq<char>,
    nonce: Seq<char>,
    sig_method: Seq<char>,
    timestamp: Seq<char>,
    token: Seq<char>,
    version: Seq<char>,
) -> Seq<PairView> {
    seq![
        PairView { key: "oauth_consumer_key"@, value: consumer_key },
        PairView { key: "oauth_nonce"@, value: nonce },
        PairView { key: "oauth_signature_method"@, value: sig_method },
        PairView { key: "oauth_timestamp"@, value: timestamp },
        PairView { key: "oauth_token"@, value: token },
        PairView { key: "oauth_version"@, value: version },
    ]
}

/// Encoded `k="v"` pairs joined with `, `.
pub open spec fn spec_header_join(ps: Seq<PairView>) -> Seq<char>
    decreases ps.len(),
{
    if ps.len() == 0 {
        Seq::empty()
    } else if ps.len() == 1 {
        ps[0].key + seq!['=', '"'] + ps[0].value + seq!['"']
    } else {
        spec_header_join(ps.drop_last()) + seq![',', ' '] + ps.last().key + seq!['=', '"']
            + ps.last().value + seq!['"']
    }
}

proof fn lemma_ascii_plus(a: Seq<char>, b: Seq<char>)
    requires
        ascii_seq(a),
        ascii_seq(b),
    ensures
        ascii_seq(a + b),
{
    let c = a + b;
    assert forall|i: int| 0 <= i < c.len() implies '\0' <= #[trigger] c[i] <= '\u{7f}' by {
        if i < a.len() {
            assert(c[i] == a[i]);
        } else {
            assert(c[i] == b[i - a.len()]);
        }
    }
}

/// The full `OAuth k="v", ...` authorization header for one request:
/// build the parameter set, percent-encode, sort, sign the base string
/// with HMAC-SHA1 under the encoded secrets, and emit the protocol
/// parameters together with the signature, re-sorted. The nonce and the
/// timestamp are inputs: the caller draws the nonce and reads the clock.
#[verifier::loop_isolation(false)]
pub fn authorization_header(
    consumer_key: &str,
    consumer_secret: &str,
    sig_method: &str,
    token: &str,
    token_secret: &str,
    version: &str,
    nonce: &str,
    timestamp: &str,
    method: &str,
    url: &str,
    extra_params: &Vec<OauthParam>,
) -> (r: String)
    ensures
        ({
            &&& ascii_seq(consumer_key@)
            &&& ascii_seq(consumer_secret@)
            &&& ascii_seq(sig_method@)
            &&& ascii_seq(token@)
            &&& ascii_seq(token_secret@)
            &&& ascii_seq(version@)
            &&& ascii_seq(nonce@)
            &&& ascii_seq(timestamp@)
            &&& ascii_seq(method@)
            &&& ascii_seq(url@)
            &&& all_ascii_pairs(extra_params@.map_values(|q: OauthParam| q@))
        }) ==> r@ == spec_authorization_header(
            consumer_key@,
            consumer_secret@,
            sig_method@,
            token@,
            token_secret@,
            version@,
            nonce@,
            timestamp@,
            method@,
            url@,
            extra_params@.map_values(|q: OauthParam| q@),
        ),
{
    broadcast use vstd::string::is_ascii_spec_bytes;

    let ghost all_ascii = ascii_seq(consumer_key@) && ascii_seq(consumer_secret@) && ascii_seq(
        sig_method@,
    ) && ascii_seq(token@) && ascii_seq(token_secret@) && ascii_seq(version@) && ascii_seq(nonce@)
        && ascii_seq(timestamp@) && ascii_seq(method@) && ascii_seq(url@) && all_ascii_pairs(
        extra_params@.map_values(|q: OauthParam| q@),
    );
    let mut oauth_fields: Vec<OauthParam> = Vec::new();
    oauth_fields.push(
        OauthParam {
            key: String::from_str("oauth_consumer_key"),
            value: String::from_str(consumer_key),
        },
    );
    oauth_fields.push(
        OauthParam { key: String::from_str("oauth_nonce"), value: String::from_str(nonce) },
    );
    oauth_fields.push(
        OauthParam {
            key: String::from_str("oauth_signature_method"),
            value: String::from_str(sig_method),
        },
    );
    oauth_fields.push(
        OauthParam { key: String::from_str("oauth_timestamp"), value: String::from_str(timestamp) },
    );
    oauth_fields.push(
        OauthParam { key: String::from_str("oauth_token"), value: String::from_str(token) },
    );
    oauth_fields.push(
        OauthParam { key: String::from_str("oauth_version"), value: String::from_str(version) },
    );
    let ghost oauth_pv = spec_oauth_params(
        consumer_key@,
        nonce@,
        sig_method@,
        timestamp@,
        token@,
        version@,
    );
    proof {
        assert(oauth_fields@.map_values(|q: OauthParam| q@) =~= oauth_pv);
    }
    let mut fields: Vec<OauthParam> = Vec::new();
    let mut i: usize = 0;
    while i < oauth_fields.len()
        invariant
            i <= oauth_fields@.len(),
            fields@.len() == i,
            forall|k: int| 0 <= k < i ==> (#[trigger] fields@[k])@ == oauth_fields@[k]@,
        decreases oauth_fields@.len() - i,
    {
        fields.push(oauth_fields[i].clone());
        i = i + 1;
    }
    let mut j: usize = 0;
    while j < extra_params.len()
        invariant
            j <= extra_params@.len(),
            fields@.len() == oauth_fields@.len() + j,
            forall|k: int|
                0 <= k < oauth_fields@.len() ==> (#[trigger] fields@[k])@ == oauth_fields@[k]@,
            forall|k: int|
                oauth_fields@.len() <= k < oauth_fields@.len() + j ==> (#[trigger] fields@[k])@
                    == extra_params@[k - oauth_fields@.len()]@,
        decreases extra_params@.len() - j,
    {
        fields.push(extra_params[j].clone());
        j = j + 1;
    }
    let ghost all_pv = oauth_pv + extra_params@.map_values(|q: OauthParam| q@);
    proof {
        assert(fields@.map_values(|q: OauthParam| q@) =~= all_pv);
    }
    let base = signature_base_string(method, url, &fields);
    let key = signing_key(consumer_secret, token_secret);
    let ghost key_chars = spec_percent_encode(consumer_secret@) + seq!['&'] + spec_percent_encode(
        token_secret@,
    );
    let ghost base_chars = spec_base_string(method@, url@, all_pv);
    proof {
        if all_ascii {
            assert(all_ascii_pairs(all_pv)) by {
                assert forall|k: int| 0 <= k < all_pv.len() implies ascii_seq(
                    (#[trigger] all_pv[k]).key,
                ) && ascii_seq(all_pv[k].value) by {
                    if k >= oauth_pv.len() {
                        assert(all_pv[k] == extra_params@.map_values(|q: OauthParam| q@)[k
                            - oauth_pv.len()]);
                    } else {
                        reveal_strlit("oauth_consumer_key");
                        reveal_strlit("oauth_nonce");
                        reveal_strlit("oauth_signature_method");
                        reveal_strlit("oauth_timestamp");
                        reveal_strlit("oauth_token");
                        reveal_strlit("oauth_version");
                    }
                }
            }
            assert(base@ == base_chars);
            assert(key@ == key_chars);
            lemma_percent_encode_ascii(consumer_secret@);
            lemma_percent_encode_ascii(token_secret@);
            assert(ascii_seq(seq!['&']));
            lemma_ascii_plus(spec_percent_encode(consumer_secret@), seq!['&']);
            lemma_ascii_plus(
                spec_percent_encode(consumer_secret@) + seq!['&'],
                spec_percent_encode(token_secret@),
            );
            assert(ascii_seq(key@));
            lemma_percent_encode_ascii(url@);
            lemma_enc_pairs_ascii(all_pv);
            lemma_sort_preserves_ascii(enc_pairs(all_pv));
            lemma_param_string_ascii(sort_pairs(enc_pairs(all_pv)));
            lemma_percent_encode_ascii(spec_param_string(sort_pairs(enc_pairs(all_pv))));
            lemma_ascii_plus(method@, seq!['&']);
            lemma_ascii_plus(method@ + seq!['&'], spec_percent_encode(url@));
            lemma_ascii_plus(method@ + seq!['&'] + spec_percent_encode(url@), seq!['&']);
            lemma_ascii_plus(
                method@ + seq!['&'] + spec_percent_encode(url@) + seq!['&'],
                spec_percent_encode(spec_param_string(sort_pairs(enc_pairs(all_pv)))),
            );
            assert(ascii_seq(base@));
            lemma_ascii_bytes(key@);
            lemma_ascii_bytes(base@);
        }
    }
    let key_bytes = key.as_str().as_bytes();
    let base_bytes = base.as_str().as_bytes();
    let sig = signed_digest(key_bytes, base_bytes);
    proof {
        if all_ascii {
            assert(key_bytes@ == spec_ascii_bytes(key_chars));
            assert(base_bytes@ == spec_ascii_bytes(base_chars));
        }
    }
    let mut header_fields = oauth_fields;
    header_fields.push(
        OauthParam { key: String::from_str("oauth_signature"), value: sig },
    );
    let ghost sig_chars = base64_of(
        hmac_sha1_of(spec_ascii_bytes(key_chars), spec_ascii_bytes(base_chars)),
    );
    let ghost header_pv = oauth_pv.push(
        PairView { key: "oauth_signature"@, value: sig_chars },
    );
    proof {
        if all_ascii {
            assert(header_fields@.map_values(|q: OauthParam| q@) =~= header_pv);
            reveal_strlit("oauth_signature");
            assert(ascii_seq("oauth_signature"@));
            assert forall|k2: int| 0 <= k2 < header_pv.len() implies ascii_seq(
                (#[trigger] header_pv[k2]).key,
            ) && ascii_seq(header_pv[k2].value) by {
                if k2 < oauth_pv.len() {
                    assert(header_pv[k2] == all_pv[k2]);
                } else {
                    assert(header_pv[k2] == PairView { key: "oauth_signature"@, value: sig_chars });
                    assert(sig@ == sig_chars);
                }
            }
            assert(all_ascii_pairs(header_pv));
        }
    }
    let mut encoded: Vec<OauthParam> = Vec::new();
    let m = header_fields.len();
    let mut k: usize = 0;
    while k < m
        invariant
            m == header_fields.len(),
            k <= m,
            all_ascii == (ascii_seq(consumer_key@) && ascii_seq(consumer_secret@) && ascii_seq(
                sig_method@,
            ) && ascii_seq(token@) && ascii_seq(token_secret@) && ascii_seq(version@) && ascii_seq(
                nonce@,
            ) && ascii_seq(timestamp@) && ascii_seq(method@) && ascii_seq(url@) && all_ascii_pairs(
                extra_params@.map_values(|q: OauthParam| q@),
            )),
            all_ascii ==> header_fields@.map_values(|q: OauthParam| q@) =~= header_pv,
            all_ascii ==> all_ascii_pairs(header_pv),
            encoded@.len() == k,
            all_ascii ==> forall|t: int|
                0 <= t < k ==> (#[trigger] encoded@[t])@ == enc_pairs(header_pv)[t],
        decreases m - k,
    {
        let p = &header_fields[k];
        let ek = urlencode(p.key.as_str());
        let ev = urlencode(p.value.as_str());
        encoded.push(OauthParam { key: ek, value: ev });
        k = k + 1;
    }
    let sorted = sort_params(&encoded);
    let ghost hv = sort_pairs(enc_pairs(header_pv));
    proof {
        if all_ascii {
            assert(encoded@.map_values(|q: OauthParam| q@) =~= enc_pairs(header_pv));
        }
    }
    proof {
        reveal_strlit("OAuth ");
    }
    let mut header = String::from_str("OAuth ");
    let n2 = sorted.len();
    let ghost sv = sorted@.map_values(|q: OauthParam| q@);
    let mut t: usize = 0;
    while t < n2
        invariant
            n2 == sorted.len(),
            t <= n2,
            sv == sorted@.map_values(|q: OauthParam| q@),
            sv.len() == n2,
            forall|u: int| 0 <= u < n2 ==> sv[u] == (#[trigger] sorted@[u])@,
            t == 0 ==> header@ == "OAuth "@,
            t > 0 ==> header@ == "OAuth "@ + spec_header_join(sv.take(t as int)),
        decreases n2 - t,
    {
        proof {
            reveal_strlit(", ");
            reveal_strlit("=\"");
            reveal_strlit("\"");
        }
        if t > 0 {
            append_str(&mut header, ", ");
        }
        append_str(&mut header, sorted[t].key.as_str());
        append_str(&mut header, "=\"");
        append_str(&mut header, sorted[t].value.as_str());
        append_str(&mut header, "\"");
        proof {
            assert(sv.take(t + 1).drop_last() =~= sv.take(t as int));
            assert(sv.take(t + 1).last() == sv[t as int]);
            assert(", "@ =~= seq![',', ' ']);
            assert("=\""@ =~= seq!['=', '"']);
            assert("\""@ =~= seq!['"']);
            if t == 0 {
                assert(sv.take(1)[0] == sv[0]);
                assert(header@ =~= "OAuth "@ + (sv[0].key + seq!['=', '"'] + sv[0].value
                    + seq!['"']));
            } else {
                assert(header@ =~= "OAuth "@ + spec_header_join(sv.take(t + 1)));
            }
        }
        t = t + 1;
    }
    proof {
        assert(sv.take(n2 as int) =~= sv);
        if all_ascii {
            assert(sv =~= hv);
            if n2 == 0 {
                assert(spec_header_join(sv) =~= Seq::<char>::empty());
                assert(header@ =~= "OAuth "@ + spec_header_join(hv));
            }
            assert(header@ == "OAuth "@ + spec_header_join(hv));
        }
    }
    header
}

/// What the header is, assembled from the named results of the encoder,
/// the digest and the base64 step.
pub open spec fn spec_authorization_header(
    consumer_key: Seq<char>,
    consumer_secret: Seq<char>,
    sig_method: Seq<char>,
    token: Seq<char>,
    token_secret: Seq<char>,
    version: Seq<char>,
    nonce: Seq<char>,
    timestamp: Seq<char>,
    method: Seq<char>,
    url: Seq<char>,
    extra: Seq<PairView>,
) -> Seq<char> {
    let params = spec_oauth_params(consumer_key, nonce, sig_method, timestamp, token, version);
    let key = spec_percent_encode(consumer_secret) + seq!['&'] + spec_percent_encode(token_secret);
    let base = spec_base_string(method, url, params + extra);
    let sig = base64_of(hmac_sha1_of(spec_ascii_bytes(key), spec_ascii_bytes(base)));
    "OAuth "@ + spec_header_join(
        sort_pairs(enc_pairs(params.push(PairView { key: "oauth_signature"@, value: sig }))),
    )
}

/// For ASCII text, UTF-8 encoding is the characters themselves, byte for
/// byte.
proof fn lemma_ascii_bytes(s: Seq<char>)
    requires
        ascii_seq(s),
    ensures
        vstd::utf8::encode_utf8(s) =~= spec_ascii_bytes(s),
{
    vstd::utf8::is_ascii_chars_encode_utf8(s);
}

/// The parameters stand in key order.
pub open spec fn sorted_by_key(s: Seq<PairView>) -> bool {
    forall|i: int, j: int|
        0 <= i < j < s.len() ==> lex_le((#[trigger] s[i]).key, (#[trigger] s[j]).key)
}

/// No two parameters share a key.
pub open spec fn distinct_keys(s: Seq<PairView>) -> bool {
    forall|i: int, j: int|
        0 <= i < j < s.len() ==> (#[trigger] s[i]).key != (#[trigger] s[j]).key
}

proof fn lemma_lex_refl(a: Seq<char>)
    ensures
        lex_le(a, a),
    decreases a.len(),
{
    if a.len() > 0 {
        lemma_lex_refl(a.drop_first());
    }
}

proof fn lemma_insert_sorted_multiset(p: PairView, s: Seq<PairView>)
    ensures
        insert_sorted(p, s).to_multiset() =~= s.to_multiset().insert(p),
    decreases s.len(),
{
    broadcast use vstd::seq_lib::group_to_multiset_ensures;
    broadcast use vstd::multiset::group_multiset_axioms;

    if s.len() == 0 {
        assert(insert_sorted(p, s) =~= Seq::<PairView>::empty().push(p));
        assert(s.to_multiset() =~= Multiset::<PairView>::empty());
    } else if lex_le(p.key, s[0].key) && p.key != s[0].key {
        assert(insert_sorted(p, s) =~= seq![p] + s);
        vstd::seq_lib::lemma_multiset_commutative(seq![p], s);
        assert(seq![p] =~= Seq::<PairView>::empty().push(p));
    } else {
        lemma_insert_sorted_multiset(p, s.drop_first());
        assert(insert_sorted(p, s) =~= seq![s[0]] + insert_sorted(p, s.drop_first()));
        vstd::seq_lib::lemma_multiset_commutative(seq![s[0]], insert_sorted(p, s.drop_first()));
        assert(seq![s[0]] =~= Seq::<PairView>::empty().push(s[0]));
        assert(s =~= seq![s[0]] + s.drop_first());
        vstd::seq_lib::lemma_multiset_commutative(seq![s[0]], s.drop_first());
    }
}

/// Every element of the insertion is the inserted pair or one of the run.
proof fn lemma_insert_sorted_elements(p: PairView, s: Seq<PairView>)
    ensures
        forall|k: int|
            0 <= k < insert_sorted(p, s).len() ==> #[trigger] insert_sorted(p, s)[k] == p
                || s.contains(insert_sorted(p, s)[k]),
    decreases s.len(),
{
    let out = insert_sorted(p, s);
    if s.len() == 0 {
    } else if lex_le(p.key, s[0].key) && p.key != s[0].key {
        assert forall|k: int| 0 <= k < out.len() implies #[trigger] out[k] == p || s.contains(
            out[k],
        ) by {
            if k > 0 {
                assert(out[k] == s[k - 1]);
            }
        }
    } else {
        lemma_insert_sorted_elements(p, s.drop_first());
        let rest = insert_sorted(p, s.drop_first());
        assert forall|k: int| 0 <= k < out.len() implies #[trigger] out[k] == p || s.contains(
            out[k],
        ) by {
            if k == 0 {
                assert(out[0] == s[0]);
            } else {
                assert(out[k] == rest[k - 1]);
                if rest[k - 1] != p {
                    let w = choose|w: int|
                        0 <= w < s.drop_first().len() && s.drop_first()[w] == rest[k - 1];
                    assert(s[w + 1] == rest[k - 1]);
                }
            }
        }
    }
}

proof fn lemma_insert_sorted_sorted(p: PairView, s: Seq<PairView>)
    requires
        sorted_by_key(s),
    ensures
        sorted_by_key(insert_sorted(p, s)),
    decreases s.len(),
{
    let out = insert_sorted(p, s);
    if s.len() == 0 {
    } else if lex_le(p.key, s[0].key) && p.key != s[0].key {
        assert forall|i: int, j: int| 0 <= i < j < out.len() implies lex_le(
            (#[trigger] out[i]).key,
            (#[trigger] out[j]).key,
        ) by {
            if i == 0 {
                assert(out[j] == s[j - 1]);
                if j == 1 {
                    assert(out[j] == s[0]);
                } else {
                    assert(lex_le(s[0].key, s[j - 1].key));
                    lemma_lex_trans(p.key, s[0].key, s[j - 1].key);
                }
            } else {
                assert(out[i] == s[i - 1]);
                assert(out[j] == s[j - 1]);
            }
        }
    } else {
        assert(forall|i: int|
            0 <= i < s.drop_first().len() ==> #[trigger] s.drop_first()[i] == s[i + 1]);
        lemma_insert_sorted_sorted(p, s.drop_first());
        lemma_insert_sorted_elements(p, s.drop_first());
        let rest = insert_sorted(p, s.drop_first());
        // The head is at or before the inserted pair and all of the rest.
        assert(lex_le(s[0].key, p.key)) by {
            if p.key == s[0].key {
                lemma_lex_refl(p.key);
            } else {
                lemma_lex_total(p.key, s[0].key);
            }
        }
        assert forall|i: int, j: int| 0 <= i < j < out.len() implies lex_le(
            (#[trigger] out[i]).key,
            (#[trigger] out[j]).key,
        ) by {
            if i == 0 {
                assert(out[0] == s[0]);
                assert(out[j] == rest[j - 1]);
                if rest[j - 1] == p {
                } else {
                    let w = choose|w: int|
                        0 <= w < s.drop_first().len() && s.drop_first()[w] == rest[j - 1];
                    assert(s[w + 1] == rest[j - 1]);
                    assert(lex_le(s[0].key, s[w + 1].key));
                }
            } else {
                assert(out[i] == rest[i - 1]);
                assert(out[j] == rest[j - 1]);
            }
        }
    }
}

/// The sort orders by key and keeps exactly the given parameters.
pub proof fn lemma_sort_pairs_ensures(s: Seq<PairView>)
    ensures
        sorted_by_key(sort_pairs(s)),
        sort_pairs(s).to_multiset() =~= s.to_multiset(),
    decreases s.len(),
{
    broadcast use vstd::seq_lib::group_to_multiset_ensures;

    if s.len() > 0 {
        lemma_sort_pairs_ensures(s.drop_last());
        lemma_insert_sorted_sorted(s.last(), sort_pairs(s.drop_last()));
        lemma_insert_sorted_multiset(s.last(), sort_pairs(s.drop_last()));
        assert(s =~= s.drop_last().push(s.last()));
    }
}

/// A permutation of pairwise-distinct parameters is itself distinct.
proof fn lemma_distinct_keys_permutation(a: Seq<PairView>, b: Seq<PairView>)
    requires
        distinct_keys(a),
        a.to_multiset() == b.to_multiset(),
    ensures
        distinct_keys(b),
{
    broadcast use vstd::seq_lib::group_to_multiset_ensures;
    broadcast use vstd::multiset::group_multiset_axioms;

    assert(a.no_duplicates());
    a.lemma_multiset_has_no_duplicates();
    b.lemma_multiset_has_no_duplicates_conv();
    assert forall|i: int, j: int| 0 <= i < j < b.len() implies (#[trigger] b[i]).key != (
    #[trigger] b[j]).key by {
        assert(b[i] != b[j]);
        if b[i].key == b[j].key {
            assert(b.contains(b[i]) && b.contains(b[j]));
            assert(b.to_multiset().count(b[i]) > 0);
            assert(b.to_multiset().count(b[j]) > 0);
            assert(a.to_multiset().count(b[i]) > 0);
            assert(a.to_multiset().count(b[j]) > 0);
            assert(a.contains(b[i]) && a.contains(b[j]));
            let p = choose|p: int| 0 <= p < a.len() && a[p] == b[i];
            let q = choose|q: int| 0 <= q < a.len() && a[q] == b[j];
            assert(p != q);
        }
    }
}

/// Two key-sorted runs of the same distinct-keyed parameters are equal.
proof fn lemma_sorted_unique(a: Seq<PairView>, b: Seq<PairView>)
    requires
        sorted_by_key(a),
        sorted_by_key(b),
        distinct_keys(a),
        a.to_multiset() == b.to_multiset(),
    ensures
        a =~= b,
    decreases a.len(),
{
    broadcast use vstd::seq_lib::group_to_multiset_ensures;
    broadcast use vstd::multiset::group_multiset_axioms;

    assert(a.to_multiset().len() == a.len());
    assert(b.to_multiset().len() == b.len());
    assert(a.len() == b.len());
    if a.len() > 0 {
        assert(a.contains(a[0]));
        assert(a.to_multiset().count(a[0]) > 0);
        assert(b.to_multiset().count(a[0]) > 0);
        assert(b.contains(a[0]));
        let j = choose|j: int| 0 <= j < b.len() && b[j] == a[0];
        assert(lex_le(b[0].key, a[0].key)) by {
            if j == 0 {
                lemma_lex_refl(a[0].key);
            }
        }
        assert(b.contains(b[0]));
        assert(b.to_multiset().count(b[0]) > 0);
        assert(a.to_multiset().count(b[0]) > 0);
        assert(a.contains(b[0]));
        let i = choose|i: int| 0 <= i < a.len() && a[i] == b[0];
        assert(lex_le(a[0].key, b[0].key)) by {
            if i == 0 {
                lemma_lex_refl(a[0].key);
            }
        }
        lemma_lex_antisym(a[0].key, b[0].key);
        assert(a[0].key == b[0].key);
        assert(a[0] == b[0]) by {
            if i != 0 {
                assert(a[0].key != a[i].key);
            }
        }
        let a1 = a.drop_first();
        let b1 = b.drop_first();
        assert(a1 =~= a.remove(0));
        assert(b1 =~= b.remove(0));
        assert(a1.to_multiset() =~= a.to_multiset().remove(a[0]));
        assert(b1.to_multiset() =~= b.to_multiset().remove(b[0]));
        assert(forall|k: int| 0 <= k < a1.len() ==> #[trigger] a1[k] == a[k + 1]);
        assert(forall|k: int| 0 <= k < b1.len() ==> #[trigger] b1[k] == b[k + 1]);
        lemma_sorted_unique(a1, b1);
        assert forall|k: int| 0 <= k < a.len() implies a[k] == b[k] by {
            if k > 0 {
                assert(a1[k - 1] == a[k]);
                assert(b1[k - 1] == b[k]);
            }
        }
        assert(a =~= b);
    }
}

/// The signing base string is a function of the parameter set alone: two
/// parameter lists holding the same pairs in any order, with no repeated
/// key among them, yield the same base string for the same method and URL.
pub proof fn lemma_base_string_parameter_set(
    method: Seq<char>,
    url: Seq<char>,
    ps1: Seq<PairView>,
    ps2: Seq<PairView>,
)
    requires
        enc_pairs(ps1).to_multiset() == enc_pairs(ps2).to_multiset(),
        distinct_keys(enc_pairs(ps1)),
    ensures
        spec_base_string(method, url, ps1) == spec_base_string(method, url, ps2),
{
    lemma_sort_pairs_ensures(enc_pairs(ps1));
    lemma_sort_pairs_ensures(enc_pairs(ps2));
    lemma_distinct_keys_permutation(enc_pairs(ps1), sort_pairs(enc_pairs(ps1)));
    lemma_sorted_unique(sort_pairs(enc_pairs(ps1)), sort_pairs(enc_pairs(ps2)));
}

} // verus!
