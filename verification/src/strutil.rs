//! Verified string utilities: substring containment (the matching primitive
//! of the verification engine), lexicographic ordering (OAuth parameter
//! sorting), and decimal parsing/formatting of unsigned integers.

use vstd::prelude::*;

verus! {

/// The token `tok` occurs in `text` starting at position `i`.
pub open spec fn contains_at(text: Seq<char>, tok: Seq<char>, i: int) -> bool {
    0 <= i && i + tok.len() <= text.len() && text.subrange(i, i + tok.len() as int) == tok
}

/// The token `tok` occurs somewhere in `text` (byte-exact, case-sensitive,
/// no normalization).
pub open spec fn text_contains(text: Seq<char>, tok: Seq<char>) -> bool {
    exists|i: int| contains_at(text, tok, i)
}

/// Exact substring containment: does `tok` appear verbatim in `text`?
pub fn str_contains(text: &str, tok: &str) -> (r: bool)
    ensures
        r == text_contains(text@, tok@),
{
    let n: usize = text.unicode_len();
    let m: usize = tok.unicode_len();
    if m > n {
        assert(forall|i: int| !contains_at(text@, tok@, i));
        return false;
    }
    let mut i: usize = 0;
    while i <= n - m
        invariant
            m <= n,
            i <= n - m + 1,
            n == text@.len(),
            m == tok@.len(),
            forall|k: int| 0 <= k < i ==> !contains_at(text@, tok@, k),
        decreases n - m - i + 1,
    {
        let mut j: usize = 0;
        let mut mismatch: bool = false;
        while j < m
            invariant
                m <= n,
                i <= n - m,
                n == text@.len(),
                m == tok@.len(),
                j <= m,
                !mismatch ==> forall|k: int| 0 <= k < j ==> text@[i + k] == tok@[k],
                mismatch ==> !contains_at(text@, tok@, i as int),
                mismatch ==> m > 0,
            decreases m - j,
        {
            if text.get_char(i + j) != tok.get_char(j) {
                proof {
                    if contains_at(text@, tok@, i as int) {
                        assert(text@.subrange(i as int, i + m as int)[j as int] == text@[i + j]);
                    }
                }
                mismatch = true;
                j = m;
            } else {
                j = j + 1;
            }
        }
        if !mismatch {
            proof {
                assert forall|k: int| 0 <= k < m implies text@.subrange(i as int, i + m as int)[k]
                    == tok@[k] by {
                    assert(text@[i + k] == tok@[k]);
                }
                assert(text@.subrange(i as int, i + m as int) =~= tok@);
                assert(contains_at(text@, tok@, i as int));
            }
            return true;
        }
        assert(m > 0);
        i = i + 1;
    }
    proof {
        assert(forall|k: int| i <= k ==> !contains_at(text@, tok@, k));
    }
    false
}

/// Lexicographic order on character sequences, by Unicode scalar value.
pub open spec fn lex_le(a: Seq<char>, b: Seq<char>) -> bool
    decreases a.len(),
{
    if a.len() == 0 {
        true
    } else if b.len() == 0 {
        false
    } else if a[0] != b[0] {
        a[0] < b[0]
    } else {
        lex_le(a.drop_first(), b.drop_first())
    }
}

proof fn lemma_lex_skip(a: Seq<char>, b: Seq<char>, i: int)
    requires
        0 <= i < a.len(),
        0 <= i < b.len(),
        forall|j: int| 0 <= j <= i ==> a[j] == b[j],
    ensures
        lex_le(a.skip(i), b.skip(i)) == lex_le(a.skip(i + 1), b.skip(i + 1)),
{
    assert(a.skip(i)[0] == a[i]);
    assert(b.skip(i)[0] == b[i]);
    assert(a.skip(i).drop_first() =~= a.skip(i + 1));
    assert(b.skip(i).drop_first() =~= b.skip(i + 1));
}

/// Lexicographic comparison of two strings: is `a` at or before `b`?
pub fn str_le(a: &str, b: &str) -> (r: bool)
    ensures
        r == lex_le(a@, b@),
{
    let n: usize = a.unicode_len();
    let m: usize = b.unicode_len();
    let mut i: usize = 0;
    proof {
        assert(a@.skip(0) =~= a@);
        assert(b@.skip(0) =~= b@);
    }
    loop
        invariant
            n == a@.len(),
            m == b@.len(),
            i <= n,
            i <= m,
            forall|j: int| 0 <= j < i ==> a@[j] == b@[j],
            lex_le(a@, b@) == lex_le(a@.skip(i as int), b@.skip(i as int)),
        decreases n - i,
    {
        if i >= n {
            assert(a@.skip(i as int).len() == 0);
            return true;
        }
        if i >= m {
            assert(b@.skip(i as int).len() == 0);
            assert(a@.skip(i as int).len() > 0);
            return false;
        }
        let ca = a.get_char(i);
        let cb = b.get_char(i);
        if ca != cb {
            assert(a@.skip(i as int)[0] == a@[i as int]);
            assert(b@.skip(i as int)[0] == b@[i as int]);
            return ca < cb;
        }
        proof {
            lemma_lex_skip(a@, b@, i as int);
        }
        i = i + 1;
    }
}

/// `lex_le` is total: any two sequences are comparable.
pub proof fn lemma_lex_total(a: Seq<char>, b: Seq<char>)
    ensures
        lex_le(a, b) || lex_le(b, a),
    decreases a.len(),
{
    if a.len() == 0 {
    } else if b.len() == 0 {
    } else if a[0] == b[0] {
        lemma_lex_total(a.drop_first(), b.drop_first());
    }
}

/// `lex_le` is antisymmetric: mutual order means equality.
pub proof fn lemma_lex_antisym(a: Seq<char>, b: Seq<char>)
    requires
        lex_le(a, b),
        lex_le(b, a),
    ensures
        a =~= b,
    decreases a.len(),
{
    if a.len() > 0 && b.len() > 0 && a[0] == b[0] {
        lemma_lex_antisym(a.drop_first(), b.drop_first());
        assert(a =~= seq![a[0]] + a.drop_first());
        assert(b =~= seq![b[0]] + b.drop_first());
    }
}

/// `lex_le` is transitive.
pub proof fn lemma_lex_trans(a: Seq<char>, b: Seq<char>, c: Seq<char>)
    requires
        lex_le(a, b),
        lex_le(b, c),
    ensures
        lex_le(a, c),
    decreases a.len(),
{
    if a.len() > 0 && b.len() > 0 && c.len() > 0 {
        if a[0] == b[0] && b[0] == c[0] {
            lemma_lex_trans(a.drop_first(), b.drop_first(), c.drop_first());
        }
    }
}

/// A decimal digit.
pub open spec fn is_digit(c: char) -> bool {
    '0' <= c && c <= '9'
}

pub open spec fn digit_val(c: char) -> int {
    c as int - '0' as int
}

pub open spec fn all_digits(s: Seq<char>) -> bool {
    forall|i: int| 0 <= i < s.len() ==> is_digit(#[trigger] s[i])
}

/// The value of a digit string, most significant digit first.
pub open spec fn numeral_val(s: Seq<char>) -> int
    decreases s.len(),
{
    if s.len() == 0 {
        0
    } else {
        numeral_val(s.drop_last()) * 10 + digit_val(s.last())
    }
}

pub proof fn lemma_numeral_nonneg(s: Seq<char>)
    requires
        all_digits(s),
    ensures
        numeral_val(s) >= 0,
    decreases s.len(),
{
    if s.len() > 0 {
        assert(all_digits(s.drop_last())) by {
            assert(forall|i: int| 0 <= i < s.drop_last().len() ==> s.drop_last()[i] == s[i]);
        }
        lemma_numeral_nonneg(s.drop_last());
    }
}

/// Extending a digit string never decreases its value.
pub proof fn lemma_numeral_prefix_le(s: Seq<char>, n: int)
    requires
        all_digits(s),
        0 <= n <= s.len(),
    ensures
        numeral_val(s.subrange(0, n)) <= numeral_val(s),
    decreases s.len() - n,
{
    if n < s.len() {
        let t = s.subrange(0, n + 1);
        assert(t.drop_last() =~= s.subrange(0, n));
        assert(all_digits(t.drop_last()));
        lemma_numeral_nonneg(t.drop_last());
        assert(numeral_val(t) == numeral_val(t.drop_last()) * 10 + digit_val(t.last()));
        assert(numeral_val(t.drop_last()) * 10 >= numeral_val(t.drop_last())) by {
            lemma_numeral_nonneg(t.drop_last());
        }
        lemma_numeral_prefix_le(s, n + 1);
    } else {
        assert(s.subrange(0, n) =~= s);
    }
}

/// What `str::parse::<u64>` accepts: an optional leading `+`, then one or
/// more decimal digits, with a value that fits in 64 bits.
pub open spec fn spec_parse_u64(s: Seq<char>) -> Option<u64> {
    let body = if s.len() > 0 && s[0] == '+' {
        s.subrange(1, s.len() as int)
    } else {
        s
    };
    if body.len() > 0 && all_digits(body) && numeral_val(body) <= u64::MAX {
        Some(numeral_val(body) as u64)
    } else {
        None
    }
}

/// Parse a decimal string as a `u64`, exactly as `str::parse::<u64>` would.
pub fn parse_u64(s: &str) -> (r: Option<u64>)
    ensures
        r == spec_parse_u64(s@),
{
    let n: usize = s.unicode_len();
    let start: usize = if n > 0 && s.get_char(0) == '+' {
        1
    } else {
        0
    };
    let ghost body = if s@.len() > 0 && s@[0] == '+' {
        s@.subrange(1, s@.len() as int)
    } else {
        s@
    };
    assert(body =~= s@.subrange(start as int, n as int));
    if start >= n {
        assert(body.len() == 0);
        return None;
    }
    let mut acc: u64 = 0;
    let mut i: usize = start;
    while i < n
        invariant
            start < n,
            start <= i <= n,
            n == s@.len(),
            body == (if s@.len() > 0 && s@[0] == '+' {
                s@.subrange(1, s@.len() as int)
            } else {
                s@
            }),
            body =~= s@.subrange(start as int, n as int),
            all_digits(body.subrange(0, i - start)),
            acc as int == numeral_val(body.subrange(0, i - start)),
        decreases n - i,
    {
        let c = s.get_char(i);
        if !(c >= '0' && c <= '9') {
            assert(body[i - start] == c);
            assert(!is_digit(body[i - start]));
            assert(!all_digits(body));
            return None;
        }
        let d: u64 = (c as u32 as u64) - 48;
        assert(d == digit_val(c)) by {
            assert('0' as u32 == 48);
        }
        let ghost pre = body.subrange(0, i - start);
        let ghost cur = body.subrange(0, (i - start + 1) as int);
        proof {
            assert(cur.drop_last() =~= pre);
            assert(cur.last() == body[i - start]);
            assert(body[i - start] == c);
            assert(all_digits(cur));
            assert(numeral_val(cur) == (acc as int) * 10 + d);
        }
        let scaled = acc.checked_mul(10);
        let next = match scaled {
            Some(v) => v.checked_add(d),
            None => None,
        };
        match next {
            Some(v) => {
                acc = v;
                assert(acc as int == numeral_val(cur));
            },
            None => {
                proof {
                    lemma_numeral_nonneg(pre);
                    assert(numeral_val(cur) > u64::MAX as int);
                    if all_digits(body) && numeral_val(body) <= u64::MAX {
                        lemma_numeral_prefix_le(body, i - start + 1);
                    }
                }
                return None;
            },
        }
        i = i + 1;
        assert(body.subrange(0, i - start) =~= cur);
    }
    assert(body.subrange(0, (i - start) as int) =~= body);
    Some(acc)
}

/// The decimal representation of a non-negative integer, no sign, no
/// leading zeros (except for zero itself).
pub open spec fn spec_digits(n: int) -> Seq<char>
    decreases n,
{
    if n < 10 {
        seq![digit_char(n)]
    } else {
        spec_digits(n / 10) + seq![digit_char(n % 10)]
    }
}

pub open spec fn digit_char(d: int) -> char {
    if d == 0 {
        '0'
    } else if d == 1 {
        '1'
    } else if d == 2 {
        '2'
    } else if d == 3 {
        '3'
    } else if d == 4 {
        '4'
    } else if d == 5 {
        '5'
    } else if d == 6 {
        '6'
    } else if d == 7 {
        '7'
    } else if d == 8 {
        '8'
    } else {
        '9'
    }
}

fn digit_str(d: u64) -> (r: &'static str)
    requires
        d < 10,
    ensures
        r@ =~= seq![digit_char(d as int)],
{
    if d == 0 {
        proof { reveal_strlit("0"); }
        "0"
    } else if d == 1 {
        proof { reveal_strlit("1"); }
        "1"
    } else if d == 2 {
        proof { reveal_strlit("2"); }
        "2"
    } else if d == 3 {
        proof { reveal_strlit("3"); }
        "3"
    } else if d == 4 {
        proof { reveal_strlit("4"); }
        "4"
    } else if d == 5 {
        proof { reveal_strlit("5"); }
        "5"
    } else if d == 6 {
        proof { reveal_strlit("6"); }
        "6"
    } else if d == 7 {
        proof { reveal_strlit("7"); }
        "7"
    } else if d == 8 {
        proof { reveal_strlit("8"); }
        "8"
    } else {
        proof { reveal_strlit("9"); }
        "9"
    }
}

proof fn lemma_digits_shape(n: int)
    requires
        n >= 0,
    ensures
        spec_digits(n).len() > 0,
        all_digits(spec_digits(n)),
        numeral_val(spec_digits(n)) == n,
        spec_digits(n)[0] != '+',
    decreases n,
{
    if n < 10 {
        assert(spec_digits(n) =~= seq![digit_char(n)]);
        assert(is_digit(digit_char(n)));
        assert(digit_val(digit_char(n)) == n);
        assert(spec_digits(n).drop_last() =~= Seq::<char>::empty());
        assert(numeral_val(Seq::<char>::empty()) == 0);
        assert(spec_digits(n).last() == digit_char(n));
        assert(numeral_val(spec_digits(n)) == numeral_val(spec_digits(n).drop_last()) * 10
            + digit_val(spec_digits(n).last()));
    } else {
        lemma_digits_shape(n / 10);
        let s = spec_digits(n);
        let a = spec_digits(n / 10);
        assert(s == a + seq![digit_char(n % 10)]);
        assert(s.drop_last() =~= a);
        assert(s.last() == digit_char(n % 10));
        assert(is_digit(digit_char(n % 10)));
        assert(digit_val(digit_char(n % 10)) == n % 10);
        assert(all_digits(s)) by {
            assert(forall|i: int| 0 <= i < a.len() ==> s[i] == a[i]);
        }
        assert(numeral_val(s) == n / 10 * 10 + n % 10);
        vstd::arithmetic::div_mod::lemma_fundamental_div_mod(n, 10);
        assert(s[0] == a[0]);
    }
}

/// Printing a `u64` and parsing it back gives the value itself.
pub proof fn lemma_digits_roundtrip(n: u64)
    ensures
        spec_parse_u64(spec_digits(n as int)) == Some(n),
{
    lemma_digits_shape(n as int);
}

/// Format a `u64` in decimal.
pub fn u64_to_string(n: u64) -> (r: String)
    ensures
        r@ == spec_digits(n as int),
    decreases n,
{
    if n < 10 {
        digit_str(n).to_owned()
    } else {
        let mut s = u64_to_string(n / 10);
        s.append(digit_str(n % 10));
        s
    }
}

} // verus!

