//! Character-level text helpers: decimal integer parsing and printing with
//! exact specifications, lexicographic ordering of strings, and substring
//! search. These are the pure building blocks of value coercion, primary
//! installation selection and backup ordering.

use vstd::prelude::*;

verus! {

// ---------------------------------------------------------------------------
// Digits
// ---------------------------------------------------------------------------

pub open spec fn is_digit_char(c: char) -> bool {
    48 <= c as int && c as int <= 57
}

pub open spec fn digit_val(c: char) -> int {
    c as int - 48
}

pub open spec fn digit_char(d: int) -> char {
    ((48 + d) as u8) as char
}

pub open spec fn all_digits(s: Seq<char>) -> bool {
    forall|i: int| 0 <= i < s.len() ==> is_digit_char(#[trigger] s[i])
}

/// The numeric value of a digit string, most significant digit first.
pub open spec fn digits_val(s: Seq<char>) -> int
    decreases s.len(),
{
    if s.len() == 0 {
        0
    } else {
        10 * digits_val(s.drop_last()) + digit_val(s.last())
    }
}

proof fn lemma_digits_val_nonneg(s: Seq<char>)
    requires
        all_digits(s),
    ensures
        digits_val(s) >= 0,
    decreases s.len(),
{
    if s.len() > 0 {
        assert(all_digits(s.drop_last()));
        lemma_digits_val_nonneg(s.drop_last());
    }
}

proof fn lemma_digits_val_step(s: Seq<char>, i: int)
    requires
        0 <= i < s.len(),
    ensures
        digits_val(s.subrange(0, i + 1)) == 10 * digits_val(s.subrange(0, i)) + digit_val(s[i]),
{
    let p = s.subrange(0, i + 1);
    assert(p.drop_last() =~= s.subrange(0, i));
    assert(p.last() == s[i]);
}

/// Once a prefix of a digit string exceeds a bound, the whole string does too.
proof fn lemma_digits_val_prefix_le(s: Seq<char>, i: int)
    requires
        all_digits(s),
        0 <= i <= s.len(),
    ensures
        digits_val(s.subrange(0, i)) <= digits_val(s),
    decreases s.len() - i,
{
    if i < s.len() {
        lemma_digits_val_step(s, i);
        let pv = digits_val(s.subrange(0, i));
        assert(all_digits(s.subrange(0, i))) by {
            assert(forall|j: int| 0 <= j < i ==> s.subrange(0, i)[j] == #[trigger] s[j]);
        }
        lemma_digits_val_nonneg(s.subrange(0, i));
        assert(digits_val(s.subrange(0, i + 1)) >= pv);
        lemma_digits_val_prefix_le(s, i + 1);
    } else {
        assert(s.subrange(0, i) =~= s);
    }
}

// ---------------------------------------------------------------------------
// Parsing signed 64-bit decimal integers
// ---------------------------------------------------------------------------

/// The digit part of a decimal string: everything after an optional single
/// leading sign.
pub open spec fn sign_stripped(s: Seq<char>) -> Seq<char> {
    if s.len() > 0 && (s[0] == '+' || s[0] == '-') {
        s.subrange(1, s.len() as int)
    } else {
        s
    }
}

pub open spec fn is_negative_literal(s: Seq<char>) -> bool {
    s.len() > 0 && s[0] == '-'
}

/// What `str::parse::<i64>` accepts: an optional single `+` or `-` followed by
/// one or more ASCII digits, with the resulting value in the range of `i64`.
pub open spec fn parse_i64_spec(s: Seq<char>) -> Option<int> {
    let ds = sign_stripped(s);
    if ds.len() == 0 || !all_digits(ds) {
        None
    } else {
        let v = if is_negative_literal(s) {
            -digits_val(ds)
        } else {
            digits_val(ds)
        };
        if i64::MIN <= v <= i64::MAX {
            Some(v)
        } else {
            None
        }
    }
}

/// Decimal parsing of an `i64`, matching `str::parse::<i64>`.
pub fn parse_i64(s: &str) -> (r: Option<i64>)
    ensures
        match r {
            Some(n) => parse_i64_spec(s@) == Some(n as int),
            None => parse_i64_spec(s@) is None,
        },
{
    let len = s.unicode_len();
    if len == 0 {
        return None;
    }
    let first = s.get_char(0);
    let neg = first == '-';
    let start: usize = if first == '-' || first == '+' {
        1
    } else {
        0
    };
    let ghost ds = sign_stripped(s@);
    proof {
        assert(ds =~= s@.subrange(start as int, s@.len() as int));
    }
    if len - start == 0 {
        return None;
    }
    // Largest admissible magnitude: 2^63 for negative values, 2^63 - 1 else.
    let cap: u64 = if neg {
        9223372036854775808
    } else {
        9223372036854775807
    };
    let mut acc: u64 = 0;
    let mut i: usize = start;
    while i < len
        invariant
            start <= i <= len,
            len == s@.len(),
            start <= 1,
            ds == s@.subrange(start as int, s@.len() as int),
            acc <= cap,
            cap == if neg { 9223372036854775808u64 } else { 9223372036854775807u64 },
            neg == is_negative_literal(s@),
            sign_stripped(s@) == ds,
            all_digits(ds.subrange(0, i - start)),
            acc == digits_val(ds.subrange(0, i - start)),
        decreases len - i,
    {
        let c = s.get_char(i);
        if !('0' <= c && c <= '9') {
            proof {
                assert(ds[i - start] == s@[i as int]);
                assert(!is_digit_char(ds[i - start]));
            }
            return None;
        }
        let d: u64 = (c as u32 - 48) as u64;
        proof {
            assert(is_digit_char(s@[i as int]));
            assert(d == digit_val(ds[i - start]));
        }
        if acc > (cap - d) / 10 {
            // The value read so far already overflows the range of `i64`;
            // more digits only increase it.
            proof {
                let p = ds.subrange(0, i - start + 1);
                lemma_digits_val_step(ds, i - start);
                assert(acc >= (cap - d) / 10 + 1);
                assert(10 * acc >= 10 * ((cap - d) / 10 + 1)) by (nonlinear_arith)
                    requires acc >= (cap - d) / 10 + 1;
                assert(10 * ((cap - d) / 10) + 10 > cap - d) by (nonlinear_arith);
                assert(digits_val(p) > cap);
                if all_digits(ds) {
                    lemma_digits_val_prefix_le(ds, i - start + 1);
                    assert(digits_val(ds) > cap);
                }
            }
            return None;
        }
        proof {
            assert(10 * acc + d <= cap) by (nonlinear_arith)
                requires
                    acc <= (cap - d) / 10,
                    d <= 9,
                    cap >= 9,
                    cap - d >= 10 * ((cap - d) / 10),
            ;
            assert(cap - d >= 10 * ((cap - d) / 10)) by (nonlinear_arith);
            lemma_digits_val_step(ds, i - start);
            assert(ds.subrange(0, i - start + 1).drop_last() =~= ds.subrange(0, i - start));
        }
        acc = acc * 10 + d;
        i += 1;
        proof {
            assert(all_digits(ds.subrange(0, i - start))) by {
                let p = ds.subrange(0, i - start);
                assert(forall|j: int| 0 <= j < p.len() - 1 ==> p[j] == #[trigger] ds.subrange(
                    0,
                    i - start - 1,
                )[j]);
                assert(p[p.len() - 1] == ds[i - start - 1]);
                assert(is_digit_char(ds[i - start - 1]));
            }
        }
    }
    proof {
        assert(ds.subrange(0, i - start) =~= ds);
        lemma_digits_val_nonneg(ds);
    }
    if neg {
        if acc == 9223372036854775808 {
            Some(i64::MIN)
        } else {
            Some(-(acc as i64))
        }
    } else {
        Some(acc as i64)
    }
}

// ---------------------------------------------------------------------------
// Printing decimal integers
// ---------------------------------------------------------------------------

/// The decimal digit string of a non-negative integer.
pub open spec fn dec_digits(n: int) -> Seq<char>
    decreases n,
{
    if n < 10 {
        seq![digit_char(n)]
    } else {
        dec_digits(n / 10).push(digit_char(n % 10))
    }
}

/// The decimal representation of an integer, as `to_string` prints it.
pub open spec fn i64_repr(n: int) -> Seq<char> {
    if n < 0 {
        seq!['-'] + dec_digits(-n)
    } else {
        dec_digits(n)
    }
}

fn digit_str(d: u64) -> (r: &'static str)
    requires
        d <= 9,
    ensures
        r@ =~= seq![digit_char(d as int)],
{
    let r: &'static str = match d {
        0 => "0",
        1 => "1",
        2 => "2",
        3 => "3",
        4 => "4",
        5 => "5",
        6 => "6",
        7 => "7",
        8 => "8",
        _ => "9",
    };
    proof {
        reveal_strlit("0");
        reveal_strlit("1");
        reveal_strlit("2");
        reveal_strlit("3");
        reveal_strlit("4");
        reveal_strlit("5");
        reveal_strlit("6");
        reveal_strlit("7");
        reveal_strlit("8");
        reveal_strlit("9");
    }
    r
}

/// Decimal printing of a `u64`, matching `u64::to_string`.
pub fn u64_to_string(n: u64) -> (r: String)
    ensures
        r@ == dec_digits(n as int),
    decreases n,
{
    let d = n % 10;
    let digit = digit_str(d);
    if n < 10 {
        let r = digit.to_owned();
        proof {
            assert(r@ =~= dec_digits(n as int));
        }
        r
    } else {
        let mut prefix = u64_to_string(n / 10);
        prefix.append(digit);
        proof {
            assert(prefix@ =~= dec_digits(n as int));
        }
        prefix
    }
}

/// Decimal printing of an `i64`, matching `i64::to_string`.
pub fn i64_to_string(n: i64) -> (r: String)
    ensures
        r@ == i64_repr(n as int),
{
    if n >= 0 {
        u64_to_string(n as u64)
    } else {
        let magnitude: u64 = if n == i64::MIN {
            9223372036854775808
        } else {
            (-n) as u64
        };
        let mut r = "-".to_owned();
        let digits = u64_to_string(magnitude);
        r.append(digits.as_str());
        proof {
            reveal_strlit("-");
            assert(r@ =~= i64_repr(n as int));
        }
        r
    }
}

proof fn lemma_dec_digits_all_digits(n: int)
    requires
        n >= 0,
    ensures
        all_digits(dec_digits(n)),
        dec_digits(n).len() >= 1,
    decreases n,
{
    if n < 10 {
        assert(is_digit_char(digit_char(n)));
    } else {
        lemma_dec_digits_all_digits(n / 10);
        let s = dec_digits(n);
        assert(s == dec_digits(n / 10).push(digit_char(n % 10)));
        assert(forall|i: int| 0 <= i < s.len() - 1 ==> s[i] == #[trigger] dec_digits(n / 10)[i]);
        assert(is_digit_char(digit_char(n % 10)));
    }
}

proof fn lemma_dec_digits_val(n: int)
    requires
        n >= 0,
    ensures
        digits_val(dec_digits(n)) == n,
    decreases n,
{
    if n < 10 {
        let s = dec_digits(n);
        assert(s == seq![digit_char(n)]);
        assert(s.len() == 1);
        assert(s.last() == digit_char(n));
        assert(s.drop_last() =~= Seq::<char>::empty());
        assert(digits_val(s.drop_last()) == 0);
        assert(digit_val(digit_char(n)) == n);
        assert(digits_val(s) == 10 * digits_val(s.drop_last()) + digit_val(s.last()));
    } else {
        lemma_dec_digits_val(n / 10);
        let s = dec_digits(n);
        assert(s == dec_digits(n / 10).push(digit_char(n % 10)));
        assert(s.drop_last() =~= dec_digits(n / 10));
        assert(s.last() == digit_char(n % 10));
        assert(digit_val(digit_char(n % 10)) == n % 10);
        assert(n == 10 * (n / 10) + n % 10);
    }
}

/// Parsing is a left inverse of decimal printing, over the whole `i64` range.
pub proof fn lemma_parse_of_repr(n: int)
    requires
        i64::MIN <= n <= i64::MAX,
    ensures
        parse_i64_spec(i64_repr(n)) == Some(n),
{
    if n >= 0 {
        let s = i64_repr(n);
        lemma_dec_digits_all_digits(n);
        lemma_dec_digits_val(n);
        assert(is_digit_char(s[0]));
        assert(s[0] != '+' && s[0] != '-');
        assert(sign_stripped(s) == s);
    } else {
        let s = i64_repr(n);
        lemma_dec_digits_all_digits(-n);
        lemma_dec_digits_val(-n);
        assert(s[0] == '-');
        assert(sign_stripped(s) =~= dec_digits(-n));
        assert(is_negative_literal(s));
    }
}

/// A decimal representation is never one of the boolean literals.
pub proof fn lemma_repr_not_bool(n: int)
    ensures
        i64_repr(n) != "true"@,
        i64_repr(n) != "false"@,
{
    reveal_strlit("true");
    reveal_strlit("false");
    let s = i64_repr(n);
    if n >= 0 {
        lemma_dec_digits_all_digits(n);
        assert(is_digit_char(s[0]));
        assert(s[0] != 't' && s[0] != 'f');
    } else {
        assert(s[0] == '-');
        assert(s[0] != 't' && s[0] != 'f');
    }
}

// ---------------------------------------------------------------------------
// Lexicographic order on character sequences
// ---------------------------------------------------------------------------

/// Lexicographic "less or equal" by character code, the order `str` values
/// take under `Ord` (UTF-8 byte order coincides with code point order).
pub open spec fn lex_le(a: Seq<char>, b: Seq<char>) -> bool
    decreases a.len(),
{
    if a.len() == 0 {
        true
    } else if b.len() == 0 {
        false
    } else if a[0] == b[0] {
        lex_le(a.subrange(1, a.len() as int), b.subrange(1, b.len() as int))
    } else {
        (a[0] as int) < (b[0] as int)
    }
}

pub proof fn lemma_lex_le_total(a: Seq<char>, b: Seq<char>)
    ensures
        lex_le(a, b) || lex_le(b, a),
    decreases a.len(),
{
    if a.len() > 0 && b.len() > 0 && a[0] == b[0] {
        lemma_lex_le_total(a.subrange(1, a.len() as int), b.subrange(1, b.len() as int));
    }
}

pub proof fn lemma_lex_le_antisymmetric(a: Seq<char>, b: Seq<char>)
    requires
        lex_le(a, b),
        lex_le(b, a),
    ensures
        a == b,
    decreases a.len(),
{
    if a.len() == 0 {
        assert(b.len() == 0);
        assert(a =~= b);
    } else {
        assert(b.len() > 0);
        if a[0] == b[0] {
            let ta = a.subrange(1, a.len() as int);
            let tb = b.subrange(1, b.len() as int);
            assert(lex_le(ta, tb));
            assert(lex_le(b, a));
            assert(lex_le(tb, ta));
            lemma_lex_le_antisymmetric(ta, tb);
            assert(ta == tb);
            assert(ta.len() == a.len() - 1);
            assert(tb.len() == b.len() - 1);
            assert(a.len() == b.len());
            assert forall|j: int| 0 <= j < a.len() implies a[j] == b[j] by {
                if j > 0 {
                    assert(a[j] == ta[j - 1]);
                    assert(b[j] == tb[j - 1]);
                }
            }
            assert(a =~= b);
        }
    }
}

pub proof fn lemma_lex_le_transitive(a: Seq<char>, b: Seq<char>, c: Seq<char>)
    requires
        lex_le(a, b),
        lex_le(b, c),
    ensures
        lex_le(a, c),
    decreases a.len(),
{
    if a.len() > 0 && b.len() > 0 && c.len() > 0 {
        if a[0] == b[0] && b[0] == c[0] {
            lemma_lex_le_transitive(
                a.subrange(1, a.len() as int),
                b.subrange(1, b.len() as int),
                c.subrange(1, c.len() as int),
            );
        }
    }
}

/// Lexicographic comparison of two strings, matching `str`'s `Ord`.
pub fn str_le(a: &str, b: &str) -> (r: bool)
    ensures
        r == lex_le(a@, b@),
{
    let la = a.unicode_len();
    let lb = b.unicode_len();
    let mut i: usize = 0;
    proof {
        assert(a@.skip(0) =~= a@);
        assert(b@.skip(0) =~= b@);
    }
    while i < la && i < lb
        invariant
            i <= la,
            i <= lb,
            la == a@.len(),
            lb == b@.len(),
            lex_le(a@, b@) == lex_le(a@.skip(i as int), b@.skip(i as int)),
        decreases la - i,
    {
        let ca = a.get_char(i);
        let cb = b.get_char(i);
        if ca != cb {
            proof {
                assert(a@.skip(i as int)[0] == ca);
                assert(b@.skip(i as int)[0] == cb);
            }
            return (ca as u32) < (cb as u32);
        }
        proof {
            assert(a@.skip(i as int)[0] == ca);
            assert(b@.skip(i as int)[0] == cb);
            assert(a@.skip(i as int).subrange(1, a@.skip(i as int).len() as int) =~= a@.skip(
                i as int + 1,
            ));
            assert(b@.skip(i as int).subrange(1, b@.skip(i as int).len() as int) =~= b@.skip(
                i as int + 1,
            ));
        }
        i += 1;
    }
    proof {
        if i >= la {
            assert(a@.skip(i as int).len() == 0);
        } else {
            assert(b@.skip(i as int).len() == 0);
            assert(a@.skip(i as int).len() > 0);
        }
    }
    i >= la
}

// ---------------------------------------------------------------------------
// Substring search and suffix test
// ---------------------------------------------------------------------------

/// Whether `pat` occurs as a contiguous substring of `hay`.
pub open spec fn contains_seq(hay: Seq<char>, pat: Seq<char>) -> bool {
    exists|i: int|
        0 <= i && i + pat.len() <= hay.len() && #[trigger] hay.subrange(i, i + pat.len() as int)
            == pat
}

/// Whether `pat` matches `hay` exactly at offset `i`.
fn match_at(hay: &str, pat: &str, i: usize) -> (r: bool)
    requires
        i + pat@.len() <= hay@.len(),
        hay@.len() <= usize::MAX,
    ensures
        r == (hay@.subrange(i as int, i + pat@.len() as int) == pat@),
{
    let pl = pat.unicode_len();
    let mut j: usize = 0;
    while j < pl
        invariant
            i + pl <= hay@.len(),
            hay@.len() <= usize::MAX,
            pl == pat@.len(),
            j <= pl,
            forall|k: int|
                0 <= k < j ==> hay@[i + k] == #[trigger] pat@[k],
        decreases pl - j,
    {
        if hay.get_char(i + j) != pat.get_char(j) {
            proof {
                let sub = hay@.subrange(i as int, i + pat@.len() as int);
                assert(sub[j as int] == hay@[i + j]);
            }
            return false;
        }
        j += 1;
    }
    proof {
        assert(hay@.subrange(i as int, i + pat@.len() as int) =~= pat@);
    }
    true
}

/// Naive substring search with an exact contract.
pub fn str_contains(hay: &str, pat: &str) -> (r: bool)
    ensures
        r == contains_seq(hay@, pat@),
{
    let hl = hay.unicode_len();
    let pl = pat.unicode_len();
    if pl > hl {
        return false;
    }
    if pl == 0 {
        proof {
            assert(hay@.subrange(0, 0) =~= pat@);
            assert(0 + pat@.len() <= hay@.len() && hay@.subrange(0, 0 + pat@.len() as int)
                == pat@);
        }
        return true;
    }
    let mut i: usize = 0;
    while i <= hl - pl
        invariant
            1 <= pl <= hl,
            hl == hay@.len(),
            pl == pat@.len(),
            i <= hl - pl + 1,
            forall|k: int|
                0 <= k < i ==> #[trigger] hay@.subrange(k, k + pat@.len() as int) != pat@,
        decreases hl - pl - i + 1,
    {
        if match_at(hay, pat, i) {
            return true;
        }
        i += 1;
    }
    proof {
        assert forall|k: int| 0 <= k && k + pat@.len() <= hay@.len() implies #[trigger] hay@
            .subrange(k, k + pat@.len() as int) != pat@ by {
            assert(k < i);
        }
    }
    false
}

/// Whether `s` ends with the suffix `p`.
pub open spec fn ends_with_seq(s: Seq<char>, p: Seq<char>) -> bool {
    s.len() >= p.len() && s.subrange(s.len() - p.len(), s.len() as int) == p
}

/// Suffix test, matching `str::ends_with`.
pub fn str_ends_with(s: &str, p: &str) -> (r: bool)
    ensures
        r == ends_with_seq(s@, p@),
{
    let sl = s.unicode_len();
    let pl = p.unicode_len();
    if pl > sl {
        return false;
    }
    let mut j: usize = 0;
    while j < pl
        invariant
            pl <= sl,
            sl == s@.len(),
            pl == p@.len(),
            j <= pl,
            forall|k: int|
                0 <= k < j ==> s@[sl - pl + k] == #[trigger] p@[k],
        decreases pl - j,
    {
        if s.get_char(sl - pl + j) != p.get_char(j) {
            proof {
                let sub = s@.subrange(s@.len() - p@.len(), s@.len() as int);
                assert(sub[j as int] == s@[sl - pl + j]);
            }
            return false;
        }
        j += 1;
    }
    proof {
        assert(s@.subrange(s@.len() - p@.len(), s@.len() as int) =~= p@);
    }
    true
}

/// String equality through views, usable on `&str` operands.
pub fn str_eq(a: &str, b: &str) -> (r: bool)
    ensures
        r == (a@ == b@),
{
    let la = a.unicode_len();
    let lb = b.unicode_len();
    if la != lb {
        return false;
    }
    let mut i: usize = 0;
    while i < la
        invariant
            i <= la,
            la == a@.len(),
            la == b@.len(),
            forall|k: int| 0 <= k < i ==> a@[k] == #[trigger] b@[k],
        decreases la - i,
    {
        if a.get_char(i) != b.get_char(i) {
            return false;
        }
        i += 1;
    }
    proof {
        assert(a@ =~= b@);
    }
    true
}

} // verus!
