//! Character classes and number syntax of text fields.
use vstd::prelude::*;

verus! {

/// The characters of a text, in order.
pub fn chars_of(s: &str) -> (v: Vec<char>)
    ensures
        v@ == s@,
{
    let n = s.unicode_len();
    let mut v: Vec<char> = Vec::new();
    let mut i: usize = 0;
    while i < n
        invariant
            n == s@.len(),
            0 <= i <= n,
            v@ == s@.take(i as int),
        decreases n - i,
    {
        let c = s.get_char(i);
        v.push(c);
        proof {
            assert(s@.take(i + 1) =~= s@.take(i as int).push(c));
        }
        i = i + 1;
    }
    proof {
        assert(s@.take(n as int) =~= s@);
    }
    v
}

/// Unicode `White_Space`: the characters that `str::trim` removes.
pub open spec fn is_white_space(c: char) -> bool {
    ||| ('\u{9}' <= c && c <= '\u{d}')
    ||| c == ' '
    ||| c == '\u{85}'
    ||| c == '\u{a0}'
    ||| c == '\u{1680}'
    ||| ('\u{2000}' <= c && c <= '\u{200a}')
    ||| c == '\u{2028}'
    ||| c == '\u{2029}'
    ||| c == '\u{202f}'
    ||| c == '\u{205f}'
    ||| c == '\u{3000}'
}

/// Whether `c` is Unicode white space.
pub fn white_space(c: char) -> (r: bool)
    ensures
        r == is_white_space(c),
{
    ('\u{9}' <= c && c <= '\u{d}') || c == ' ' || c == '\u{85}' || c == '\u{a0}' || c == '\u{1680}'
        || ('\u{2000}' <= c && c <= '\u{200a}') || c == '\u{2028}' || c == '\u{2029}' || c == '\u{202f}'
        || c == '\u{205f}' || c == '\u{3000}'
}

/// A text made only of white space (what trims to nothing).
pub open spec fn is_blank(s: Seq<char>) -> bool {
    forall|i: int| 0 <= i < s.len() ==> is_white_space(#[trigger] s[i])
}

/// Whether a text trims to nothing.
pub fn blank(s: &str) -> (r: bool)
    ensures
        r == is_blank(s@),
{
    let v = chars_of(s);
    let mut i: usize = 0;
    while i < v.len()
        invariant
            v@ == s@,
            0 <= i <= v@.len(),
            forall|j: int| 0 <= j < i ==> is_white_space(#[trigger] v@[j]),
        decreases v@.len() - i,
    {
        if !white_space(v[i]) {
            return false;
        }
        i = i + 1;
    }
    true
}

/// An ASCII digit.
pub open spec fn is_digit(c: char) -> bool {
    '0' <= c && c <= '9'
}

/// Only ASCII digits.
pub open spec fn all_digits(s: Seq<char>) -> bool {
    forall|i: int| 0 <= i < s.len() ==> is_digit(#[trigger] s[i])
}

/// The length of a leading sign (`+` or `-`).
pub open spec fn sign_len(s: Seq<char>) -> int {
    if s.len() > 0 && (s[0] == '+' || s[0] == '-') { 1 } else { 0 }
}

/// The position of the first character of the class `f`, or the length.
pub open spec fn first_pos(s: Seq<char>, f: spec_fn(char) -> bool) -> int
    decreases s.len(),
{
    if s.len() == 0 {
        0
    } else if f(s[0]) {
        0
    } else {
        1 + first_pos(s.drop_first(), f)
    }
}

/// The exponent marks.
pub open spec fn is_exp_mark(c: char) -> bool {
    c == 'e' || c == 'E'
}

/// The decimal point.
pub open spec fn is_point(c: char) -> bool {
    c == '.'
}

/// `c` is the lower-case ASCII letter `l` in either case.
pub open spec fn ci_eq(c: char, l: char) -> bool {
    c == l || (c as u32) as int + 32 == (l as u32) as int
}

/// `s` spells the lower-case ASCII word `w` in any case.
pub open spec fn ci_word(s: Seq<char>, w: Seq<char>) -> bool {
    &&& s.len() == w.len()
    &&& forall|i: int| 0 <= i < s.len() ==> ci_eq(#[trigger] s[i], w[i])
}

/// A mantissa: digits, with at most one decimal point, and at least one
/// digit.
pub open spec fn is_mantissa(m: Seq<char>) -> bool {
    let d = first_pos(m, |c: char| is_point(c));
    let ip = m.take(d);
    let fp = if d < m.len() { m.skip(d + 1) } else { Seq::empty() };
    &&& all_digits(ip)
    &&& all_digits(fp)
    &&& ip.len() + fp.len() > 0
}

/// A decimal number: a mantissa and an optional exponent (a mark, a
/// sign, digits).
pub open spec fn is_decimal(b: Seq<char>) -> bool {
    let e = first_pos(b, |c: char| is_exp_mark(c));
    let exp = b.skip(e + 1);
    &&& is_mantissa(b.take(e))
    &&& e < b.len() ==> {
        let digits = exp.skip(sign_len(exp));
        digits.len() > 0 && all_digits(digits)
    }
}

/// The syntax of `f64::from_str`: an optional sign, then `inf`,
/// `infinity`, `nan` (in any case) or a decimal number.
pub open spec fn float_syntax(s: Seq<char>) -> bool {
    let b = s.skip(sign_len(s));
    ||| ci_word(b, seq!['i', 'n', 'f'])
    ||| ci_word(b, seq!['i', 'n', 'f', 'i', 'n', 'i', 't', 'y'])
    ||| ci_word(b, seq!['n', 'a', 'n'])
    ||| is_decimal(b)
}

/// Whether `v[lo..hi]` has only digits.
fn digits_in(v: &Vec<char>, lo: usize, hi: usize) -> (r: bool)
    requires
        lo <= hi <= v@.len(),
    ensures
        r == all_digits(v@.subrange(lo as int, hi as int)),
{
    let mut i = lo;
    while i < hi
        invariant
            lo <= i <= hi <= v@.len(),
            forall|j: int| lo <= j < i ==> is_digit(#[trigger] v@[j]),
        decreases hi - i,
    {
        if !('0' <= v[i] && v[i] <= '9') {
            proof {
                assert(v@.subrange(lo as int, hi as int)[i - lo] == v@[i as int]);
            }
            return false;
        }
        i = i + 1;
    }
    proof {
        assert forall|j: int| 0 <= j < hi - lo implies is_digit(#[trigger] v@.subrange(lo as int, hi as int)[j]) by {
            assert(v@.subrange(lo as int, hi as int)[j] == v@[lo + j]);
        }
    }
    true
}

/// The first position in `v[lo..hi]` (relative to `lo`) of a character of
/// the class `f`, or `hi - lo`.
proof fn lemma_first_pos_step(s: Seq<char>, f: spec_fn(char) -> bool, i: int)
    requires
        0 <= i < s.len(),
        forall|j: int| 0 <= j < i ==> !f(#[trigger] s[j]),
    ensures
        f(s[i]) ==> first_pos(s, f) == i,
        !f(s[i]) ==> forall|j: int| 0 <= j < i + 1 ==> !f(#[trigger] s[j]),
    decreases i,
{
    if i > 0 {
        let t = s.drop_first();
        assert forall|j: int| 0 <= j < i - 1 implies !f(#[trigger] t[j]) by {
            assert(t[j] == s[j + 1]);
        }
        lemma_first_pos_step(t, f, i - 1);
        assert(t[i - 1] == s[i]);
        assert(!f(s[0]));
    }
}

/// When no character has the class, the first position is the length.
proof fn lemma_first_pos_none(s: Seq<char>, f: spec_fn(char) -> bool)
    requires
        forall|j: int| 0 <= j < s.len() ==> !f(#[trigger] s[j]),
    ensures
        first_pos(s, f) == s.len(),
    decreases s.len(),
{
    if s.len() > 0 {
        let t = s.drop_first();
        assert forall|j: int| 0 <= j < t.len() implies !f(#[trigger] t[j]) by {
            assert(t[j] == s[j + 1]);
        }
        lemma_first_pos_none(t, f);
        assert(!f(s[0]));
    }
}

/// The position of the first exponent mark in `v[lo..hi]`, relative to
/// `lo`.
fn find_exp_mark(v: &Vec<char>, lo: usize, hi: usize) -> (r: usize)
    requires
        lo <= hi <= v@.len(),
    ensures
        r == first_pos(v@.subrange(lo as int, hi as int), |c: char| is_exp_mark(c)),
        r <= hi - lo,
{
    let ghost s = v@.subrange(lo as int, hi as int);
    let ghost f = |c: char| is_exp_mark(c);
    let mut i: usize = 0;
    while i < hi - lo
        invariant
            lo <= hi <= v@.len(),
            s == v@.subrange(lo as int, hi as int),
            f == (|c: char| is_exp_mark(c)),
            0 <= i <= hi - lo,
            forall|j: int| 0 <= j < i ==> !f(#[trigger] s[j]),
        decreases hi - lo - i,
    {
        let c = v[lo + i];
        proof {
            assert(s[i as int] == c);
            lemma_first_pos_step(s, f, i as int);
        }
        if c == 'e' || c == 'E' {
            return i;
        }
        i = i + 1;
    }
    proof {
        lemma_first_pos_none(s, f);
    }
    i
}

/// The position of the first decimal point in `v[lo..hi]`, relative to
/// `lo`.
fn find_point(v: &Vec<char>, lo: usize, hi: usize) -> (r: usize)
    requires
        lo <= hi <= v@.len(),
    ensures
        r == first_pos(v@.subrange(lo as int, hi as int), |c: char| is_point(c)),
        r <= hi - lo,
{
    let ghost s = v@.subrange(lo as int, hi as int);
    let ghost f = |c: char| is_point(c);
    let mut i: usize = 0;
    while i < hi - lo
        invariant
            lo <= hi <= v@.len(),
            s == v@.subrange(lo as int, hi as int),
            f == (|c: char| is_point(c)),
            0 <= i <= hi - lo,
            forall|j: int| 0 <= j < i ==> !f(#[trigger] s[j]),
        decreases hi - lo - i,
    {
        let c = v[lo + i];
        proof {
            assert(s[i as int] == c);
            lemma_first_pos_step(s, f, i as int);
        }
        if c == '.' {
            return i;
        }
        i = i + 1;
    }
    proof {
        lemma_first_pos_none(s, f);
    }
    i
}

/// Whether `v[lo..hi]` spells the lower-case ASCII word `w` in any case.
fn ci_word_at(v: &Vec<char>, lo: usize, hi: usize, w: &Vec<char>) -> (r: bool)
    requires
        lo <= hi <= v@.len(),
        forall|i: int| 0 <= i < w@.len() ==> 'a' <= #[trigger] w@[i] && w@[i] <= 'z',
    ensures
        r == ci_word(v@.subrange(lo as int, hi as int), w@),
{
    if hi - lo != w.len() {
        return false;
    }
    let mut i: usize = 0;
    while i < w.len()
        invariant
            lo <= hi <= v@.len(),
            hi - lo == w@.len(),
            forall|k: int| 0 <= k < w@.len() ==> 'a' <= #[trigger] w@[k] && w@[k] <= 'z',
            0 <= i <= w@.len(),
            forall|j: int| 0 <= j < i ==> ci_eq(#[trigger] v@[lo + j], w@[j]),
        decreases w@.len() - i,
    {
        let c = v[lo + i];
        let l = w[i];
        let lc = (l as u32) as u64;
        let cc = (c as u32) as u64;
        if !(c == l || cc + 32 == lc) {
            proof {
                assert(v@.subrange(lo as int, hi as int)[i as int] == c);
            }
            return false;
        }
        i = i + 1;
    }
    proof {
        assert forall|j: int| 0 <= j < hi - lo implies ci_eq(#[trigger] v@.subrange(lo as int, hi as int)[j], w@[j]) by {
            assert(v@.subrange(lo as int, hi as int)[j] == v@[lo + j]);
        }
    }
    true
}

/// Whether `v[lo..hi]` is a mantissa.
fn mantissa_at(v: &Vec<char>, lo: usize, hi: usize) -> (r: bool)
    requires
        lo <= hi <= v@.len(),
    ensures
        r == is_mantissa(v@.subrange(lo as int, hi as int)),
{
    let ghost m = v@.subrange(lo as int, hi as int);
    let d = find_point(v, lo, hi);
    let ip_ok = digits_in(v, lo, lo + d);
    proof {
        assert(m.take(d as int) =~= v@.subrange(lo as int, lo + d));
    }
    let (fp_ok, fp_len) = if d < hi - lo {
        proof {
            assert(m.skip(d + 1) =~= v@.subrange(lo + d + 1, hi as int));
        }
        (digits_in(v, lo + d + 1, hi), hi - lo - d - 1)
    } else {
        proof {
            assert(all_digits(Seq::<char>::empty()));
        }
        (true, 0)
    };
    ip_ok && fp_ok && d + fp_len > 0
}

/// Whether `v[lo..hi]` is a decimal number.
fn decimal_at(v: &Vec<char>, lo: usize, hi: usize) -> (r: bool)
    requires
        lo <= hi <= v@.len(),
    ensures
        r == is_decimal(v@.subrange(lo as int, hi as int)),
{
    let ghost b = v@.subrange(lo as int, hi as int);
    let e = find_exp_mark(v, lo, hi);
    proof {
        assert(b.take(e as int) =~= v@.subrange(lo as int, lo + e));
    }
    let m_ok = mantissa_at(v, lo, lo + e);
    if !m_ok {
        return false;
    }
    if e == hi - lo {
        return true;
    }
    let start = lo + e + 1;
    let ghost exp = b.skip(e + 1);
    proof {
        assert(exp =~= v@.subrange(start as int, hi as int));
    }
    let s = if start < hi && (v[start] == '+' || v[start] == '-') { 1 } else { 0 };
    proof {
        assert(s == sign_len(exp));
        assert(exp.skip(sign_len(exp)) =~= v@.subrange(start + s, hi as int));
    }
    start + s < hi && digits_in(v, start + s, hi)
}

/// Whether a text is accepted by `f64::from_str`.
pub fn float_text(text: &str) -> (r: bool)
    ensures
        r == float_syntax(text@),
{
    let v = chars_of(text);
    let n = v.len();
    let s: usize = if n > 0 && (v[0] == '+' || v[0] == '-') { 1 } else { 0 };
    proof {
        assert(s == sign_len(text@));
        assert(text@.skip(s as int) =~= v@.subrange(s as int, n as int));
    }
    let inf = vec!['i', 'n', 'f'];
    let infinity = vec!['i', 'n', 'f', 'i', 'n', 'i', 't', 'y'];
    let nan = vec!['n', 'a', 'n'];
    proof {
        assert(inf@ =~= seq!['i', 'n', 'f']);
        assert(infinity@ =~= seq!['i', 'n', 'f', 'i', 'n', 'i', 't', 'y']);
        assert(nan@ =~= seq!['n', 'a', 'n']);
    }
    ci_word_at(&v, s, n, &inf) || ci_word_at(&v, s, n, &infinity) || ci_word_at(&v, s, n, &nan)
        || decimal_at(&v, s, n)
}

/// The value of a text of digits.
pub open spec fn digits_value(s: Seq<char>) -> int
    decreases s.len(),
{
    if s.len() == 0 {
        0
    } else {
        digits_value(s.drop_last()) * 10 + (s.last() as int - '0' as int)
    }
}

/// The syntax of `i64::from_str`: an optional sign, then at least one
/// digit, with the value in the range of `i64`.
pub open spec fn i64_syntax(s: Seq<char>) -> bool {
    let b = s.skip(sign_len(s));
    &&& b.len() > 0
    &&& all_digits(b)
    &&& if s[0] == '-' {
        digits_value(b) <= 0x8000_0000_0000_0000
    } else {
        digits_value(b) <= 0x7fff_ffff_ffff_ffff
    }
}

/// A text of digits is worth at least as much as each of its prefixes,
/// and nothing negative.
proof fn lemma_digits_value_prefix(s: Seq<char>, k: int)
    requires
        all_digits(s),
        0 <= k <= s.len(),
    ensures
        0 <= digits_value(s.take(k)) <= digits_value(s),
    decreases s.len(),
{
    if s.len() > 0 {
        let d = s.drop_last();
        assert(all_digits(d)) by {
            assert forall|i: int| 0 <= i < d.len() implies is_digit(#[trigger] d[i]) by {
                assert(d[i] == s[i]);
            }
        }
        assert(is_digit(s[s.len() - 1]));
        if k == s.len() {
            assert(s.take(k) =~= s);
            lemma_digits_value_prefix(d, d.len() as int);
            assert(d.take(d.len() as int) =~= d);
        } else {
            assert(s.take(k) =~= d.take(k));
            lemma_digits_value_prefix(d, k);
            lemma_digits_value_prefix(d, d.len() as int);
            assert(d.take(d.len() as int) =~= d);
        }
    } else {
        assert(s.take(k) =~= s);
    }
}

/// Whether a text is accepted by `i64::from_str`: an optional `+` or `-`
/// followed by one or more ASCII digits whose value fits in `i64`.
pub(crate) fn integer_text(text: &str) -> (r: bool)
    ensures
        r == i64_syntax(text@),
{
    let v = chars_of(text);
    let n = v.len();
    let s: usize = if n > 0 && (v[0] == '+' || v[0] == '-') { 1 } else { 0 };
    let ghost b = text@.skip(s as int);
    proof {
        assert(s == sign_len(text@));
        assert(b =~= v@.subrange(s as int, n as int));
    }
    if s >= n {
        return false;
    }
    let limit: u64 = if v[0] == '-' { 0x8000_0000_0000_0000 } else { 0x7fff_ffff_ffff_ffff };
    let mut value: u64 = 0;
    let mut i: usize = s;
    proof {
        assert(b.take(0) =~= Seq::<char>::empty());
    }
    while i < n
        invariant
            s <= i <= n,
            n == v@.len(),
            v@ == text@,
            b == text@.skip(s as int),
            s == sign_len(text@),
            b.len() == n - s,
            limit == (if text@[0] == '-' { 0x8000_0000_0000_0000u64 } else { 0x7fff_ffff_ffff_ffffu64 }),
            all_digits(b.take(i - s)),
            value == digits_value(b.take(i - s)),
            value <= limit,
        decreases n - i,
    {
        let c = v[i];
        proof {
            assert(b[i - s] == c);
        }
        if !('0' <= c && c <= '9') {
            proof {
                assert(!is_digit(b[i - s]));
            }
            return false;
        }
        let d: u32 = (c as u32) - ('0' as u32);
        let next: u128 = (value as u128) * 10 + (d as u128);
        proof {
            let p = b.take(i - s + 1);
            assert(p.drop_last() =~= b.take(i - s));
            assert(p.last() == c);
            assert(d as int == c as int - '0' as int);
            assert(digits_value(p) == value * 10 + d);
        }
        if next > limit as u128 {
            proof {
                let p = b.take(i - s + 1);
                assert forall|j: int| 0 <= j < p.len() implies is_digit(#[trigger] p[j]) by {
                    if j < p.len() - 1 {
                        assert(p[j] == b.take(i - s)[j]);
                    }
                }
                if all_digits(b) {
                    lemma_digits_value_prefix(b, i - s + 1);
                    assert(digits_value(b) > limit);
                }
            }
            return false;
        }
        value = next as u64;
        proof {
            let p = b.take(i - s + 1);
            assert forall|j: int| 0 <= j < p.len() implies is_digit(#[trigger] p[j]) by {
                if j < p.len() - 1 {
                    assert(p[j] == b.take(i - s)[j]);
                }
            }
        }
        i = i + 1;
    }
    proof {
        assert(b.take(n - s) =~= b);
    }
    true
}

/// Calls `String::from_iter` on the characters. Trusted: the text holds
/// exactly those characters, in order.
#[verifier::external_body]
pub(crate) fn string_from_chars(chars: &Vec<char>) -> (r: String)
    ensures
        r@ == chars@,
{
    chars.iter().collect()
}

/// Name of `char::is_alphabetic`: the Unicode `Alphabetic` property.
pub uninterp spec fn alphabetic(c: char) -> bool;

/// Name of `char::is_alphanumeric`: `Alphabetic` or `Numeric`.
pub uninterp spec fn alphanumeric(c: char) -> bool;

/// Calls `char::is_alphabetic`. Trusted: the result is the named Unicode
/// property of the character.
#[verifier::external_body]
pub(crate) fn char_is_alphabetic(c: char) -> (r: bool)
    ensures
        r == alphabetic(c),
{
    c.is_alphabetic()
}

/// Calls `char::is_alphanumeric`. Trusted: the result is the named Unicode
/// property of the character.
#[verifier::external_body]
pub(crate) fn char_is_alphanumeric(c: char) -> (r: bool)
    ensures
        r == alphanumeric(c),
{
    c.is_alphanumeric()
}

} // verus!
