//! Character-level text operations with exact specifications.
//!
//! Strings are reasoned about through their view, a `Seq<char>`.

use vstd::prelude::*;

verus! {

/// Appends one character to a string (std's `String::push`).
#[verifier::external_body]
pub(crate) fn push_char(s: &mut String, c: char)
    ensures
        final(s)@ == old(s)@.push(c),
{
    s.push(c);
}

/// The characters of `s`, in order.
pub fn chars_of(s: &str) -> (v: Vec<char>)
    ensures
        v@ == s@,
{
    let mut v: Vec<char> = Vec::new();
    for c in it: s.chars()
        invariant
            v@ == it.seq().take(it.index() as int),
    {
        v.push(c);
    }
    v
}

/// A string made of the characters of `v`, in order.
pub fn string_from_chars(v: &Vec<char>) -> (s: String)
    ensures
        s@ == v@,
{
    let mut s = String::new();
    let mut i: usize = 0;
    while i < v.len()
        invariant
            i <= v.len(),
            s@ == v@.take(i as int),
        decreases v.len() - i,
    {
        push_char(&mut s, v[i]);
        proof {
            assert(v@.take(i + 1) =~= v@.take(i as int).push(v@[i as int]));
        }
        i = i + 1;
    }
    proof {
        assert(v@.take(v.len() as int) =~= v@);
    }
    s
}

} // verus!

verus! {

// ---------------------------------------------------------------------------
// Prefixes, suffixes and occurrences
// ---------------------------------------------------------------------------

/// `pat` occurs in `s` starting at position `i`.
pub open spec fn occurs_at(s: Seq<char>, pat: Seq<char>, i: int) -> bool {
    0 <= i && i + pat.len() <= s.len() && s.subrange(i, i + pat.len()) == pat
}

pub open spec fn has_suffix(s: Seq<char>, pat: Seq<char>) -> bool {
    occurs_at(s, pat, s.len() - pat.len())
}

/// Position of the first occurrence of `pat` at or after `i`, or `s.len()` when there is none.
pub open spec fn first_occurrence_from(s: Seq<char>, pat: Seq<char>, i: int) -> int
    decreases s.len() + 1 - i,
{
    if i < 0 || i > s.len() - pat.len() {
        s.len() as int
    } else if occurs_at(s, pat, i) {
        i
    } else {
        first_occurrence_from(s, pat, i + 1)
    }
}

/// What `s.split(pat).next()` yields: the text before the first occurrence of `pat`,
/// or all of `s` when `pat` does not occur.
pub open spec fn split_head(s: Seq<char>, pat: Seq<char>) -> Seq<char> {
    s.take(first_occurrence_from(s, pat, 0))
}

/// Whether `pat` occurs in `s` at position `i` (a precondition keeps the window in bounds).
fn matches_at(s: &Vec<char>, i: usize, pat: &Vec<char>) -> (r: bool)
    requires
        i + pat.len() <= s.len(),
    ensures
        r == occurs_at(s@, pat@, i as int),
{
    let mut j: usize = 0;
    while j < pat.len()
        invariant
            j <= pat.len(),
            i + pat.len() <= s.len(),
            forall|k: int| 0 <= k < j ==> s@[i + k] == pat@[k],
        decreases pat.len() - j,
    {
        if s[i + j] != pat[j] {
            proof {
                assert(s@.subrange(i as int, i + pat.len())[j as int] != pat@[j as int]);
            }
            return false;
        }
        j = j + 1;
    }
    proof {
        assert(s@.subrange(i as int, i + pat.len()) =~= pat@);
    }
    true
}

/// `s` ends with `pat` (std's `str::ends_with` with a string pattern).
pub fn ends_with(s: &str, pat: &str) -> (r: bool)
    ensures
        r == has_suffix(s@, pat@),
{
    let sc = chars_of(s);
    let pc = chars_of(pat);
    if pc.len() > sc.len() {
        return false;
    }
    matches_at(&sc, sc.len() - pc.len(), &pc)
}

/// Index of the first occurrence of `pat` in `s`, or `s.len()`.
fn first_occurrence(s: &Vec<char>, pat: &Vec<char>) -> (k: usize)
    ensures
        k as int == first_occurrence_from(s@, pat@, 0),
        k <= s.len(),
{
    if pat.len() > s.len() {
        return s.len();
    }
    let last: usize = s.len() - pat.len();
    let mut i: usize = 0;
    while i < last
        invariant
            last == s.len() - pat.len(),
            i <= last,
            first_occurrence_from(s@, pat@, 0) == first_occurrence_from(s@, pat@, i as int),
        decreases last - i,
    {
        if matches_at(s, i, pat) {
            return i;
        }
        i = i + 1;
    }
    if matches_at(s, last, pat) {
        return last;
    }
    proof {
        assert(first_occurrence_from(s@, pat@, last + 1) == s.len());
    }
    s.len()
}

/// The text of `s` before the first occurrence of `pat` (`s.split(pat).next()`).
pub fn head_before(s: &str, pat: &str) -> (r: String)
    ensures
        r@ == split_head(s@, pat@),
{
    let sc = chars_of(s);
    let pc = chars_of(pat);
    let k = first_occurrence(&sc, &pc);
    let mut out: Vec<char> = Vec::new();
    let mut i: usize = 0;
    while i < k
        invariant
            k <= sc.len(),
            i <= k,
            out@ == sc@.take(i as int),
        decreases k - i,
    {
        out.push(sc[i]);
        proof {
            assert(sc@.take(i + 1) =~= sc@.take(i as int).push(sc@[i as int]));
        }
        i = i + 1;
    }
    string_from_chars(&out)
}

// ---------------------------------------------------------------------------
// Replacing every occurrence of a pattern
// ---------------------------------------------------------------------------

/// Every non-overlapping occurrence of `pat` in `s`, scanned from the left, replaced by `rep`
/// (std's `str::replace` for a non-empty pattern).
pub open spec fn replace_all(s: Seq<char>, pat: Seq<char>, rep: Seq<char>) -> Seq<char>
    decreases s.len(),
{
    if pat.len() == 0 || s.len() < pat.len() {
        s
    } else if s.take(pat.len() as int) == pat {
        rep + replace_all(s.skip(pat.len() as int), pat, rep)
    } else {
        seq![s[0]] + replace_all(s.skip(1), pat, rep)
    }
}

fn replace_chars(s: &Vec<char>, pat: &Vec<char>, rep: &Vec<char>) -> (out: Vec<char>)
    requires
        pat.len() > 0,
    ensures
        out@ == replace_all(s@, pat@, rep@),
{
    let mut out: Vec<char> = Vec::new();
    let mut i: usize = 0;
    proof {
        assert(s@.skip(0) =~= s@);
        assert(out@ + replace_all(s@, pat@, rep@) =~= replace_all(s@, pat@, rep@));
    }
    while i < s.len()
        invariant
            pat.len() > 0,
            i <= s.len(),
            replace_all(s@, pat@, rep@) == out@ + replace_all(s@.skip(i as int), pat@, rep@),
        decreases s.len() - i,
    {
        let ghost t = s@.skip(i as int);
        if pat.len() <= s.len() - i && matches_at(s, i, pat) {
            proof {
                assert(t.take(pat.len() as int) =~= s@.subrange(i as int, i + pat.len()));
                assert(t.skip(pat.len() as int) =~= s@.skip(i + pat.len()));
            }
            let mut j: usize = 0;
            let ghost before = out@;
            while j < rep.len()
                invariant
                    j <= rep.len(),
                    out@ == before + rep@.take(j as int),
                decreases rep.len() - j,
            {
                out.push(rep[j]);
                proof {
                    assert(rep@.take(j + 1) =~= rep@.take(j as int).push(rep@[j as int]));
                }
                j = j + 1;
            }
            proof {
                assert(rep@.take(rep.len() as int) =~= rep@);
                assert(before + (rep@ + replace_all(s@.skip(i + pat.len()), pat@, rep@))
                    =~= out@ + replace_all(s@.skip(i + pat.len()), pat@, rep@));
            }
            i = i + pat.len();
        } else {
            proof {
                assert(t.skip(1) =~= s@.skip(i + 1));
                if t.len() >= pat.len() {
                    assert(t.take(pat.len() as int) =~= s@.subrange(i as int, i + pat.len()));
                } else {
                    assert(t =~= seq![t[0]] + t.skip(1));
                }
                assert(out@ + (seq![s@[i as int]] + replace_all(s@.skip(i + 1), pat@, rep@))
                    =~= out@.push(s@[i as int]) + replace_all(s@.skip(i + 1), pat@, rep@));
            }
            out.push(s[i]);
            i = i + 1;
        }
    }
    proof {
        assert(s@.skip(i as int) =~= Seq::<char>::empty());
        assert(out@ + Seq::<char>::empty() =~= out@);
    }
    out
}

/// `s` with every occurrence of the non-empty `pat` replaced by `rep`.
pub fn replace_str(s: &str, pat: &str, rep: &str) -> (r: String)
    requires
        pat@.len() > 0,
    ensures
        r@ == replace_all(s@, pat@, rep@),
{
    let sc = chars_of(s);
    let pc = chars_of(pat);
    let rc = chars_of(rep);
    let out = replace_chars(&sc, &pc, &rc);
    string_from_chars(&out)
}

} // verus!

verus! {

// ---------------------------------------------------------------------------
// Decimal numerals
// ---------------------------------------------------------------------------

/// The ASCII digit for `d` in `0..10`.
pub open spec fn digit_char(d: int) -> char {
    if d == 0 { '0' }
    else if d == 1 { '1' }
    else if d == 2 { '2' }
    else if d == 3 { '3' }
    else if d == 4 { '4' }
    else if d == 5 { '5' }
    else if d == 6 { '6' }
    else if d == 7 { '7' }
    else if d == 8 { '8' }
    else { '9' }
}

/// The value of an ASCII digit (meaningful only for `'0'..='9'`).
pub open spec fn digit_value(c: char) -> int {
    c as int - '0' as int
}

pub open spec fn is_digit(c: char) -> bool {
    '0' <= c && c <= '9'
}

/// The decimal numeral of `n`, without leading zeros (what `Display` prints for an unsigned integer).
pub open spec fn decimal(n: nat) -> Seq<char>
    decreases n,
{
    if n < 10 {
        seq![digit_char(n as int)]
    } else {
        decimal(n / 10).push(digit_char((n % 10) as int))
    }
}

/// The decimal numeral of `i`, with a leading `-` when negative (`Display` for a signed integer).
pub open spec fn signed_decimal(i: int) -> Seq<char> {
    if i < 0 {
        seq!['-'] + decimal((-i) as nat)
    } else {
        decimal(i as nat)
    }
}

fn digit_of(d: u64) -> (c: char)
    requires
        d < 10,
    ensures
        c == digit_char(d as int),
{
    if d == 0 { '0' }
    else if d == 1 { '1' }
    else if d == 2 { '2' }
    else if d == 3 { '3' }
    else if d == 4 { '4' }
    else if d == 5 { '5' }
    else if d == 6 { '6' }
    else if d == 7 { '7' }
    else if d == 8 { '8' }
    else { '9' }
}

fn push_decimal(out: &mut Vec<char>, n: u64)
    ensures
        final(out)@ == old(out)@ + decimal(n as nat),
    decreases n,
{
    if n >= 10 {
        push_decimal(out, n / 10);
    }
    let c = digit_of(n % 10);
    out.push(c);
    proof {
        if n >= 10 {
            assert(decimal(n as nat) == decimal((n / 10) as nat).push(digit_char((n % 10) as int)));
        }
    }
    assert(out@ =~= old(out)@ + decimal(n as nat));
}

/// Appends the decimal numeral of `n` to `s`.
pub fn append_u64(s: &mut String, n: u64)
    ensures
        final(s)@ == old(s)@ + decimal(n as nat),
{
    let mut digits: Vec<char> = Vec::new();
    push_decimal(&mut digits, n);
    assert(digits@ =~= decimal(n as nat));
    let t = string_from_chars(&digits);
    s.append(t.as_str());
}

/// The decimal numeral of `n` (`n.to_string()`).
pub fn u64_to_string(n: u64) -> (s: String)
    ensures
        s@ == decimal(n as nat),
{
    let mut s = String::new();
    append_u64(&mut s, n);
    assert(s@ =~= decimal(n as nat));
    s
}

/// The decimal numeral of `i` with its sign (`i.to_string()`).
pub fn i64_to_string(i: i64) -> (s: String)
    ensures
        s@ == signed_decimal(i as int),
{
    let mut s = String::new();
    if i < 0 {
        s.append("-");
        proof {
            reveal_strlit("-");
        }
        let magnitude: u64 = if i == i64::MIN {
            9223372036854775808u64
        } else {
            (-i) as u64
        };
        append_u64(&mut s, magnitude);
        assert(s@ =~= signed_decimal(i as int));
    } else {
        append_u64(&mut s, i as u64);
        assert(s@ =~= signed_decimal(i as int));
    }
    s
}

// ---------------------------------------------------------------------------
// Parsing signed integers
// ---------------------------------------------------------------------------

/// The value of a string of digits read in base ten (0 for the empty string).
pub open spec fn digits_value(s: Seq<char>) -> int
    decreases s.len(),
{
    if s.len() == 0 {
        0
    } else {
        digits_value(s.drop_last()) * 10 + digit_value(s.last())
    }
}

pub open spec fn all_digits(s: Seq<char>) -> bool {
    forall|k: int| 0 <= k < s.len() ==> is_digit(#[trigger] s[k])
}

/// The digits after an optional leading sign.
pub open spec fn unsigned_part(s: Seq<char>) -> Seq<char> {
    if s.len() > 0 && (s[0] == '-' || s[0] == '+') {
        s.skip(1)
    } else {
        s
    }
}

pub open spec fn is_negative_numeral(s: Seq<char>) -> bool {
    s.len() > 0 && s[0] == '-'
}

/// The value of a signed numeral, read as std's `i64::from_str` reads it: an optional `+` or `-`,
/// then one or more ASCII digits, and nothing else.
pub open spec fn numeral_value(s: Seq<char>) -> int {
    if is_negative_numeral(s) {
        -digits_value(unsigned_part(s))
    } else {
        digits_value(unsigned_part(s))
    }
}

/// `s` is accepted by `i64::from_str`.
pub open spec fn parses_as_i64(s: Seq<char>) -> bool {
    &&& unsigned_part(s).len() > 0
    &&& all_digits(unsigned_part(s))
    &&& i64::MIN <= numeral_value(s) <= i64::MAX
}

proof fn lemma_digits_value_nonneg(s: Seq<char>)
    requires
        all_digits(s),
    ensures
        digits_value(s) >= 0,
    decreases s.len(),
{
    if s.len() > 0 {
        assert(all_digits(s.drop_last())) by {
            assert forall|k: int| 0 <= k < s.drop_last().len() implies is_digit(#[trigger] s.drop_last()[k]) by {
                assert(s.drop_last()[k] == s[k]);
            }
        }
        lemma_digits_value_nonneg(s.drop_last());
        assert(is_digit(s[s.len() - 1]));
    }
}

/// Reads `s` as `i64::from_str` does; `None` on any input that it rejects.
pub fn parse_i64(s: &str) -> (r: Option<i64>)
    ensures
        r is Some <==> parses_as_i64(s@),
        r matches Some(v) ==> v as int == numeral_value(s@),
{
    let c = chars_of(s);
    let mut start: usize = 0;
    let mut negative = false;
    if c.len() > 0 && (c[0] == '-' || c[0] == '+') {
        negative = c[0] == '-';
        start = 1;
    }
    let ghost body = unsigned_part(s@);
    proof {
        assert(body =~= c@.skip(start as int));
    }
    if start >= c.len() {
        return None;
    }
    // 2^63: the largest magnitude that a negative i64 can have.
    let limit: u128 = 9223372036854775808u128;
    let mut acc: u128 = 0;
    let mut overflow = false;
    let mut i: usize = start;
    while i < c.len()
        invariant
            start <= i <= c.len(),
            c@ == s@,
            body == unsigned_part(s@),
            negative == is_negative_numeral(s@),
            body =~= c@.skip(start as int),
            all_digits(c@.subrange(start as int, i as int)),
            !overflow ==> acc as int == digits_value(c@.subrange(start as int, i as int)),
            !overflow ==> acc <= limit,
            overflow ==> digits_value(c@.subrange(start as int, i as int)) > limit,
            limit == 9223372036854775808u128,
        decreases c.len() - i,
    {
        let ch = c[i];
        let ghost prefix = c@.subrange(start as int, i as int);
        let ghost next = c@.subrange(start as int, i + 1);
        proof {
            assert(next.drop_last() =~= prefix);
            assert(next.last() == ch);
        }
        if !('0' <= ch && ch <= '9') {
            proof {
                assert(body[i - start] == ch);
                assert(!is_digit(body[i - start]));
                assert(!all_digits(body));
            }
            return None;
        }
        proof {
            assert(all_digits(next)) by {
                assert forall|k: int| 0 <= k < next.len() implies is_digit(#[trigger] next[k]) by {
                    if k < prefix.len() {
                        assert(next[k] == prefix[k]);
                    }
                }
            }
            lemma_digits_value_nonneg(prefix);
        }
        let d: u128 = (ch as u32 - '0' as u32) as u128;
        if !overflow {
            let v: u128 = acc * 10 + d;
            if v > limit {
                overflow = true;
            } else {
                acc = v;
            }
        } else {
            proof {
                assert(digits_value(next) == digits_value(prefix) * 10 + d);
                assert(digits_value(prefix) * 10 >= digits_value(prefix)) by (nonlinear_arith)
                    requires digits_value(prefix) >= 0;
            }
        }
        i = i + 1;
    }
    proof {
        assert(c@.subrange(start as int, c.len() as int) =~= body);
    }
    if overflow {
        return None;
    }
    if negative {
        // acc <= 2^63, so -acc fits in i64.
        if acc == limit {
            return Some(i64::MIN);
        }
        Some(-(acc as i64))
    } else {
        if acc > 9223372036854775807u128 {
            return None;
        }
        Some(acc as i64)
    }
}

} // verus!

verus! {

/// `b` occurs in `a + b + c` right after `a`.
pub proof fn lemma_occurs_between(a: Seq<char>, b: Seq<char>, c: Seq<char>)
    ensures
        occurs_at(a + b + c, b, a.len() as int),
{
    assert((a + b + c).subrange(a.len() as int, (a.len() + b.len()) as int) =~= b);
}

} // verus!
