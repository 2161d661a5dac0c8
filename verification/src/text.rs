use vstd::prelude::*;
use vstd::string::*;

verus! {

// ---------------------------------------------------------------------
// Specifications
// ---------------------------------------------------------------------

/// The character for a decimal digit.
pub open spec fn digit_char(d: nat) -> char {
    if d == 0 { '0' }
    else if d == 1 { '1' }
    else if d == 2 { '2' }
    else if d == 3 { '3' }
    else if d == 4 { '4' }
    else if d == 5 { '5' }
    else if d == 6 { '6' }
    else if d == 7 { '7' }
    else if d == 8 { '8' }
    else { '9' }
}

/// Decimal digits of a natural number, most significant first, without leading zeros.
pub open spec fn decimal_digits(n: nat) -> Seq<char>
    decreases n,
{
    if n < 10 {
        seq![digit_char(n)]
    } else {
        decimal_digits(n / 10).push(digit_char(n % 10))
    }
}

/// How an integer is written by `{}` formatting: an optional minus sign
/// followed by its decimal digits.
pub open spec fn decimal(n: int) -> Seq<char> {
    if n < 0 {
        seq!['-'] + decimal_digits((-n) as nat)
    } else {
        decimal_digits(n as nat)
    }
}

/// `pat` occurs in `s` starting at index `i`.
pub open spec fn occurs_at(s: Seq<char>, pat: Seq<char>, i: int) -> bool {
    0 <= i && i + pat.len() <= s.len() && s.subrange(i, i + pat.len()) == pat
}

/// `pat` occurs somewhere in `s`.
pub open spec fn occurs_in(s: Seq<char>, pat: Seq<char>) -> bool {
    exists|i: int| #[trigger] occurs_at(s, pat, i)
}

/// Every occurrence of `pat` in `s`, scanning left to right and never
/// overlapping, replaced by `rep` (what `str::replace` returns).
pub open spec fn replace_all(s: Seq<char>, pat: Seq<char>, rep: Seq<char>) -> Seq<char>
    decreases s.len(),
{
    if s.len() == 0 {
        s
    } else if pat.len() > 0 && pat.len() <= s.len() && s.take(pat.len() as int) == pat {
        rep + replace_all(s.skip(pat.len() as int), pat, rep)
    } else {
        seq![s[0]] + replace_all(s.skip(1), pat, rep)
    }
}

/// `rep` before every character of `s` and once more at its end: what
/// `str::replace` returns for an empty pattern.
pub open spec fn interleave(s: Seq<char>, rep: Seq<char>) -> Seq<char>
    decreases s.len(),
{
    if s.len() == 0 {
        rep
    } else {
        rep + seq![s[0]] + interleave(s.skip(1), rep)
    }
}

/// What `str::replace` returns: with a non-empty pattern every non-overlapping
/// occurrence from the left replaced; with an empty one `rep` put around every
/// character.
pub open spec fn str_replace(s: Seq<char>, pat: Seq<char>, rep: Seq<char>) -> Seq<char> {
    if pat.len() == 0 {
        interleave(s, rep)
    } else {
        replace_all(s, pat, rep)
    }
}

/// `s` ends with `suffix`.
pub open spec fn has_suffix(s: Seq<char>, suffix: Seq<char>) -> bool {
    suffix.len() <= s.len() && s.skip(s.len() - suffix.len()) == suffix
}

// ---------------------------------------------------------------------
// Executable text helpers
// ---------------------------------------------------------------------

/// Appends one character to a string (`String::push`).
#[verifier::external_body]
fn push_char(s: &mut String, c: char)
    ensures
        final(s)@ == old(s)@.push(c),
{
    s.push(c);
}

fn digit_to_char(d: u64) -> (c: char)
    requires
        d < 10,
    ensures
        c == digit_char(d as nat),
{
    if d == 0 { '0' }
    else if d == 1 { '1' }
    else if d == 2 { '2' }
    else if d == 3 { '3' }
    else if d == 4 { '4' }
    else if d == 5 { '5' }
    else if d == 6 { '6' }
    else if d == 7 { '7' }
    else if d == 8 { '8' }
    else { '9' }
}

fn push_digits(s: &mut String, n: u64)
    ensures
        final(s)@ == old(s)@ + decimal_digits(n as nat),
    decreases n,
{
    if n >= 10 {
        push_digits(s, n / 10);
    }
    push_char(s, digit_to_char(n % 10));
    proof {
        if n >= 10 {
            assert(decimal_digits(n as nat) == decimal_digits((n / 10) as nat).push(digit_char((n % 10) as nat)));
        } else {
            assert(decimal_digits(n as nat) == seq![digit_char(n as nat)]);
        }
    }
}

/// Appends the decimal form of `n` to `s`.
pub fn push_decimal(s: &mut String, n: i64)
    ensures
        final(s)@ == old(s)@ + decimal(n as int),
{
    if n < 0 {
        push_char(s, '-');
        let magnitude: u64 = if n == i64::MIN { 9223372036854775808u64 } else { (-n) as u64 };
        push_digits(s, magnitude);
        assert(s@ == old(s)@ + (seq!['-'] + decimal_digits((-n) as nat)));
    } else {
        push_digits(s, n as u64);
    }
}

/// The decimal form of `n`, as `n.to_string()` writes it.
pub fn decimal_string(n: i64) -> (res: String)
    ensures
        res@ == decimal(n as int),
{
    let mut s = String::new();
    push_decimal(&mut s, n);
    assert(s@ == decimal(n as int));
    s
}

/// The characters of a string slice, in order.
pub fn chars_of(s: &str) -> (v: Vec<char>)
    ensures
        v@ == s@,
{
    let n = s.unicode_len();
    let mut v: Vec<char> = Vec::new();
    let mut i: usize = 0;
    while i < n
        invariant
            n == s@.len(),
            i <= n,
            v@ == s@.take(i as int),
        decreases n - i,
    {
        v.push(s.get_char(i));
        i = i + 1;
        assert(v@ == s@.take(i as int));
    }
    assert(s@.take(n as int) == s@);
    v
}

/// Whether `pat` occurs in `s` at index `i`.
fn matches_at(s: &Vec<char>, pat: &Vec<char>, i: usize) -> (b: bool)
    ensures
        b == occurs_at(s@, pat@, i as int),
{
    if pat.len() > s.len() || i > s.len() - pat.len() {
        return false;
    }
    let mut j: usize = 0;
    while j < pat.len()
        invariant
            i + pat.len() <= s.len(),
            j <= pat.len(),
            forall|k: int| 0 <= k < j ==> s@[i + k] == pat@[k],
        decreases pat.len() - j,
    {
        if s[i + j] != pat[j] {
            assert(s@.subrange(i as int, i + pat.len())[j as int] != pat@[j as int]);
            return false;
        }
        j = j + 1;
    }
    assert(s@.subrange(i as int, i + pat.len()) =~= pat@);
    true
}

/// `rep` put before every character of `s` and at its end.
fn interleave_str(s: &str, rep: &str) -> (res: String)
    ensures
        res@ == interleave(s@, rep@),
{
    let cs = chars_of(s);
    let n = cs.len();
    let mut res = String::new();
    let mut i: usize = 0;
    assert(cs@.skip(0) == cs@);
    while i < n
        invariant
            cs@ == s@,
            n == cs@.len(),
            i <= n,
            interleave(s@, rep@) == res@ + interleave(cs@.skip(i as int), rep@),
        decreases n - i,
    {
        let ghost rest = cs@.skip(i as int);
        let ghost before = res@;
        assert(rest.skip(1) =~= cs@.skip(i + 1));
        assert(rest[0] == cs@[i as int]);
        res.append(rep);
        push_char(&mut res, cs[i]);
        assert(before + interleave(rest, rep@) =~= res@ + interleave(cs@.skip(i + 1), rep@));
        i = i + 1;
    }
    assert(cs@.skip(n as int).len() == 0);
    let ghost before = res@;
    res.append(rep);
    assert(res@ =~= before + rep@);
    res
}

/// What `str::replace` returns: every occurrence of `pat` in `s` replaced by
/// `rep`, scanning left to right (with an empty `pat`, `rep` goes around every
/// character).
pub fn replace_str(s: &str, pat: &str, rep: &str) -> (res: String)
    ensures
        res@ == str_replace(s@, pat@, rep@),
{
    let cs = chars_of(s);
    let ps = chars_of(pat);
    let n = cs.len();
    let plen = ps.len();
    if plen == 0 {
        return interleave_str(s, rep);
    }
    let mut res = String::new();
    let mut i: usize = 0;
    assert(cs@.skip(0) == cs@);
    while i < n
        invariant
            cs@ == s@,
            ps@ == pat@,
            n == cs@.len(),
            plen == ps@.len(),
            plen > 0,
            i <= n,
            replace_all(s@, pat@, rep@) == res@ + replace_all(cs@.skip(i as int), pat@, rep@),
        decreases n - i,
    {
        let ghost rest = cs@.skip(i as int);
        if matches_at(&cs, &ps, i) {
            assert(rest.take(plen as int) =~= cs@.subrange(i as int, i + plen));
            assert(rest.skip(plen as int) =~= cs@.skip(i + plen));
            res.append(rep);
            i = i + plen;
        } else {
            assert(rest.len() >= plen ==> rest.take(plen as int) =~= cs@.subrange(i as int, i + plen));
            assert(rest.skip(1) =~= cs@.skip(i + 1));
            assert(rest[0] == cs@[i as int]);
            push_char(&mut res, cs[i]);
            i = i + 1;
        }
    }
    assert(cs@.skip(n as int).len() == 0);
    res
}

/// Whether `s` ends with `suffix`.
pub fn ends_with(s: &str, suffix: &str) -> (b: bool)
    ensures
        b == has_suffix(s@, suffix@),
{
    let cs = chars_of(s);
    let ps = chars_of(suffix);
    if ps.len() > cs.len() {
        return false;
    }
    let start = cs.len() - ps.len();
    let b = matches_at(&cs, &ps, start);
    assert(cs@.subrange(start as int, start + ps@.len()) =~= cs@.skip(start as int));
    b
}

} // verus!
