//! Small verified helpers on text: decimal rendering of numbers, suffixes of
//! string slices, lists of strings and amounts of milli-units.

use vstd::prelude::*;

verus! {

/// The character of a decimal digit.
pub open spec fn digit_char(d: nat) -> char {
    if d == 0 { '0' }
    else if d == 1 { '1' }
    else if d == 2 { '2' }
    else if d == 3 { '3' }
    else if d == 4 { '4' }
    else if d == 5 { '5' }
    else if d == 6 { '6' }
    else if d == 7 { '7' }
    else if d == 8 { '8' }
    else { '9' }
}

/// The decimal rendering of a natural number, without leading zeros.
pub open spec fn decimal(n: nat) -> Seq<char>
    decreases n,
{
    if n < 10 {
        seq![digit_char(n)]
    } else {
        decimal(n / 10) + seq![digit_char(n % 10)]
    }
}

/// A decimal rendering has one digit below ten and more from ten on.
pub proof fn lemma_decimal_len(n: nat)
    ensures
        decimal(n).len() >= 1,
        n >= 10 ==> decimal(n).len() >= 2,
    decreases n,
{
    if n >= 10 {
        lemma_decimal_len(n / 10);
    }
}

/// Different numbers have different decimal renderings.
pub proof fn lemma_decimal_injective(a: nat, b: nat)
    requires
        decimal(a) == decimal(b),
    ensures
        a == b,
    decreases a,
{
    lemma_decimal_len(a);
    lemma_decimal_len(b);
    if a < 10 && b < 10 {
        assert(decimal(a)[0] == digit_char(a));
        assert(decimal(b)[0] == digit_char(b));
    } else if a >= 10 && b >= 10 {
        let da = decimal(a / 10);
        let db = decimal(b / 10);
        let n = decimal(a).len();
        assert(da =~= decimal(a).subrange(0, n - 1));
        assert(db =~= decimal(b).subrange(0, n - 1));
        lemma_decimal_injective(a / 10, b / 10);
        assert(decimal(a)[n - 1] == digit_char(a % 10));
        assert(decimal(b)[n - 1] == digit_char(b % 10));
    } else {
        assert(decimal(a).len() != decimal(b).len());
    }
}

fn digit_str(d: u8) -> (s: &'static str)
    requires
        d < 10,
    ensures
        s@ == seq![digit_char(d as nat)],
{
    proof {
        reveal_strlit("0");
        reveal_strlit("1");
        reveal_strlit("2");
        reveal_strlit("3");
        reveal_strlit("4");
        reveal_strlit("5");
        reveal_strlit("6");
        reveal_strlit("7");
        reveal_strlit("8");
        reveal_strlit("9");
    }
    match d {
        0 => "0",
        1 => "1",
        2 => "2",
        3 => "3",
        4 => "4",
        5 => "5",
        6 => "6",
        7 => "7",
        8 => "8",
        _ => "9",
    }
}

/// Appends the decimal rendering of `n` to `out`.
pub fn push_decimal(out: &mut String, n: u128)
    ensures
        final(out)@ == old(out)@ + decimal(n as nat),
    decreases n,
{
    if n >= 10 {
        push_decimal(out, n / 10);
    }
    let d = (n % 10) as u8;
    out.append(digit_str(d));
    proof {
        assert(old(out)@ + decimal(n as nat) =~= if n >= 10 {
            old(out)@ + decimal((n / 10) as nat) + seq![digit_char((n % 10) as nat)]
        } else {
            old(out)@ + seq![digit_char(n as nat)]
        });
    }
}

/// The decimal rendering of `n` as a new string.
pub fn decimal_string(n: u128) -> (s: String)
    ensures
        s@ == decimal(n as nat),
{
    let mut s = String::new();
    push_decimal(&mut s, n);
    assert(s@ =~= decimal(n as nat));
    s
}

/// Whether `suffix` is a suffix of `s`.
pub fn has_suffix(s: &str, suffix: &str) -> (r: bool)
    ensures
        r == (suffix@.len() <= s@.len() && s@.subrange(
            s@.len() - suffix@.len(),
            s@.len() as int,
        ) == suffix@),
{
    let n = s.unicode_len();
    let m = suffix.unicode_len();
    if m > n {
        return false;
    }
    let off = n - m;
    let mut i: usize = 0;
    while i < m
        invariant
            m <= n,
            off == n - m,
            n == s@.len(),
            m == suffix@.len(),
            i <= m,
            forall|j: int| 0 <= j < i ==> s@[off + j] == suffix@[j],
        decreases m - i,
    {
        if s.get_char(off + i) != suffix.get_char(i) {
            assert(s@.subrange(off as int, n as int)[i as int] != suffix@[i as int]);
            return false;
        }
        i = i + 1;
    }
    assert(s@.subrange(off as int, n as int) =~= suffix@);
    true
}

/// The character sequences of a list of strings.
pub open spec fn strings_view(v: Seq<String>) -> Seq<Seq<char>> {
    v.map_values(|s: String| s@)
}

/// Whether `v` holds a string equal to `s`.
pub fn contains_str(v: &Vec<String>, s: &str) -> (r: bool)
    ensures
        r == strings_view(v@).contains(s@),
{
    let k = s.to_owned();
    let mut i: usize = 0;
    while i < v.len()
        invariant
            i <= v@.len(),
            k@ == s@,
            forall|j: int| 0 <= j < i ==> v@[j]@ != s@,
        decreases v@.len() - i,
    {
        if v[i] == k {
            assert(strings_view(v@)[i as int] == s@);
            return true;
        }
        i = i + 1;
    }
    assert forall|j: int| 0 <= j < strings_view(v@).len() implies strings_view(v@)[j] != s@ by {
        assert(strings_view(v@)[j] == v@[j]@);
    }
    false
}

/// Appends `s` to `v` unless `v` already holds it.
pub fn push_if_absent(v: &mut Vec<String>, s: &str)
    ensures
        strings_view(final(v)@) == (if strings_view(old(v)@).contains(s@) {
            strings_view(old(v)@)
        } else {
            strings_view(old(v)@).push(s@)
        }),
{
    if !contains_str(v, s) {
        v.push(s.to_owned());
        assert(strings_view(v@) =~= strings_view(old(v)@).push(s@));
    }
}

/// Removes from `v` every string equal to `s`, keeping the others in order.
pub fn remove_all_str(v: &mut Vec<String>, s: &str)
    ensures
        strings_view(final(v)@) == strings_view(old(v)@).filter(|q: Seq<char>| q != s@),
{
    let k = s.to_owned();
    let ghost pred = |q: Seq<char>| q != s@;
    let ghost orig = strings_view(v@);
    let mut kept: Vec<String> = Vec::new();
    let mut i: usize = 0;
    while i < v.len()
        invariant
            i <= v@.len(),
            k@ == s@,
            orig == strings_view(v@),
            pred == (|q: Seq<char>| q != s@),
            strings_view(kept@) == orig.take(i as int).filter(pred),
        decreases v@.len() - i,
    {
        proof {
            assert(orig.take(i + 1) =~= orig.take(i as int).push(orig[i as int]));
            orig.take(i as int).lemma_filter_push(orig[i as int], pred);
        }
        if v[i] != k {
            kept.push(v[i].clone());
            assert(strings_view(kept@) =~= orig.take(i as int).filter(pred).push(orig[i as int]));
        }
        i = i + 1;
    }
    assert(orig.take(v@.len() as int) =~= orig);
    *v = kept;
}

/// A copy of a list of strings.
pub fn clone_strings(v: &Vec<String>) -> (r: Vec<String>)
    ensures
        r@ == v@,
{
    let mut r: Vec<String> = Vec::new();
    let mut i: usize = 0;
    while i < v.len()
        invariant
            i <= v@.len(),
            r@ == v@.take(i as int),
        decreases v@.len() - i,
    {
        r.push(v[i].clone());
        assert(v@.take(i + 1) =~= v@.take(i as int).push(v@[i as int]));
        i = i + 1;
    }
    assert(v@.take(v@.len() as int) =~= v@);
    r
}

/// The fractional digits of a thousandth count `1..=999`, without trailing
/// zeros.
pub open spec fn thousandths_text(f: nat) -> Seq<char> {
    let d1 = f / 100;
    let d2 = (f / 10) % 10;
    let d3 = f % 10;
    if d3 != 0 {
        seq![digit_char(d1), digit_char(d2), digit_char(d3)]
    } else if d2 != 0 {
        seq![digit_char(d1), digit_char(d2)]
    } else {
        seq![digit_char(d1)]
    }
}

/// A non-negative amount of milli-units as a decimal number of units: the
/// whole part, then a point and the fractional digits when there are any.
pub open spec fn units_text(n: nat) -> Seq<char> {
    if n % 1000 == 0 {
        decimal(n / 1000)
    } else {
        decimal(n / 1000) + "."@ + thousandths_text(n % 1000)
    }
}

/// An amount of milli-units as a decimal number of units, `-` in front
/// when negative.
pub open spec fn milli_text(v: int) -> Seq<char> {
    if v < 0 {
        "-"@ + units_text((-v) as nat)
    } else {
        units_text(v as nat)
    }
}

/// Renders an amount of milli-units as a decimal number of units.
pub fn milli_string(v: i128) -> (s: String)
    requires
        v > i128::MIN,
    ensures
        s@ == milli_text(v as int),
{
    proof {
        reveal_strlit(".");
        reveal_strlit("-");
    }
    let wide = v;
    let mag: u128 = if wide < 0 { (-wide) as u128 } else { wide as u128 };
    let mut s = if wide < 0 { String::from_str("-") } else { String::new() };
    let ghost prefix = s@;
    push_decimal(&mut s, mag / 1000);
    let f = mag % 1000;
    if f != 0 {
        s.append(".");
        let d1 = (f / 100) as u8;
        let d2 = ((f / 10) % 10) as u8;
        let d3 = (f % 10) as u8;
        s.append(digit_str(d1));
        if d2 != 0 || d3 != 0 {
            s.append(digit_str(d2));
        }
        if d3 != 0 {
            s.append(digit_str(d3));
        }
        assert(s@ =~= prefix + units_text(mag as nat));
    } else {
        assert(s@ =~= prefix + units_text(mag as nat));
    }
    assert(s@ =~= milli_text(v as int));
    s
}

} // verus!
