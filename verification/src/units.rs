//! Unit systems and fraction arithmetic for displaying dimensions.
use vstd::prelude::*;

use crate::text::{
    chars_of, ends_with, ends_with_range, find, find_range, text_eq, text_of, trim, trim_end_matches,
    trim_end_matches_range, trim_range,
};

verus! {

/// How dimensions are shown to the user.
#[derive(Clone, Copy, Debug, PartialEq, Eq, Structural)]
pub enum UnitSystem {
    Imperial,
    Metric,
}

impl Default for UnitSystem {
    fn default() -> (u: UnitSystem)
        ensures
            u == UnitSystem::Imperial,
    {
        UnitSystem::Imperial
    }
}

/// The unit system a user-interface key names: `metric`, else imperial.
pub fn parse_unit_system(s: &str) -> (u: UnitSystem)
    ensures
        u == (if s@ == "metric"@ {
            UnitSystem::Metric
        } else {
            UnitSystem::Imperial
        }),
{
    if text_eq(s, "metric") {
        UnitSystem::Metric
    } else {
        UnitSystem::Imperial
    }
}

/// The user-interface key of a unit system.
pub fn unit_system_key(u: UnitSystem) -> (s: String)
    ensures
        s@ == (match u {
            UnitSystem::Imperial => "imperial"@,
            UnitSystem::Metric => "metric"@,
        }),
{
    match u {
        UnitSystem::Imperial => String::from_str("imperial"),
        UnitSystem::Metric => String::from_str("metric"),
    }
}

/// `2` to the power `k`.
pub open spec fn pow2(k: nat) -> int
    decreases k,
{
    if k == 0 {
        1
    } else {
        2 * pow2((k - 1) as nat)
    }
}

/// Reduces a fraction by its common factors of two: the result is
/// `(num / 2^k, den / 2^k)` for the largest `k` that divides both.
pub fn simplify_fraction(num: i64, den: i64) -> (r: (i64, i64))
    requires
        num != 0 || den != 0,
    ensures
        exists|k: nat| num == r.0 * pow2(k) && den == r.1 * pow2(k),
        !(r.0 % 2 == 0 && r.1 % 2 == 0),
{
    let mut n = num;
    let mut d = den;
    let ghost mut k: nat = 0;
    while n % 2 == 0 && d % 2 == 0
        invariant
            n != 0 || d != 0,
            num == n * pow2(k),
            den == d * pow2(k),
        decreases (if n < 0 { -(n as int) } else { n as int }) + (if d < 0 { -(d as int) } else { d as int }),
    {
        assert(n == 2 * (n / 2));
        assert(d == 2 * (d / 2));
        proof {
            assert(pow2(k + 1) == 2 * pow2(k));
            assert(num == (n / 2) * pow2(k + 1)) by (nonlinear_arith)
                requires
                    num == n * pow2(k),
                    n == 2 * (n / 2),
                    pow2(k + 1) == 2 * pow2(k),
            ;
            assert(den == (d / 2) * pow2(k + 1)) by (nonlinear_arith)
                requires
                    den == d * pow2(k),
                    d == 2 * (d / 2),
                    pow2(k + 1) == 2 * pow2(k),
            ;
            k = k + 1;
        }
        n = n / 2;
        d = d / 2;
    }
    (n, d)
}

/// How an inch value is written, as the contracts see it.
pub enum InchesForm {
    Decimal(Seq<char>),
    Fraction(Seq<char>, Seq<char>),
    Mixed(Seq<char>, Seq<char>, Seq<char>),
    Malformed,
}

/// How a dimension is written, as the contracts see it.
pub enum DimensionForm {
    Millimeters(Seq<char>),
    Meters(Seq<char>),
    FeetInches(Seq<char>, Option<InchesForm>),
    Inches(InchesForm),
}

/// How an inch value is written: a plain number (`3.5`), a fraction
/// (`1/2`: numerator and denominator), a whole number and a fraction
/// (`3-1/2`), or, with a `/` in no such place, nothing readable.
pub enum InchesText {
    Decimal(String),
    Fraction(String, String),
    Mixed(String, String, String),
    Malformed,
}

/// How a dimension is written: millimeters (`88.9mm`), meters (`2m`), feet
/// with optional inches (`8' 6"`, `2ft 6in`), or inches (`3-1/2"`). The
/// texts are the numbers, trimmed, still to be read as decimals.
pub enum DimensionText {
    Millimeters(String),
    Meters(String),
    FeetInches(String, Option<InchesText>),
    Inches(InchesText),
}

impl View for InchesText {
    type V = InchesForm;

    open spec fn view(&self) -> InchesForm {
        match self {
            InchesText::Decimal(d) => InchesForm::Decimal(d@),
            InchesText::Fraction(n, d) => InchesForm::Fraction(n@, d@),
            InchesText::Mixed(w, n, d) => InchesForm::Mixed(w@, n@, d@),
            InchesText::Malformed => InchesForm::Malformed,
        }
    }
}

impl View for DimensionText {
    type V = DimensionForm;

    open spec fn view(&self) -> DimensionForm {
        match self {
            DimensionText::Millimeters(t) => DimensionForm::Millimeters(t@),
            DimensionText::Meters(t) => DimensionForm::Meters(t@),
            DimensionText::FeetInches(f, i) => DimensionForm::FeetInches(
                f@,
                match i {
                    Some(x) => Some(x@),
                    None => None,
                },
            ),
            DimensionText::Inches(i) => DimensionForm::Inches(i@),
        }
    }
}

/// Numerator and denominator of `n/d`, each trimmed, if there is a `/`.
pub open spec fn fraction_form(s: Seq<char>) -> Option<(Seq<char>, Seq<char>)> {
    match find(s, seq!['/']) {
        Some(i) => Some((trim(s.take(i)), trim(s.skip(i + 1)))),
        None => None,
    }
}

/// How the trimmed text `s` writes an inch value: with a `/`, a whole
/// number before the first `-` and a fraction after it, or a fraction
/// alone; else a plain number.
pub open spec fn inches_form(s0: Seq<char>) -> InchesForm {
    let s = trim(s0);
    if find(s, seq!['/']) is Some {
        match find(s, seq!['-']) {
            Some(i) => match fraction_form(trim(s.skip(i + 1))) {
                Some(f) => InchesForm::Mixed(trim(s.take(i)), f.0, f.1),
                None => InchesForm::Malformed,
            },
            None => match fraction_form(s) {
                Some(f) => InchesForm::Fraction(f.0, f.1),
                None => InchesForm::Malformed,
            },
        }
    } else {
        InchesForm::Decimal(s)
    }
}

/// The text between the first and the second occurrence of `pat` in `s`
/// (or the end), where `pat` occurs.
pub open spec fn second_part(s: Seq<char>, pat: Seq<char>) -> Seq<char> {
    let rest = s.skip(find(s, pat).unwrap() + pat.len());
    match find(rest, pat) {
        Some(j) => rest.take(j),
        None => rest,
    }
}

/// The inches after the feet: the second part, trimmed, without trailing
/// `unit` marks, trimmed again; none where that is empty.
pub open spec fn trailing_inches(s: Seq<char>, sep: Seq<char>, unit: Seq<char>) -> Option<InchesForm> {
    let t = trim(trim_end_matches(trim(second_part(s, sep)), unit));
    if t.len() == 0 {
        None
    } else {
        Some(inches_form(t))
    }
}

/// How `input` writes a dimension, or none for blank input. Trimmed, it is
/// read as millimeters when it ends in `mm`; as meters when it ends in `m`;
/// as feet and inches when it has a `'` (feet before the first, inches
/// after it without `"` marks) or else an `ft` (inches without `in`
/// marks); and otherwise as inches without `"` marks.
pub open spec fn dimension_form(input: Seq<char>) -> Option<DimensionForm> {
    let t = trim(input);
    if t.len() == 0 {
        None
    } else if ends_with(t, seq!['m', 'm']) {
        Some(DimensionForm::Millimeters(trim(t.take(t.len() - 2))))
    } else if ends_with(t, seq!['m']) && !ends_with(t.take(t.len() - 1), seq!['m']) {
        Some(DimensionForm::Meters(trim(t.take(t.len() - 1))))
    } else if find(t, seq!['\'']) is Some {
        Some(
            DimensionForm::FeetInches(
                trim(t.take(find(t, seq!['\'']).unwrap())),
                trailing_inches(t, seq!['\''], seq!['"']),
            ),
        )
    } else if find(t, seq!['f', 't']) is Some {
        Some(
            DimensionForm::FeetInches(
                trim(t.take(find(t, seq!['f', 't']).unwrap())),
                trailing_inches(t, seq!['f', 't'], seq!['i', 'n']),
            ),
        )
    } else {
        Some(DimensionForm::Inches(inches_form(trim(trim_end_matches(t, seq!['"'])))))
    }
}

/// Numerator and denominator texts of `v[lo..hi]` (see `fraction_form`).
fn fraction_of(v: &Vec<char>, lo: usize, hi: usize) -> (r: Option<(String, String)>)
    requires
        lo <= hi <= v@.len(),
    ensures
        fraction_form(v@.subrange(lo as int, hi as int)) == match r {
            Some(p) => Some((p.0@, p.1@)),
            None => None,
        },
{
    let slash = vec!['/'];
    assert(slash@ =~= seq!['/']);
    match find_range(v, lo, hi, &slash) {
        Some(i) => {
            let ghost s = v@.subrange(lo as int, hi as int);
            assert(s.take(i - lo) =~= v@.subrange(lo as int, i as int));
            assert(s.skip(i - lo + 1) =~= v@.subrange(i + 1, hi as int));
            let (a, b) = trim_range(v, lo, i);
            let (c, d) = trim_range(v, i + 1, hi);
            Some((text_of(v, a, b), text_of(v, c, d)))
        },
        None => None,
    }
}

/// How `v[lo..hi]` writes an inch value (see `inches_form`).
fn inches_of(v: &Vec<char>, lo: usize, hi: usize) -> (r: InchesText)
    requires
        lo <= hi <= v@.len(),
    ensures
        r@ == inches_form(v@.subrange(lo as int, hi as int)),
{
    let (a, b) = trim_range(v, lo, hi);
    let ghost s = v@.subrange(a as int, b as int);
    let slash = vec!['/'];
    let dash = vec!['-'];
    assert(slash@ =~= seq!['/']);
    assert(dash@ =~= seq!['-']);
    if find_range(v, a, b, &slash).is_none() {
        return InchesText::Decimal(text_of(v, a, b));
    }
    match find_range(v, a, b, &dash) {
        Some(i) => {
            assert(s.take(i - a) =~= v@.subrange(a as int, i as int));
            assert(s.skip(i - a + 1) =~= v@.subrange(i + 1, b as int));
            let (c, d) = trim_range(v, i + 1, b);
            match fraction_of(v, c, d) {
                Some((n, den)) => {
                    let (e, f) = trim_range(v, a, i);
                    InchesText::Mixed(text_of(v, e, f), n, den)
                },
                None => InchesText::Malformed,
            }
        },
        None => {
            match fraction_of(v, a, b) {
                Some((n, den)) => InchesText::Fraction(n, den),
                None => InchesText::Malformed,
            }
        },
    }
}

/// The inches after the feet in `v[a..b]`, the feet ending at `i` where the
/// separator `sep` starts (see `trailing_inches`).
fn trailing_inches_of(v: &Vec<char>, a: usize, b: usize, i: usize, sep: &Vec<char>, unit: &Vec<char>) -> (r: Option<InchesText>)
    requires
        a <= i,
        i + sep@.len() <= b <= v@.len(),
        find(v@.subrange(a as int, b as int), sep@) == Some(i - a),
        unit@.len() > 0,
    ensures
        trailing_inches(v@.subrange(a as int, b as int), sep@, unit@) == match r {
            Some(x) => Some(x@),
            None => None,
        },
{
    let ghost t = v@.subrange(a as int, b as int);
    let start = i + sep.len();
    assert(t.skip(i - a + sep@.len()) =~= v@.subrange(start as int, b as int));
    let end = match find_range(v, start, b, sep) {
        Some(j) => {
            assert(t.skip(i - a + sep@.len()).take(j - start) =~= v@.subrange(start as int, j as int));
            j
        },
        None => b,
    };
    assert(second_part(t, sep@) == v@.subrange(start as int, end as int));
    let (c, d) = trim_range(v, start, end);
    let e = trim_end_matches_range(v, c, d, unit);
    let (f, g) = trim_range(v, c, e);
    if f == g {
        None
    } else {
        Some(inches_of(v, f, g))
    }
}

/// How `input` writes a dimension (see `dimension_form`); none for blank
/// input. Reading the numbers is left to the caller.
pub fn parse_dimension_text(input: &str) -> (r: Option<DimensionText>)
    ensures
        dimension_form(input@) == match r {
            Some(d) => Some(d@),
            None => None,
        },
{
    let v = chars_of(input);
    let n = v.len();
    assert(v@.subrange(0, n as int) =~= input@);
    let (a, b) = trim_range(&v, 0, n);
    let ghost t = v@.subrange(a as int, b as int);
    if a == b {
        return None;
    }
    let mm = vec!['m', 'm'];
    let m = vec!['m'];
    let quote = vec!['\''];
    let ft = vec!['f', 't'];
    let dq = vec!['"'];
    let inch = vec!['i', 'n'];
    assert(mm@ =~= seq!['m', 'm']);
    assert(m@ =~= seq!['m']);
    assert(quote@ =~= seq!['\'']);
    assert(ft@ =~= seq!['f', 't']);
    assert(dq@ =~= seq!['"']);
    assert(inch@ =~= seq!['i', 'n']);
    if ends_with_range(&v, a, b, &mm) {
        assert(t.take(t.len() - 2) =~= v@.subrange(a as int, b - 2));
        let (c, d) = trim_range(&v, a, b - 2);
        return Some(DimensionText::Millimeters(text_of(&v, c, d)));
    }
    if ends_with_range(&v, a, b, &m) {
        assert(t.take(t.len() - 1) =~= v@.subrange(a as int, b - 1));
        if !ends_with_range(&v, a, b - 1, &m) {
            let (c, d) = trim_range(&v, a, b - 1);
            return Some(DimensionText::Meters(text_of(&v, c, d)));
        }
    }
    match find_range(&v, a, b, &quote) {
        Some(i) => {
            assert(t.take(i - a) =~= v@.subrange(a as int, i as int));
            let (c, d) = trim_range(&v, a, i);
            let inches = trailing_inches_of(&v, a, b, i, &quote, &dq);
            return Some(DimensionText::FeetInches(text_of(&v, c, d), inches));
        },
        None => {},
    }
    match find_range(&v, a, b, &ft) {
        Some(i) => {
            assert(t.take(i - a) =~= v@.subrange(a as int, i as int));
            let (c, d) = trim_range(&v, a, i);
            let inches = trailing_inches_of(&v, a, b, i, &ft, &inch);
            return Some(DimensionText::FeetInches(text_of(&v, c, d), inches));
        },
        None => {},
    }
    let e = trim_end_matches_range(&v, a, b, &dq);
    let (f, g) = trim_range(&v, a, e);
    Some(DimensionText::Inches(inches_of(&v, f, g)))
}

} // verus!
