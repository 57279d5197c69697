//! Character-level helpers for the text that designs are keyed by.
use vstd::prelude::*;

verus! {

/// Calls `String::push`, which appends one character.
#[verifier::external_body]
pub(crate) fn push_char(s: &mut String, c: char)
    ensures
        final(s)@ == old(s)@.push(c),
{
    s.push(c)
}

/// The characters of a text, in order.
pub(crate) fn chars_of(s: &str) -> (v: Vec<char>)
    ensures
        v@ == s@,
{
    let n = s.unicode_len();
    let mut v: Vec<char> = Vec::new();
    let mut i: usize = 0;
    while i < n
        invariant
            n == s@.len(),
            i <= n,
            v@ == s@.subrange(0, i as int),
        decreases n - i,
    {
        let c = s.get_char(i);
        v.push(c);
        i = i + 1;
        assert(v@ =~= s@.subrange(0, i as int));
    }
    assert(s@.subrange(0, n as int) =~= s@);
    v
}

/// Whether two texts are equal.
pub(crate) fn text_eq(a: &str, b: &str) -> (r: bool)
    ensures
        r == (a@ == b@),
{
    let x = chars_of(a);
    let y = chars_of(b);
    if x.len() != y.len() {
        return false;
    }
    let mut i: usize = 0;
    while i < x.len()
        invariant
            x@ == a@,
            y@ == b@,
            x.len() == y.len(),
            i <= x.len(),
            forall|k: int| 0 <= k < i ==> x@[k] == y@[k],
        decreases x.len() - i,
    {
        if x[i] != y[i] {
            return false;
        }
        i = i + 1;
    }
    assert(x@ =~= y@);
    true
}

/// Whether `needle` occurs in `hay` as a contiguous run of characters.
pub open spec fn occurs_in(hay: Seq<char>, needle: Seq<char>) -> bool {
    exists|i: int|
        0 <= i && i + needle.len() <= hay.len() && #[trigger] hay.subrange(i, i + needle.len())
            == needle
}

/// Whether `needle` occurs in `hay` at position `at`.
fn occurs_at(hay: &Vec<char>, needle: &Vec<char>, at: usize) -> (r: bool)
    requires
        at + needle.len() <= hay.len(),
    ensures
        r == (hay@.subrange(at as int, at + needle.len()) == needle@),
{
    let mut k: usize = 0;
    while k < needle.len()
        invariant
            at + needle.len() <= hay.len(),
            k <= needle.len(),
            forall|j: int| 0 <= j < k ==> hay@[at + j] == needle@[j],
        decreases needle.len() - k,
    {
        if hay[at + k] != needle[k] {
            assert(hay@.subrange(at as int, at + needle.len())[k as int] != needle@[k as int]);
            return false;
        }
        k = k + 1;
    }
    assert(hay@.subrange(at as int, at + needle.len()) =~= needle@);
    true
}

/// Whether the text `hay` contains the text `needle` (`str::contains`).
pub(crate) fn contains_text(hay: &str, needle: &str) -> (r: bool)
    ensures
        r == occurs_in(hay@, needle@),
{
    let h = chars_of(hay);
    let n = chars_of(needle);
    if n.len() > h.len() {
        return false;
    }
    let last = h.len() - n.len();
    let mut i: usize = 0;
    while i < last
        invariant
            h@ == hay@,
            n@ == needle@,
            last == h.len() - n.len(),
            n.len() <= h.len(),
            forall|j: int| 0 <= j < i ==> #[trigger] h@.subrange(j, j + n.len()) != n@,
        decreases last - i,
    {
        if occurs_at(&h, &n, i) {
            return true;
        }
        i = i + 1;
    }
    if occurs_at(&h, &n, last) {
        return true;
    }
    assert forall|j: int| 0 <= j && j + n.len() <= h.len() implies #[trigger] h@.subrange(
        j,
        j + n.len(),
    ) != n@ by {
        assert(j <= last);
    }
    false
}

/// Decimal digits of a number, most significant first.
pub open spec fn decimal(v: nat) -> Seq<char>
    decreases v,
{
    if v < 10 {
        seq![(48 + v) as char]
    } else {
        decimal(v / 10).push((48 + v % 10) as char)
    }
}

/// Decimal digits of a number, with leading zeros up to `width` characters.
pub open spec fn zero_padded(v: nat, width: nat) -> Seq<char> {
    let d = decimal(v);
    if d.len() < width {
        Seq::new((width - d.len()) as nat, |i: int| '0') + d
    } else {
        d
    }
}

/// Appends the decimal digits of `v`.
pub(crate) fn push_decimal(s: &mut String, v: u64)
    ensures
        final(s)@ == old(s)@ + decimal(v as nat),
    decreases v,
{
    if v >= 10 {
        push_decimal(s, v / 10);
    }
    let c = ((48 + v % 10) as u8) as char;
    push_char(s, c);
    assert(final(s)@ =~= old(s)@ + decimal(v as nat));
}

spec fn pow10(k: nat) -> nat
    decreases k,
{
    if k == 0 {
        1
    } else {
        10 * pow10((k - 1) as nat)
    }
}

proof fn lemma_decimal_len(v: nat, k: nat)
    requires
        1 <= k,
        v < pow10(k),
    ensures
        decimal(v).len() <= k,
    decreases k,
{
    if v >= 10 {
        if k == 1 {
            assert(pow10(1) == 10 * pow10(0));
        } else {
            let p = pow10((k - 1) as nat);
            assert(pow10(k) == 10 * p);
            assert(v / 10 < p) by (nonlinear_arith)
                requires
                    v < 10 * p,
            ;
            lemma_decimal_len(v / 10, (k - 1) as nat);
        }
    }
}

fn decimal_len(v: u64) -> (n: usize)
    ensures
        n == decimal(v as nat).len(),
        n <= 20,
    decreases v,
{
    proof {
        reveal_with_fuel(pow10, 21);
        assert(pow10(20) == 100000000000000000000);
        lemma_decimal_len(v as nat, 20);
    }
    if v < 10 {
        1
    } else {
        decimal_len(v / 10) + 1
    }
}

/// Appends the decimal digits of `v`, padded with zeros to `width` characters.
pub(crate) fn push_zero_padded(s: &mut String, v: u64, width: usize)
    ensures
        final(s)@ == old(s)@ + zero_padded(v as nat, width as nat),
{
    let len = decimal_len(v);
    let ghost start = s@;
    if len < width {
        let mut k: usize = 0;
        while k < width - len
            invariant
                k <= width - len,
                len < width,
                s@ == start + Seq::new(k as nat, |i: int| '0'),
            decreases width - len - k,
        {
            push_char(s, '0');
            k = k + 1;
            assert(s@ =~= start + Seq::new(k as nat, |i: int| '0'));
        }
    }
    let ghost mid = s@;
    push_decimal(s, v);
    assert(s@ =~= start + zero_padded(v as nat, width as nat));
}

/// Appends a text.
pub(crate) fn push_text(s: &mut String, t: &str)
    ensures
        final(s)@ == old(s)@ + t@,
{
    s.append(t);
}

/// Lexicographic order of texts by character code (the order of `String`
/// comparison, since UTF-8 preserves code-point order).
pub open spec fn text_less(a: Seq<char>, b: Seq<char>) -> bool
    decreases a.len(),
{
    if a.len() == 0 {
        b.len() > 0
    } else if b.len() == 0 {
        false
    } else if a[0] < b[0] {
        true
    } else if a[0] > b[0] {
        false
    } else {
        text_less(a.drop_first(), b.drop_first())
    }
}

/// No text comes before itself.
pub proof fn lemma_text_less_irreflexive(a: Seq<char>)
    ensures
        !text_less(a, a),
    decreases a.len(),
{
    if a.len() > 0 {
        lemma_text_less_irreflexive(a.drop_first());
    }
}

/// Of two different texts, exactly one comes first.
pub proof fn lemma_text_less_total(a: Seq<char>, b: Seq<char>)
    ensures
        text_less(a, b) ==> !text_less(b, a),
        a != b ==> text_less(a, b) || text_less(b, a),
    decreases a.len(),
{
    if a.len() > 0 && b.len() > 0 {
        lemma_text_less_total(a.drop_first(), b.drop_first());
        if a != b && a[0] == b[0] {
            assert(a.drop_first() != b.drop_first()) by {
                if a.drop_first() == b.drop_first() {
                    assert(a =~= seq![a[0]] + a.drop_first());
                    assert(b =~= seq![b[0]] + b.drop_first());
                }
            }
        }
    } else if a.len() == 0 && b.len() == 0 {
        assert(a =~= b);
    }
}

/// Text order is transitive.
pub proof fn lemma_text_less_transitive(a: Seq<char>, b: Seq<char>, c: Seq<char>)
    requires
        text_less(a, b),
        text_less(b, c),
    ensures
        text_less(a, c),
    decreases a.len(),
{
    if a.len() > 0 && b.len() > 0 && c.len() > 0 && a[0] == b[0] && b[0] == c[0] {
        lemma_text_less_transitive(a.drop_first(), b.drop_first(), c.drop_first());
    }
}

/// Whether `a` comes before `b` in text order.
pub(crate) fn text_lt(a: &str, b: &str) -> (r: bool)
    ensures
        r == text_less(a@, b@),
{
    let x = chars_of(a);
    let y = chars_of(b);
    let mut k: usize = 0;
    assert(x@.skip(0) =~= x@ && y@.skip(0) =~= y@);
    while k < x.len() && k < y.len()
        invariant
            x@ == a@,
            y@ == b@,
            k <= x@.len(),
            k <= y@.len(),
            text_less(a@, b@) == text_less(x@.skip(k as int), y@.skip(k as int)),
        decreases x.len() - k,
    {
        let ghost xs = x@.skip(k as int);
        let ghost ys = y@.skip(k as int);
        assert(xs[0] == x@[k as int] && ys[0] == y@[k as int]);
        if x[k] < y[k] {
            return true;
        }
        if x[k] > y[k] {
            return false;
        }
        assert(xs.drop_first() =~= x@.skip(k + 1));
        assert(ys.drop_first() =~= y@.skip(k + 1));
        k = k + 1;
    }
    k == x.len() && k < y.len()
}

/// Texts in strictly increasing text order.
pub open spec fn strictly_sorted(v: Seq<Seq<char>>) -> bool {
    forall|i: int, j: int| 0 <= i < j < v.len() ==> text_less(#[trigger] v[i], #[trigger] v[j])
}

/// The texts of a list of strings.
pub open spec fn string_views(v: Seq<String>) -> Seq<Seq<char>> {
    v.map_values(|s: String| s@)
}

/// Adds a text to a strictly sorted list unless it is already there.
pub(crate) fn insert_sorted_distinct(v: &mut Vec<String>, s: String)
    requires
        strictly_sorted(string_views(old(v)@)),
    ensures
        strictly_sorted(string_views(final(v)@)),
        string_views(final(v)@).to_set() == string_views(old(v)@).to_set().insert(s@),
{
    let ghost old_v = string_views(v@);
    let mut p: usize = 0;
    while p < v.len() && text_lt(v[p].as_str(), s.as_str())
        invariant
            p <= v@.len(),
            string_views(v@) == old_v,
            strictly_sorted(old_v),
            forall|k: int| 0 <= k < p ==> text_less(#[trigger] old_v[k], s@),
        decreases v.len() - p,
    {
        p = p + 1;
    }
    if p < v.len() && text_eq(v[p].as_str(), s.as_str()) {
        assert(old_v[p as int] == s@);
        assert(old_v.contains(s@));
        assert(old_v.to_set().insert(s@) =~= old_v.to_set());
        return;
    }
    proof {
        if p < v.len() {
            lemma_text_less_total(old_v[p as int], s@);
        }
    }
    let ghost sv = s@;
    v.insert(p, s);
    proof {
        let nv = string_views(v@);
        assert(nv =~= old_v.insert(p as int, sv));
        assert forall|i: int, j: int| 0 <= i < j < nv.len() implies text_less(#[trigger] nv[i], #[trigger] nv[j]) by {
            if i < p && j == p {
            } else if i == p && j > p {
                if j > p + 1 {
                    lemma_text_less_transitive(sv, old_v[p as int], old_v[j - 1]);
                }
            } else if i < p && j > p {
                if j > p + 1 {
                    lemma_text_less_transitive(sv, old_v[p as int], old_v[j - 1]);
                }
                lemma_text_less_transitive(old_v[i], sv, old_v[j - 1]);
            }
        }
        assert forall|x: Seq<char>| nv.contains(x) <==> (old_v.contains(x) || x == sv) by {
            if nv.contains(x) {
                let i = choose|i: int| 0 <= i < nv.len() && nv[i] == x;
                if i < p {
                    assert(old_v[i] == x);
                } else if i > p {
                    assert(old_v[i - 1] == x);
                }
            }
            if old_v.contains(x) {
                let i = choose|i: int| 0 <= i < old_v.len() && old_v[i] == x;
                if i < p {
                    assert(nv[i] == x);
                } else {
                    assert(nv[i + 1] == x);
                }
            }
            if x == sv {
                assert(nv[p as int] == x);
            }
        }
        assert(nv.to_set() =~= old_v.to_set().insert(sv));
    }
}

/// Whether a character is white space (the Unicode `White_Space` property,
/// as `char::is_whitespace` documents it).
pub open spec fn is_white(c: char) -> bool {
    let u = c as u32;
    ||| 0x9 <= u <= 0xd
    ||| u == 0x20
    ||| u == 0x85
    ||| u == 0xa0
    ||| u == 0x1680
    ||| 0x2000 <= u <= 0x200a
    ||| u == 0x2028
    ||| u == 0x2029
    ||| u == 0x202f
    ||| u == 0x205f
    ||| u == 0x3000
}

/// Whether a character is white space (see `is_white`).
pub(crate) fn is_white_char(c: char) -> (r: bool)
    ensures
        r == is_white(c),
{
    let u = c as u32;
    (0x9 <= u && u <= 0xd) || u == 0x20 || u == 0x85 || u == 0xa0 || u == 0x1680 || (0x2000 <= u && u <= 0x200a)
        || u == 0x2028 || u == 0x2029 || u == 0x202f || u == 0x205f || u == 0x3000
}

/// A text without its leading white space.
pub open spec fn trim_start(s: Seq<char>) -> Seq<char>
    decreases s.len(),
{
    if s.len() > 0 && is_white(s[0]) {
        trim_start(s.drop_first())
    } else {
        s
    }
}

/// A text without its trailing white space.
pub open spec fn trim_end(s: Seq<char>) -> Seq<char>
    decreases s.len(),
{
    if s.len() > 0 && is_white(s.last()) {
        trim_end(s.drop_last())
    } else {
        s
    }
}

/// A text without its leading and trailing white space.
pub open spec fn trim(s: Seq<char>) -> Seq<char> {
    trim_end(trim_start(s))
}

/// Whether `s` ends with `pat`.
pub open spec fn ends_with(s: Seq<char>, pat: Seq<char>) -> bool {
    pat.len() <= s.len() && s.subrange(s.len() - pat.len(), s.len() as int) == pat
}

/// `s` without every trailing repetition of `pat` (for a non-empty `pat`).
pub open spec fn trim_end_matches(s: Seq<char>, pat: Seq<char>) -> Seq<char>
    decreases s.len(),
{
    if pat.len() > 0 && ends_with(s, pat) {
        trim_end_matches(s.subrange(0, s.len() - pat.len()), pat)
    } else {
        s
    }
}

/// The first position at or after `i` where `pat` occurs in `s`.
pub open spec fn find_from(s: Seq<char>, pat: Seq<char>, i: int) -> Option<int>
    decreases s.len() + 1 - i,
{
    if i < 0 || i + pat.len() > s.len() {
        None
    } else if s.subrange(i, i + pat.len()) == pat {
        Some(i)
    } else {
        find_from(s, pat, i + 1)
    }
}

/// The first position where `pat` occurs in `s`.
pub open spec fn find(s: Seq<char>, pat: Seq<char>) -> Option<int> {
    find_from(s, pat, 0)
}

/// Where `v[lo..hi]` is left once white space is trimmed from both ends.
pub(crate) fn trim_range(v: &Vec<char>, lo: usize, hi: usize) -> (r: (usize, usize))
    requires
        lo <= hi <= v@.len(),
    ensures
        lo <= r.0 <= r.1 <= hi,
        v@.subrange(r.0 as int, r.1 as int) == trim(v@.subrange(lo as int, hi as int)),
{
    let mut a = lo;
    while a < hi && is_white_char(v[a])
        invariant
            lo <= a <= hi <= v@.len(),
            trim_start(v@.subrange(lo as int, hi as int)) == trim_start(v@.subrange(a as int, hi as int)),
        decreases hi - a,
    {
        assert(v@.subrange(a as int, hi as int).drop_first() =~= v@.subrange(a + 1, hi as int));
        a = a + 1;
    }
    assert(trim_start(v@.subrange(a as int, hi as int)) == v@.subrange(a as int, hi as int));
    let mut b = hi;
    while b > a && is_white_char(v[b - 1])
        invariant
            lo <= a <= b <= hi <= v@.len(),
            trim(v@.subrange(lo as int, hi as int)) == trim_end(v@.subrange(a as int, b as int)),
        decreases b - a,
    {
        assert(v@.subrange(a as int, b as int).drop_last() =~= v@.subrange(a as int, b - 1));
        b = b - 1;
    }
    (a, b)
}

/// Whether `v[lo..hi]` ends with `pat`.
pub(crate) fn ends_with_range(v: &Vec<char>, lo: usize, hi: usize, pat: &Vec<char>) -> (r: bool)
    requires
        lo <= hi <= v@.len(),
    ensures
        r == ends_with(v@.subrange(lo as int, hi as int), pat@),
{
    if pat.len() > hi - lo {
        return false;
    }
    let start = hi - pat.len();
    let mut k: usize = 0;
    while k < pat.len()
        invariant
            lo <= start <= hi <= v@.len(),
            start + pat@.len() == hi,
            k <= pat@.len(),
            forall|j: int| 0 <= j < k ==> v@[start + j] == pat@[j],
        decreases pat.len() - k,
    {
        if v[start + k] != pat[k] {
            assert(v@.subrange(lo as int, hi as int).subrange(start - lo, hi - lo)[k as int] != pat@[k as int]);
            return false;
        }
        k = k + 1;
    }
    assert(v@.subrange(lo as int, hi as int).subrange(start - lo, hi - lo) =~= pat@);
    true
}

/// `v[lo..hi]` without every trailing repetition of a non-empty `pat`: the
/// new end.
pub(crate) fn trim_end_matches_range(v: &Vec<char>, lo: usize, hi: usize, pat: &Vec<char>) -> (r: usize)
    requires
        lo <= hi <= v@.len(),
        pat@.len() > 0,
    ensures
        lo <= r <= hi,
        v@.subrange(lo as int, r as int) == trim_end_matches(v@.subrange(lo as int, hi as int), pat@),
{
    let mut b = hi;
    while ends_with_range(v, lo, b, pat)
        invariant
            lo <= b <= hi <= v@.len(),
            pat@.len() > 0,
            trim_end_matches(v@.subrange(lo as int, hi as int), pat@) == trim_end_matches(v@.subrange(lo as int, b as int), pat@),
        decreases b - lo,
    {
        let ghost s = v@.subrange(lo as int, b as int);
        assert(s.subrange(0, s.len() - pat@.len()) =~= v@.subrange(lo as int, b - pat@.len()));
        b = b - pat.len();
    }
    b
}

/// The first position in `v[lo..hi]` where `pat` occurs, as a position in
/// `v`.
pub(crate) fn find_range(v: &Vec<char>, lo: usize, hi: usize, pat: &Vec<char>) -> (r: Option<usize>)
    requires
        lo <= hi <= v@.len(),
    ensures
        r matches Some(i) ==> lo <= i && i + pat@.len() <= hi && find(v@.subrange(lo as int, hi as int), pat@) == Some(
            i - lo,
        ),
        r is None ==> find(v@.subrange(lo as int, hi as int), pat@) is None,
{
    let ghost s = v@.subrange(lo as int, hi as int);
    let mut i = lo;
    while pat.len() <= hi - i
        invariant
            lo <= i <= hi,
            hi <= v@.len(),
            s == v@.subrange(lo as int, hi as int),
            find(s, pat@) == find_from(s, pat@, i - lo),
        decreases hi + 1 - i,
    {
        let mut k: usize = 0;
        let mut same = true;
        while k < pat.len()
            invariant
                lo <= i,
                i + pat@.len() <= hi <= v@.len(),
                k <= pat@.len(),
                same ==> forall|j: int| 0 <= j < k ==> v@[i + j] == pat@[j],
                !same ==> v@.subrange(i as int, i + pat@.len()) != pat@,
            decreases pat.len() - k,
        {
            if same && v[i + k] != pat[k] {
                same = false;
                assert(v@.subrange(i as int, i + pat@.len())[k as int] != pat@[k as int]);
            }
            k = k + 1;
        }
        assert(s.subrange(i - lo, i - lo + pat@.len()) =~= v@.subrange(i as int, i + pat@.len()));
        if same {
            assert(v@.subrange(i as int, i + pat@.len()) =~= pat@);
            return Some(i);
        }
        assert(pat@.len() > 0) by {
            if pat@.len() == 0 {
                assert(v@.subrange(i as int, i as int) =~= pat@);
            }
        }
        i = i + 1;
    }
    None
}

/// The text `v[lo..hi]`.
pub(crate) fn text_of(v: &Vec<char>, lo: usize, hi: usize) -> (s: String)
    requires
        lo <= hi <= v@.len(),
    ensures
        s@ == v@.subrange(lo as int, hi as int),
{
    let mut s = String::new();
    let mut i = lo;
    while i < hi
        invariant
            lo <= i <= hi <= v@.len(),
            s@ == v@.subrange(lo as int, i as int),
        decreases hi - i,
    {
        push_char(&mut s, v[i]);
        i = i + 1;
        assert(s@ =~= v@.subrange(lo as int, i as int));
    }
    s
}

} // verus!
