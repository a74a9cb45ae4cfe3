//! Lexical path safety checks (Windows path semantics) and the reparse-point
//! verification cache.

use vstd::prelude::*;
use crate::text::{ascii_lower, chars_of, to_ascii_lower, push_char};

verus! {

/// Path separators: both `/` and `\` separate components on Windows.
pub open spec fn is_sep(c: char) -> bool {
    c == '/' || c == '\\'
}

/// `p[a..b]` is a component of `p`: a maximal, non-empty run of non-separator characters.
pub open spec fn is_segment(p: Seq<char>, a: int, b: int) -> bool {
    &&& 0 <= a < b <= p.len()
    &&& (a == 0 || is_sep(p[a - 1]))
    &&& (b == p.len() || is_sep(p[b]))
    &&& forall|t: int| a <= t < b ==> !is_sep(#[trigger] p[t])
}

/// Characters that Win32 forbids in a file name (besides `:` and separators).
pub open spec fn is_forbidden_char(c: char) -> bool {
    c == '*' || c == '?' || c == '<' || c == '>' || c == '|' || c == '"'
}

/// Unicode superscript digits ('⁰'..'⁹') map to ASCII digits; other characters are unchanged.
pub open spec fn superscript_to_digit(c: char) -> char {
    if c == '\u{2070}' { '0' }
    else if c == '\u{00B9}' { '1' }
    else if c == '\u{00B2}' { '2' }
    else if c == '\u{00B3}' { '3' }
    else if c == '\u{2074}' { '4' }
    else if c == '\u{2075}' { '5' }
    else if c == '\u{2076}' { '6' }
    else if c == '\u{2077}' { '7' }
    else if c == '\u{2078}' { '8' }
    else if c == '\u{2079}' { '9' }
    else { c }
}

/// Whether `c` is one of the ten Unicode superscript digits.
pub open spec fn is_superscript_digit(c: char) -> bool {
    superscript_to_digit(c) != c
}

/// `s` with every superscript digit replaced by its ASCII digit.
pub open spec fn normalize_superscripts_spec(s: Seq<char>) -> Seq<char> {
    s.map_values(|c: char| superscript_to_digit(c))
}

/// DOS device names, lower-cased.
pub open spec fn reserved_names_lower() -> Seq<Seq<char>> {
    seq![
        seq!['c', 'o', 'n'], seq!['p', 'r', 'n'], seq!['a', 'u', 'x'], seq!['n', 'u', 'l'],
        seq!['c', 'o', 'm', '1'], seq!['c', 'o', 'm', '2'], seq!['c', 'o', 'm', '3'],
        seq!['c', 'o', 'm', '4'], seq!['c', 'o', 'm', '5'], seq!['c', 'o', 'm', '6'],
        seq!['c', 'o', 'm', '7'], seq!['c', 'o', 'm', '8'], seq!['c', 'o', 'm', '9'],
        seq!['l', 'p', 't', '1'], seq!['l', 'p', 't', '2'], seq!['l', 'p', 't', '3'],
        seq!['l', 'p', 't', '4'], seq!['l', 'p', 't', '5'], seq!['l', 'p', 't', '6'],
        seq!['l', 'p', 't', '7'], seq!['l', 'p', 't', '8'], seq!['l', 'p', 't', '9'],
        seq!['c', 'o', 'n', 'i', 'n', '$'], seq!['c', 'o', 'n', 'o', 'u', 't', '$'],
        seq!['c', 'l', 'o', 'c', 'k', '$'],
    ]
}

/// `stem` names a DOS device, compared without regard to ASCII case.
pub open spec fn is_reserved_stem(stem: Seq<char>) -> bool {
    reserved_names_lower().contains(stem.map_values(|c: char| ascii_lower(c)))
}

/// `k` is the length of the stem of `s`: the part before the first `.`.
pub open spec fn is_stem_len(s: Seq<char>, k: int) -> bool {
    &&& 0 <= k <= s.len()
    &&& (k == s.len() || s[k] == '.')
    &&& forall|j: int| 0 <= j < k ==> s[j] != '.'
}

/// The stem of `s` (the part before its first `.`) names a DOS device.
pub open spec fn has_reserved_stem(s: Seq<char>) -> bool {
    exists|k: int| is_stem_len(s, k) && is_reserved_stem(s.take(k))
}

/// A normal component is accepted.
pub open spec fn normal_component_ok(seg: Seq<char>) -> bool {
    &&& forall|i: int| 0 <= i < seg.len() ==> !is_forbidden_char(#[trigger] seg[i])
    &&& seg.last() != ' '
    &&& seg.last() != '.'
    &&& !has_reserved_stem(normalize_superscripts_spec(seg))
}

/// A component of the path is accepted; `first` marks the component at the start.
/// `..` is never accepted; `.` is skipped except at the start, where it is refused.
pub open spec fn component_ok(seg: Seq<char>, first: bool) -> bool {
    if seg == seq!['.', '.'] {
        false
    } else if seg == seq!['.'] {
        !first
    } else {
        normal_component_ok(seg)
    }
}

/// A relative path that stays below its root and names no device or stream.
pub open spec fn safe_relative_path(p: Seq<char>) -> bool {
    &&& p.len() > 0
    &&& !is_sep(p[0])
    &&& !p.contains(':')
    &&& forall|a: int, b: int| is_segment(p, a, b) ==> component_ok(#[trigger] p.subrange(a, b), a == 0)
}

fn is_sep_char(c: char) -> (r: bool)
    ensures
        r == is_sep(c),
{
    c == '/' || c == '\\'
}

fn superscript_digit(c: char) -> (r: char)
    ensures
        r == superscript_to_digit(c),
{
    if c == '\u{2070}' { '0' }
    else if c == '\u{00B9}' { '1' }
    else if c == '\u{00B2}' { '2' }
    else if c == '\u{00B3}' { '3' }
    else if c == '\u{2074}' { '4' }
    else if c == '\u{2075}' { '5' }
    else if c == '\u{2076}' { '6' }
    else if c == '\u{2077}' { '7' }
    else if c == '\u{2078}' { '8' }
    else if c == '\u{2079}' { '9' }
    else { c }
}

/// Replaces superscript digits in `s` by ASCII digits, borrowing `s` when there are none.
pub fn normalize_superscripts_cow<'a>(s: &'a str) -> (r: std::borrow::Cow<'a, str>)
    ensures
        r@ == normalize_superscripts_spec(s@),
        (r matches std::borrow::Cow::Borrowed(_)) <==> (forall|i: int|
            0 <= i < s@.len() ==> !is_superscript_digit(#[trigger] s@[i])),
{
    let cs = chars_of(s);
    let mut i: usize = 0;
    let mut found = false;
    while i < cs.len()
        invariant
            cs@ == s@,
            i <= cs@.len(),
            !found ==> forall|j: int| 0 <= j < i ==> !is_superscript_digit(#[trigger] cs@[j]),
            found ==> exists|j: int| 0 <= j < cs@.len() && is_superscript_digit(#[trigger] cs@[j]),
        decreases cs@.len() - i,
    {
        if superscript_digit(cs[i]) != cs[i] {
            found = true;
        }
        i += 1;
    }
    if !found {
        assert(normalize_superscripts_spec(s@) =~= s@);
        return std::borrow::Cow::Borrowed(s);
    }
    let mut out = String::new();
    let mut k: usize = 0;
    while k < cs.len()
        invariant
            cs@ == s@,
            k <= cs@.len(),
            out@ == normalize_superscripts_spec(s@).take(k as int),
        decreases cs@.len() - k,
    {
        push_char(&mut out, superscript_digit(cs[k]));
        assert(normalize_superscripts_spec(s@).take(k + 1) =~= normalize_superscripts_spec(
            s@,
        ).take(k as int).push(superscript_to_digit(cs@[k as int])));
        k += 1;
    }
    assert(normalize_superscripts_spec(s@).take(cs@.len() as int) =~= normalize_superscripts_spec(
        s@,
    ));
    std::borrow::Cow::Owned(out)
}

fn reserved_lower_exec() -> (v: Vec<Vec<char>>)
    ensures
        v@.len() == reserved_names_lower().len(),
        forall|i: int| 0 <= i < v@.len() ==> #[trigger] v@[i]@ == reserved_names_lower()[i],
{
    let v = vec![
        vec!['c', 'o', 'n'], vec!['p', 'r', 'n'], vec!['a', 'u', 'x'], vec!['n', 'u', 'l'],
        vec!['c', 'o', 'm', '1'], vec!['c', 'o', 'm', '2'], vec!['c', 'o', 'm', '3'],
        vec!['c', 'o', 'm', '4'], vec!['c', 'o', 'm', '5'], vec!['c', 'o', 'm', '6'],
        vec!['c', 'o', 'm', '7'], vec!['c', 'o', 'm', '8'], vec!['c', 'o', 'm', '9'],
        vec!['l', 'p', 't', '1'], vec!['l', 'p', 't', '2'], vec!['l', 'p', 't', '3'],
        vec!['l', 'p', 't', '4'], vec!['l', 'p', 't', '5'], vec!['l', 'p', 't', '6'],
        vec!['l', 'p', 't', '7'], vec!['l', 'p', 't', '8'], vec!['l', 'p', 't', '9'],
        vec!['c', 'o', 'n', 'i', 'n', '$'], vec!['c', 'o', 'n', 'o', 'u', 't', '$'],
        vec!['c', 'l', 'o', 'c', 'k', '$'],
    ];
    assert forall|i: int| 0 <= i < v@.len() implies #[trigger] v@[i]@ == reserved_names_lower()[i] by {
        assert(v@[i]@ =~= reserved_names_lower()[i]);
    }
    v
}

fn chars_equal(a: &Vec<char>, b: &Vec<char>) -> (r: bool)
    ensures
        r == (a@ == b@),
{
    if a.len() != b.len() {
        return false;
    }
    let mut i: usize = 0;
    while i < a.len()
        invariant
            a@.len() == b@.len(),
            i <= a@.len(),
            forall|j: int| 0 <= j < i ==> a@[j] == b@[j],
        decreases a@.len() - i,
    {
        if a[i] != b[i] {
            return false;
        }
        i += 1;
    }
    assert(a@ =~= b@);
    true
}

/// Whether `stem` names a DOS device (ASCII case-insensitively).
fn is_reserved_stem_exec(stem: &Vec<char>) -> (r: bool)
    ensures
        r == is_reserved_stem(stem@),
{
    let mut lower: Vec<char> = Vec::new();
    let mut i: usize = 0;
    while i < stem.len()
        invariant
            i <= stem@.len(),
            lower@ == stem@.take(i as int).map_values(|c: char| ascii_lower(c)),
        decreases stem@.len() - i,
    {
        lower.push(to_ascii_lower(stem[i]));
        assert(stem@.take(i + 1).map_values(|c: char| ascii_lower(c)) =~= stem@.take(
            i as int,
        ).map_values(|c: char| ascii_lower(c)).push(ascii_lower(stem@[i as int])));
        i += 1;
    }
    assert(stem@.take(stem@.len() as int) =~= stem@);
    let names = reserved_lower_exec();
    let mut k: usize = 0;
    while k < names.len()
        invariant
            names@.len() == reserved_names_lower().len(),
            forall|i: int| 0 <= i < names@.len() ==> #[trigger] names@[i]@ == reserved_names_lower()[i],
            lower@ == stem@.map_values(|c: char| ascii_lower(c)),
            k <= names@.len(),
            forall|j: int| 0 <= j < k ==> names@[j]@ != lower@,
        decreases names@.len() - k,
    {
        if chars_equal(&names[k], &lower) {
            assert(names@[k as int]@ == reserved_names_lower()[k as int]);
            assert(reserved_names_lower().contains(lower@));
            return true;
        }
        k += 1;
    }
    assert(!reserved_names_lower().contains(lower@)) by {
        if reserved_names_lower().contains(lower@) {
            let j = choose|j: int| 0 <= j < reserved_names_lower().len() && reserved_names_lower()[j] == lower@;
            assert(names@[j]@ != lower@);
        }
    }
    false
}

/// Checks a normal component `seg` (neither `.` nor `..`).
fn normal_component_ok_exec(seg: &Vec<char>) -> (r: bool)
    requires
        seg@.len() > 0,
    ensures
        r == normal_component_ok(seg@),
{
    let mut i: usize = 0;
    while i < seg.len()
        invariant
            i <= seg@.len(),
            forall|j: int| 0 <= j < i ==> !is_forbidden_char(#[trigger] seg@[j]),
        decreases seg@.len() - i,
    {
        let c = seg[i];
        if c == '*' || c == '?' || c == '<' || c == '>' || c == '|' || c == '"' {
            assert(is_forbidden_char(seg@[i as int]));
            return false;
        }
        i += 1;
    }
    let last = seg[seg.len() - 1];
    if last == ' ' || last == '.' {
        return false;
    }
    // Normalise superscripts, then find the stem (up to the first '.').
    let mut norm: Vec<char> = Vec::new();
    let mut n: usize = 0;
    while n < seg.len()
        invariant
            n <= seg@.len(),
            norm@ == normalize_superscripts_spec(seg@).take(n as int),
        decreases seg@.len() - n,
    {
        norm.push(superscript_digit(seg[n]));
        assert(normalize_superscripts_spec(seg@).take(n + 1) =~= normalize_superscripts_spec(
            seg@,
        ).take(n as int).push(superscript_to_digit(seg@[n as int])));
        n += 1;
    }
    assert(normalize_superscripts_spec(seg@).take(seg@.len() as int) =~= normalize_superscripts_spec(seg@));
    let ghost ns = normalize_superscripts_spec(seg@);
    let mut k: usize = 0;
    while k < norm.len() && norm[k] != '.'
        invariant
            norm@ == ns,
            k <= norm@.len(),
            forall|j: int| 0 <= j < k ==> ns[j] != '.',
        decreases norm@.len() - k,
    {
        k += 1;
    }
    assert(is_stem_len(ns, k as int));
    let mut stem: Vec<char> = Vec::new();
    let mut t: usize = 0;
    while t < k
        invariant
            norm@ == ns,
            k <= norm@.len(),
            t <= k,
            stem@ == ns.take(t as int),
        decreases k - t,
    {
        stem.push(norm[t]);
        assert(ns.take(t + 1) =~= ns.take(t as int).push(ns[t as int]));
        t += 1;
    }
    let reserved = is_reserved_stem_exec(&stem);
    proof {
        // The stem length is unique, so the existential is decided by `k`.
        assert forall|k2: int| is_stem_len(ns, k2) implies k2 == k by {
            if k2 < k {
                assert(ns[k2] == '.');
            } else if k2 > k {
                assert(ns[k as int] == '.');
            }
        }
    }
    !reserved
}

/// Whether `path` is a relative path that stays below the directory it is joined to:
/// non-empty, without root, drive prefix, `..`, a leading `.`, alternate data streams
/// (`:`), Win32 wildcards, trailing spaces or dots, or DOS device names (also when
/// written with superscript digits, such as `COM¹`).
pub fn is_safe_relative_path(path: &str) -> (r: bool)
    ensures
        r == safe_relative_path(path@),
{
    let p = chars_of(path);
    let n = p.len();
    if n == 0 {
        return false;
    }
    if is_sep_char(p[0]) {
        return false;
    }
    let mut c: usize = 0;
    while c < n
        invariant
            p@ == path@,
            n == p@.len(),
            c <= n,
            forall|j: int| 0 <= j < c ==> p@[j] != ':',
        decreases n - c,
    {
        if p[c] == ':' {
            assert(p@.contains(':'));
            return false;
        }
        c += 1;
    }
    assert(!p@.contains(':'));
    let mut i: usize = 0;
    while i < n
        invariant
            p@ == path@,
            n == p@.len(),
            n > 0,
            !is_sep(p@[0]),
            !p@.contains(':'),
            i <= n,
            i == 0 || i == n || is_sep(p@[i as int]),
            forall|a: int, b: int|
                is_segment(p@, a, b) && a < i ==> component_ok(#[trigger] p@.subrange(a, b), a == 0),
        decreases n - i,
    {
        // Skip separators.
        let mut k = i;
        while k < n && is_sep_char(p[k])
            invariant
                p@ == path@,
                n == p@.len(),
                i <= k <= n,
                forall|t: int| i <= t < k ==> is_sep(#[trigger] p@[t]),
            decreases n - k,
        {
            k += 1;
        }
        if k == n {
            assert forall|a: int, b: int| is_segment(p@, a, b) && a < n implies component_ok(
                #[trigger] p@.subrange(a, b),
                a == 0,
            ) by {
                if a >= i {
                    assert(is_sep(p@[a]));
                }
            }
            return true;
        }
        let mut j = k;
        while j < n && !is_sep_char(p[j])
            invariant
                p@ == path@,
                n == p@.len(),
                k <= j <= n,
                forall|t: int| k <= t < j ==> !is_sep(#[trigger] p@[t]),
            decreases n - j,
        {
            j += 1;
        }
        assert(k < n && !is_sep(p@[k as int]));
        assert(j > k);
        assert(k == 0 || is_sep(p@[k - 1])) by {
            if k > i {
                assert(is_sep(p@[k - 1]));
            } else {
                assert(i == 0 || is_sep(p@[i as int]));
            }
        }
        assert(is_segment(p@, k as int, j as int));
        let mut seg: Vec<char> = Vec::new();
        let mut t = k;
        while t < j
            invariant
                p@ == path@,
                n == p@.len(),
                k <= t <= j <= n,
                seg@ == p@.subrange(k as int, t as int),
            decreases j - t,
        {
            seg.push(p[t]);
            assert(p@.subrange(k as int, t + 1) =~= p@.subrange(k as int, t as int).push(p@[t as int]));
            t += 1;
        }
        let is_dotdot = seg.len() == 2 && seg[0] == '.' && seg[1] == '.';
        let is_dot = seg.len() == 1 && seg[0] == '.';
        proof {
            if seg@.len() == 2 && seg@[0] == '.' && seg@[1] == '.' {
                assert(seg@ =~= seq!['.', '.']);
            }
            if seg@.len() == 1 && seg@[0] == '.' {
                assert(seg@ =~= seq!['.']);
            }
            if seg@ == seq!['.', '.'] {
                assert(seg@.len() == 2);
            }
            if seg@ == seq!['.'] {
                assert(seg@.len() == 1);
            }
        }
        let ok = if is_dotdot {
            false
        } else if is_dot {
            k != 0
        } else {
            normal_component_ok_exec(&seg)
        };
        assert(ok == component_ok(p@.subrange(k as int, j as int), k == 0));
        if !ok {
            return false;
        }
        assert forall|a: int, b: int| is_segment(p@, a, b) && a < j implies component_ok(
            #[trigger] p@.subrange(a, b),
            a == 0,
        ) by {
            if a >= i {
                if a < k {
                    assert(is_sep(p@[a]));
                } else if a > k {
                    assert(!is_sep(p@[a - 1]));
                } else {
                    if b < j {
                        assert(!is_sep(p@[b]));
                    } else if b > j {
                        assert(!is_sep(p@[j as int]));
                    }
                }
            }
        }
        i = j;
    }
    true
}

} // verus!
