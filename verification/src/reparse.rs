//! Lexical path components, and the cache of directories already verified free of
//! reparse points (junctions, symlinks), split into a shallow and a deep tier.

use vstd::prelude::*;
use crate::path_safety::is_sep;
use crate::text::chars_of;

verus! {

/// Index of the first non-separator at or after `i`.
pub open spec fn skip_seps(p: Seq<char>, i: int) -> int
    decreases p.len() - i,
{
    if 0 <= i < p.len() && is_sep(p[i]) {
        skip_seps(p, i + 1)
    } else {
        i
    }
}

/// Index of the first separator (or the end) at or after `i`.
pub open spec fn run_end(p: Seq<char>, i: int) -> int
    decreases p.len() - i,
{
    if 0 <= i < p.len() && !is_sep(p[i]) {
        run_end(p, i + 1)
    } else {
        i
    }
}

/// Skipping separators moves forward, stays within the path, and stops on a non-separator.
pub proof fn lemma_skip_seps(p: Seq<char>, i: int)
    requires
        0 <= i,
    ensures
        i <= skip_seps(p, i),
        skip_seps(p, i) < p.len() ==> !is_sep(p[skip_seps(p, i)]),
        i <= p.len() ==> skip_seps(p, i) <= p.len(),
    decreases p.len() - i,
{
    if 0 <= i < p.len() && is_sep(p[i]) {
        lemma_skip_seps(p, i + 1);
    }
}

/// A run of non-separators from `i` ends at the next separator or at the end of the path.
pub proof fn lemma_run_end(p: Seq<char>, i: int)
    requires
        0 <= i <= p.len(),
    ensures
        i <= run_end(p, i) <= p.len(),
        i < p.len() && !is_sep(p[i]) ==> i < run_end(p, i),
        forall|t: int| i <= t < run_end(p, i) ==> !is_sep(#[trigger] p[t]),
        run_end(p, i) < p.len() ==> is_sep(p[run_end(p, i)]),
    decreases p.len() - i,
{
    if 0 <= i < p.len() && !is_sep(p[i]) {
        lemma_run_end(p, i + 1);
    }
}

/// The components of `p` from index `i` on: maximal runs of non-separators, without `.`.
pub open spec fn comps_from(p: Seq<char>, i: int) -> Seq<Seq<char>>
    decreases p.len() - i,
{
    if i < 0 || i >= p.len() {
        Seq::empty()
    } else {
        let j = skip_seps(p, i);
        if j >= p.len() {
            Seq::empty()
        } else {
            proof {
                lemma_skip_seps(p, i);
                lemma_run_end(p, j);
            }
            let k = run_end(p, j);
            let seg = p.subrange(j, k);
            let rest = comps_from(p, k);
            if seg == seq!['.'] {
                rest
            } else {
                seq![seg] + rest
            }
        }
    }
}

/// The components of a path: a root marker `/` when it starts with a separator, then its
/// named components (separators may be `/` or `\`; empty and `.` components are dropped).
pub open spec fn components(p: Seq<char>) -> Seq<Seq<char>> {
    let root: Seq<Seq<char>> = if p.len() > 0 && is_sep(p[0]) { seq![seq!['/']] } else { Seq::empty() };
    root + comps_from(p, 0)
}

/// `a` is a leading part of `b`, component by component.
pub open spec fn is_prefix_of(a: Seq<Seq<char>>, b: Seq<Seq<char>>) -> bool {
    a.len() <= b.len() && b.take(a.len() as int) == a
}

/// Depth of `ancestor` below `base`, counted in components; zero when it is not below it.
pub open spec fn relative_depth(base: Seq<Seq<char>>, ancestor: Seq<Seq<char>>) -> nat {
    if is_prefix_of(base, ancestor) {
        (ancestor.len() - base.len()) as nat
    } else {
        0
    }
}

/// Largest relative depth cached in the shallow tier.
pub const SHALLOW_MAX_DEPTH: usize = 3;

fn skip_seps_exec(p: &Vec<char>, i: usize) -> (r: usize)
    requires
        i <= p@.len(),
    ensures
        r == skip_seps(p@, i as int),
        i <= r <= p@.len(),
{
    let mut j = i;
    while j < p.len() && (p[j] == '/' || p[j] == '\\')
        invariant
            i <= j <= p@.len(),
            skip_seps(p@, j as int) == skip_seps(p@, i as int),
        decreases p@.len() - j,
    {
        j += 1;
    }
    j
}

fn run_end_exec(p: &Vec<char>, i: usize) -> (r: usize)
    requires
        i <= p@.len(),
    ensures
        r == run_end(p@, i as int),
        i <= r <= p@.len(),
{
    let mut j = i;
    while j < p.len() && p[j] != '/' && p[j] != '\\'
        invariant
            i <= j <= p@.len(),
            run_end(p@, j as int) == run_end(p@, i as int),
        decreases p@.len() - j,
    {
        j += 1;
    }
    j
}

/// The characters `p[a..b]`.
fn sub_chars(p: &Vec<char>, a: usize, b: usize) -> (r: Vec<char>)
    requires
        a <= b <= p@.len(),
    ensures
        r@ == p@.subrange(a as int, b as int),
{
    let mut r: Vec<char> = Vec::new();
    let mut i = a;
    while i < b
        invariant
            a <= i <= b,
            b <= p@.len(),
            r@ == p@.subrange(a as int, i as int),
        decreases b - i,
    {
        r.push(p[i]);
        assert(p@.subrange(a as int, i + 1) =~= p@.subrange(a as int, i as int).push(p@[i as int]));
        i += 1;
    }
    r
}

/// The character sequences of a list of character vectors.
pub open spec fn char_views(v: Seq<Vec<char>>) -> Seq<Seq<char>> {
    v.map_values(|c: Vec<char>| c@)
}

/// Exec form of [`components`].
pub fn path_components(path: &str) -> (r: Vec<Vec<char>>)
    ensures
        char_views(r@) == components(path@),
{
    let p = chars_of(path);
    let mut out: Vec<Vec<char>> = Vec::new();
    if p.len() > 0 && (p[0] == '/' || p[0] == '\\') {
        let mut root: Vec<char> = Vec::new();
        root.push('/');
        out.push(root);
    }
    let ghost prefix = char_views(out@);
    assert(prefix =~= (if p@.len() > 0 && is_sep(p@[0]) { seq![seq!['/']] } else { Seq::<Seq<char>>::empty() }));
    let mut i: usize = 0;
    while i < p.len()
        invariant
            p@ == path@,
            i <= p@.len(),
            char_views(out@) + comps_from(p@, i as int) == prefix + comps_from(p@, 0),
        ensures
            p@ == path@,
            i == p@.len(),
            char_views(out@) + comps_from(p@, i as int) == prefix + comps_from(p@, 0),
        decreases p@.len() - i,
    {
        let j = skip_seps_exec(&p, i);
        if j >= p.len() {
            assert(comps_from(p@, i as int) =~= Seq::<Seq<char>>::empty());
            assert(char_views(out@) + comps_from(p@, i as int) =~= char_views(out@));
            i = p.len();
            break;
        }
        proof {
            lemma_skip_seps(p@, i as int);
            lemma_run_end(p@, j as int);
        }
        let k = run_end_exec(&p, j);
        let seg = sub_chars(&p, j, k);
        let ghost before = char_views(out@);
        let is_dot = seg.len() == 1 && seg[0] == '.';
        if !is_dot {
            out.push(seg);
            assert(char_views(out@) =~= before.push(p@.subrange(j as int, k as int)));
            assert(seq![p@.subrange(j as int, k as int)] + comps_from(p@, k as int) =~= comps_from(p@, k as int).insert(0, p@.subrange(j as int, k as int)));
            assert(before.push(p@.subrange(j as int, k as int)) + comps_from(p@, k as int) =~= before + (seq![p@.subrange(j as int, k as int)] + comps_from(p@, k as int)));
        } else {
            assert(p@.subrange(j as int, k as int) =~= seq!['.']);
        }
        i = k;
    }
    assert(comps_from(p@, i as int) =~= Seq::<Seq<char>>::empty());
    assert(char_views(out@) =~= char_views(out@) + comps_from(p@, i as int));
    out
}

/// Whether two character vectors hold the same characters.
fn chars_same(a: &Vec<char>, b: &Vec<char>) -> (r: bool)
    ensures
        r == (a@ == b@),
{
    if a.len() != b.len() {
        return false;
    }
    let mut i: usize = 0;
    while i < a.len()
        invariant
            a@.len() == b@.len(),
            i <= a@.len(),
            forall|k: int| 0 <= k < i ==> a@[k] == b@[k],
        decreases a@.len() - i,
    {
        if a[i] != b[i] {
            return false;
        }
        i += 1;
    }
    assert(a@ =~= b@);
    true
}

/// Whether the first `n` components of `a` and `b` agree.
fn components_agree(a: &Vec<Vec<char>>, b: &Vec<Vec<char>>, n: usize) -> (r: bool)
    requires
        n <= a@.len(),
        n <= b@.len(),
    ensures
        r == (char_views(a@).take(n as int) == char_views(b@).take(n as int)),
{
    let mut i: usize = 0;
    while i < n
        invariant
            n <= a@.len(),
            n <= b@.len(),
            i <= n,
            forall|k: int| 0 <= k < i ==> a@[k]@ == b@[k]@,
        decreases n - i,
    {
        if !chars_same(&a[i], &b[i]) {
            assert(char_views(a@).take(n as int)[i as int] != char_views(b@).take(n as int)[i as int]);
            return false;
        }
        i += 1;
    }
    assert(char_views(a@).take(n as int) =~= char_views(b@).take(n as int));
    true
}

/// Whether two component lists are equal.
fn components_equal(a: &Vec<Vec<char>>, b: &Vec<Vec<char>>) -> (r: bool)
    ensures
        r == (char_views(a@) == char_views(b@)),
{
    if a.len() != b.len() {
        return false;
    }
    let r = components_agree(a, b, a.len());
    assert(char_views(a@).take(a@.len() as int) =~= char_views(a@));
    assert(char_views(b@).take(b@.len() as int) =~= char_views(b@));
    r
}

/// Exec form of [`is_prefix_of`].
fn components_prefix(a: &Vec<Vec<char>>, b: &Vec<Vec<char>>) -> (r: bool)
    ensures
        r == is_prefix_of(char_views(a@), char_views(b@)),
{
    if a.len() > b.len() {
        return false;
    }
    let r = components_agree(a, b, a.len());
    assert(char_views(a@).take(a@.len() as int) =~= char_views(a@));
    r
}

/// A copy of a component list.
fn copy_components(c: &Vec<Vec<char>>) -> (r: Vec<Vec<char>>)
    ensures
        char_views(r@) == char_views(c@),
{
    let mut r: Vec<Vec<char>> = Vec::new();
    let mut i: usize = 0;
    while i < c.len()
        invariant
            i <= c@.len(),
            r@.len() == i,
            forall|k: int| 0 <= k < i ==> (#[trigger] r@[k])@ == c@[k]@,
        decreases c@.len() - i,
    {
        let mut x: Vec<char> = Vec::new();
        let mut j: usize = 0;
        while j < c[i].len()
            invariant
                i < c@.len(),
                j <= c@[i as int]@.len(),
                x@ == c@[i as int]@.take(j as int),
            decreases c@[i as int]@.len() - j,
        {
            x.push(c[i][j]);
            assert(c@[i as int]@.take(j + 1) =~= c@[i as int]@.take(j as int).push(c@[i as int]@[j as int]));
            j += 1;
        }
        assert(c@[i as int]@.take(j as int) =~= c@[i as int]@);
        r.push(x);
        i += 1;
    }
    assert(char_views(r@) =~= char_views(c@));
    r
}

/// The component lists held by a cache tier.
pub open spec fn tier_view(t: Seq<Vec<Vec<char>>>) -> Seq<Seq<Seq<char>>> {
    t.map_values(|e: Vec<Vec<char>>| char_views(e@))
}

/// A tier after inserting `key`: emptied first when it already holds `max` entries,
/// then `key` added unless present.
pub open spec fn tier_insert(t: Seq<Seq<Seq<char>>>, max: nat, key: Seq<Seq<char>>) -> Seq<Seq<Seq<char>>> {
    let base = if t.len() >= max { Seq::empty() } else { t };
    if base.contains(key) {
        base
    } else {
        base.push(key)
    }
}

/// The entries of a tier that do not lie under `dir`, in order.
pub open spec fn entries_outside(t: Seq<Seq<Seq<char>>>, dir: Seq<Seq<char>>) -> Seq<Seq<Seq<char>>>
    decreases t.len(),
{
    if t.len() == 0 {
        t
    } else {
        let prev = entries_outside(t.drop_last(), dir);
        if is_prefix_of(dir, t.last()) {
            prev
        } else {
            prev.push(t.last())
        }
    }
}

/// The entries of a tier that do not lie under the parent directory of `path` (its
/// components but the last); all of them when `path` has no parent.
pub open spec fn entries_outside_parent(t: Seq<Seq<Seq<char>>>, path: Seq<char>) -> Seq<Seq<Seq<char>>> {
    let cs = components(path);
    if cs.len() > 0 && cs.last() != seq!['/'] {
        entries_outside(t, cs.drop_last())
    } else {
        t
    }
}

/// Directories verified free of reparse points, by path components: a shallow tier for
/// directories at most three levels below their root and a deep tier for the others, each
/// emptied when it reaches its capacity.
#[derive(Debug)]
pub struct ReparseCache {
    shallow: Vec<Vec<Vec<char>>>,
    deep: Vec<Vec<Vec<char>>>,
    max_shallow: usize,
    max_deep: usize,
}

impl ReparseCache {
    /// The shallow tier.
    pub closed spec fn spec_shallow(&self) -> Seq<Seq<Seq<char>>> {
        tier_view(self.shallow@)
    }

    /// The deep tier.
    pub closed spec fn spec_deep(&self) -> Seq<Seq<Seq<char>>> {
        tier_view(self.deep@)
    }

    /// Capacity of the shallow tier.
    pub closed spec fn spec_max_shallow(&self) -> nat {
        self.max_shallow as nat
    }

    /// Capacity of the deep tier.
    pub closed spec fn spec_max_deep(&self) -> nat {
        self.max_deep as nat
    }

    /// An empty cache with the given tier capacities.
    pub fn new(max_shallow: usize, max_deep: usize) -> (c: Self)
        ensures
            c.spec_shallow() == Seq::<Seq<Seq<char>>>::empty(),
            c.spec_deep() == Seq::<Seq<Seq<char>>>::empty(),
            c.spec_max_shallow() == max_shallow,
            c.spec_max_deep() == max_deep,
    {
        let c = ReparseCache { shallow: Vec::new(), deep: Vec::new(), max_shallow, max_deep };
        assert(c.spec_shallow() =~= Seq::<Seq<Seq<char>>>::empty());
        assert(c.spec_deep() =~= Seq::<Seq<Seq<char>>>::empty());
        c
    }

    /// Whether `key` is in tier `t`.
    fn tier_contains(t: &Vec<Vec<Vec<char>>>, key: &Vec<Vec<char>>) -> (r: bool)
        ensures
            r == tier_view(t@).contains(char_views(key@)),
    {
        let mut i: usize = 0;
        while i < t.len()
            invariant
                i <= t@.len(),
                forall|k: int| 0 <= k < i ==> tier_view(t@)[k] != char_views(key@),
            decreases t@.len() - i,
        {
            if components_equal(&t[i], key) {
                assert(tier_view(t@)[i as int] == char_views(key@));
                return true;
            }
            i += 1;
        }
        false
    }

    /// Whether `path` is cached in either tier.
    pub fn contains(&self, path: &str) -> (r: bool)
        ensures
            r == (self.spec_shallow().contains(components(path@)) || self.spec_deep().contains(
                components(path@),
            )),
    {
        let key = path_components(path);
        Self::tier_contains(&self.shallow, &key) || Self::tier_contains(&self.deep, &key)
    }

    /// Inserts `key` into tier `t` of capacity `max`.
    fn tier_add(t: &mut Vec<Vec<Vec<char>>>, max: usize, key: Vec<Vec<char>>)
        ensures
            tier_view(final(t)@) == tier_insert(tier_view(old(t)@), max as nat, char_views(key@)),
    {
        if t.len() >= max {
            t.clear();
            assert(tier_view(t@) =~= Seq::<Seq<Seq<char>>>::empty());
        }
        let ghost base = tier_view(t@);
        if !Self::tier_contains(t, &key) {
            t.push(key);
            assert(tier_view(t@) =~= base.push(char_views(key@)));
        }
    }

    /// Records `ancestor` as verified, in the shallow tier when it lies at most three
    /// components below `base_root` (or not below it at all), else in the deep tier.
    pub fn insert_ancestor(&mut self, base_root: &str, ancestor: &str)
        ensures
            final(self).spec_max_shallow() == old(self).spec_max_shallow(),
            final(self).spec_max_deep() == old(self).spec_max_deep(),
            ({
                let key = components(ancestor@);
                let d = relative_depth(components(base_root@), key);
                if d <= SHALLOW_MAX_DEPTH {
                    &&& final(self).spec_shallow() == tier_insert(old(self).spec_shallow(), old(self).spec_max_shallow(), key)
                    &&& final(self).spec_deep() == old(self).spec_deep()
                } else {
                    &&& final(self).spec_deep() == tier_insert(old(self).spec_deep(), old(self).spec_max_deep(), key)
                    &&& final(self).spec_shallow() == old(self).spec_shallow()
                }
            }),
    {
        let base = path_components(base_root);
        let key = path_components(ancestor);
        let depth: usize = if components_prefix(&base, &key) { key.len() - base.len() } else { 0 };
        if depth <= SHALLOW_MAX_DEPTH {
            let max = self.max_shallow;
            Self::tier_add(&mut self.shallow, max, key);
        } else {
            let max = self.max_deep;
            Self::tier_add(&mut self.deep, max, key);
        }
    }

    /// Keeps the entries of tier `t` that do not lie under `dir`.
    fn tier_evict(t: &mut Vec<Vec<Vec<char>>>, dir: &Vec<Vec<char>>)
        ensures
            tier_view(final(t)@) == entries_outside(tier_view(old(t)@), char_views(dir@)),
    {
        let mut kept: Vec<Vec<Vec<char>>> = Vec::new();
        let n = t.len();
        let mut i: usize = 0;
        while i < n
            invariant
                n == t@.len(),
                t@ == old(t)@,
                i <= n,
                tier_view(kept@) == entries_outside(tier_view(t@).take(i as int), char_views(dir@)),
            decreases n - i,
        {
            let ghost before = tier_view(kept@);
            assert(tier_view(t@).take(i + 1).drop_last() =~= tier_view(t@).take(i as int));
            if !components_prefix(dir, &t[i]) {
                kept.push(copy_components(&t[i]));
                assert(tier_view(kept@) =~= before.push(tier_view(t@)[i as int]));
            }
            i += 1;
        }
        assert(tier_view(t@).take(n as int) =~= tier_view(t@));
        *t = kept;
    }

    /// Removes `dir` and every cached directory under it from both tiers.
    pub fn evict_dir(&mut self, dir: &str)
        ensures
            final(self).spec_shallow() == entries_outside(old(self).spec_shallow(), components(dir@)),
            final(self).spec_deep() == entries_outside(old(self).spec_deep(), components(dir@)),
            final(self).spec_max_shallow() == old(self).spec_max_shallow(),
            final(self).spec_max_deep() == old(self).spec_max_deep(),
    {
        let d = path_components(dir);
        Self::tier_evict(&mut self.shallow, &d);
        Self::tier_evict(&mut self.deep, &d);
    }

    /// Removes the parent directory of `path` (its components but the last) and every
    /// cached directory under it from both tiers; a path without a parent changes nothing.
    pub fn evict_parent_of(&mut self, path: &str)
        ensures
            final(self).spec_max_shallow() == old(self).spec_max_shallow(),
            final(self).spec_max_deep() == old(self).spec_max_deep(),
            final(self).spec_shallow() == entries_outside_parent(old(self).spec_shallow(), path@),
            final(self).spec_deep() == entries_outside_parent(old(self).spec_deep(), path@),
    {
        let mut d = path_components(path);
        let n = d.len();
        if n == 0 {
            return;
        }
        let last_is_root = d[n - 1].len() == 1 && d[n - 1][0] == '/';
        proof {
            let cs = components(path@);
            assert(cs.last() == d@[n - 1]@);
            if !last_is_root {
                assert(cs.last() != seq!['/']);
            } else {
                assert(d@[n - 1]@ =~= seq!['/']);
            }
        }
        if last_is_root {
            return;
        }
        let ghost before = d@;
        d.pop();
        assert(char_views(d@) =~= char_views(before).drop_last());
        Self::tier_evict(&mut self.shallow, &d);
        Self::tier_evict(&mut self.deep, &d);
    }

    /// Empties both tiers.
    pub fn clear(&mut self)
        ensures
            final(self).spec_shallow() == Seq::<Seq<Seq<char>>>::empty(),
            final(self).spec_deep() == Seq::<Seq<Seq<char>>>::empty(),
            final(self).spec_max_shallow() == old(self).spec_max_shallow(),
            final(self).spec_max_deep() == old(self).spec_max_deep(),
    {
        self.shallow.clear();
        self.deep.clear();
        assert(self.spec_shallow() =~= Seq::<Seq<Seq<char>>>::empty());
        assert(self.spec_deep() =~= Seq::<Seq<Seq<char>>>::empty());
    }

    /// Number of shallow entries.
    pub fn shallow_len(&self) -> (r: usize)
        ensures
            r == self.spec_shallow().len(),
    {
        self.shallow.len()
    }

    /// Number of deep entries.
    pub fn deep_len(&self) -> (r: usize)
        ensures
            r == self.spec_deep().len(),
    {
        self.deep.len()
    }

    /// Number of entries in both tiers (saturating).
    pub fn len(&self) -> (r: usize)
        ensures
            r == if self.spec_shallow().len() + self.spec_deep().len() > usize::MAX {
                usize::MAX as nat
            } else {
                self.spec_shallow().len() + self.spec_deep().len()
            },
    {
        self.shallow.len().saturating_add(self.deep.len())
    }

    /// Whether both tiers are empty.
    pub fn is_empty(&self) -> (r: bool)
        ensures
            r == (self.spec_shallow().len() == 0 && self.spec_deep().len() == 0),
    {
        self.shallow.len() == 0 && self.deep.len() == 0
    }
}

} // verus!
