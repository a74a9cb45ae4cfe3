//! Refusing to write through symbolic links or junctions: every directory on the way
//! from a root to a file is probed once, and the ones found clean are remembered in the
//! reparse cache so that later writes skip them.

use vstd::prelude::*;
use crate::error::{SyncError, ValidationKind};
use crate::reparse::{ReparseCache, char_views, components, path_components, tier_insert};
use crate::runner::{join_path, joined_path};
use crate::text::string_from_chars;

verus! {

/// What probing a path on disk found (without following a final link).
#[derive(Debug, Clone, Copy, PartialEq, Eq, Structural)]
pub enum PathKind {
    /// Nothing is there (or it could not be read).
    Missing,
    /// A symbolic link, junction or other reparse point.
    Link,
    /// A directory.
    Directory,
    /// Any other file.
    Other,
}

/// Looks at paths on disk.
pub trait PathProbe {
    /// What is at the paths with components `key`, where the probe knows it in advance (a
    /// probe that does not say keeps this default: nothing is known).
    open spec fn kind_at(&self, key: Seq<Seq<char>>) -> Option<PathKind> {
        None
    }

    /// What is at `path`, not following a final link.
    fn probe(&self, path: &str) -> (r: PathKind)
        ensures
            self.kind_at(components(path@)) matches Some(k) ==> r == k,
    ;
}

/// `key` is held by `cache`.
pub open spec fn cached(cache: ReparseCache, key: Seq<Seq<char>>) -> bool {
    cache.spec_shallow().contains(key) || cache.spec_deep().contains(key)
}

/// The walk from `root` along `cs` passes no path known to be a link, except ones that
/// `cache` already held.
pub open spec fn walk_clear<P: PathProbe>(probe: P, cache: ReparseCache, root: Seq<char>, cs: Seq<Seq<char>>) -> bool {
    forall|i: int| 0 <= i <= cs.len() ==> cached(cache, #[trigger] components(walk_path(root, cs, i)))
        || probe.kind_at(components(walk_path(root, cs, i))) != Some(PathKind::Link)
}

/// Some path of the walk from `root` along `cs` is a link or of a kind not known in advance.
pub open spec fn walk_may_hold_link<P: PathProbe>(probe: P, root: Seq<char>, cs: Seq<Seq<char>>) -> bool {
    exists|i: int| 0 <= i <= cs.len() && !(#[trigger] probe.kind_at(components(walk_path(root, cs, i)))
        matches Some(k) && k != PathKind::Link)
}

/// What a successful walk reports for its last path: what is there, as far as known in
/// advance, when it is probed and the walk has a component.
pub open spec fn leaf_reported<P: PathProbe>(probe: P, root: Seq<char>, cs: Seq<Seq<char>>, probe_leaf: bool, r: PathKind) -> bool {
    if probe_leaf && cs.len() > 0 {
        probe.kind_at(components(walk_path(root, cs, cs.len() as int))) matches Some(k) ==> r == k
    } else {
        r == PathKind::Missing
    }
}

/// The paths visited when walking from `root` along the components `cs`: `root`, then
/// `root` joined with the first `i` components, for `i` up to the length of `cs`.
pub open spec fn walk_path(root: Seq<char>, cs: Seq<Seq<char>>, i: int) -> Seq<char>
    decreases i,
{
    if i <= 0 {
        root
    } else {
        joined_path(walk_path(root, cs, i - 1), cs[i - 1])
    }
}

/// `key` is the cache key of one of the paths of the walk from `root` along `cs`.
pub open spec fn on_walk(root: Seq<char>, cs: Seq<Seq<char>>, key: Seq<Seq<char>>) -> bool {
    exists|i: int| 0 <= i <= cs.len() && key == #[trigger] components(walk_path(root, cs, i))
}

/// Every entry of tier `now` was in tier `before` or is the key of a path of the walk.
pub open spec fn grown_along_walk(
    before: Seq<Seq<Seq<char>>>,
    now: Seq<Seq<Seq<char>>>,
    root: Seq<char>,
    cs: Seq<Seq<char>>,
) -> bool {
    forall|e: Seq<Seq<char>>| #[trigger] now.contains(e) ==> before.contains(e) || on_walk(root, cs, e)
}

/// `cache` holds the key of every path of the walk from `root` along `cs`.
pub open spec fn walk_cached(cache: ReparseCache, root: Seq<char>, cs: Seq<Seq<char>>) -> bool {
    forall|i: int| 0 <= i <= cs.len() ==> (#[trigger] cache.spec_shallow().contains(components(walk_path(root, cs, i))))
        || cache.spec_deep().contains(components(walk_path(root, cs, i)))
}

proof fn lemma_tier_insert_entries(t: Seq<Seq<Seq<char>>>, max: nat, key: Seq<Seq<char>>)
    ensures
        forall|e: Seq<Seq<char>>| #[trigger] tier_insert(t, max, key).contains(e) ==> t.contains(e) || e == key,
{
    let base: Seq<Seq<Seq<char>>> = if t.len() >= max { Seq::empty() } else { t };
    assert forall|e: Seq<Seq<char>>| #[trigger] tier_insert(t, max, key).contains(e) implies t.contains(e) || e == key by {
        if !base.contains(key) {
            let r = base.push(key);
            let k = choose|k: int| 0 <= k < r.len() && r[k] == e;
            if k < base.len() {
                assert(base[k] == e);
            }
        }
    }
}

/// Both tiers of `cache` have room for `k` more entries, so that as many insertions clear
/// neither.
pub open spec fn room(cache: ReparseCache, k: nat) -> bool {
    &&& cache.spec_shallow().len() + k <= cache.spec_max_shallow()
    &&& cache.spec_deep().len() + k <= cache.spec_max_deep()
}

/// Inserting into a tier with room keeps its entries, adds `key`, and grows it by at most one.
proof fn lemma_tier_insert_room(t: Seq<Seq<Seq<char>>>, max: nat, key: Seq<Seq<char>>)
    requires
        t.len() < max,
    ensures
        forall|e: Seq<Seq<char>>| t.contains(e) ==> #[trigger] tier_insert(t, max, key).contains(e),
        tier_insert(t, max, key).contains(key),
        tier_insert(t, max, key).len() <= t.len() + 1,
{
    if !t.contains(key) {
        assert(t.push(key)[t.len() as int] == key);
        assert forall|e: Seq<Seq<char>>| t.contains(e) implies #[trigger] tier_insert(t, max, key).contains(e) by {
            let k = choose|k: int| 0 <= k < t.len() && t[k] == e;
            assert(t.push(key)[k] == e);
        }
    }
}

/// The components of `rel` without its last one: the directories that lead to it.
pub open spec fn parent_components(rel: Seq<char>) -> Seq<Seq<char>> {
    let cs = components(rel);
    if cs.len() == 0 { cs } else { cs.drop_last() }
}

/// Walks from `root` along `comps`, refusing a root or a directory that is a link and
/// caching the directories found clean; the kind of the last path is probed (even when
/// cached) only if `probe_leaf` holds, and is `Missing` otherwise.
fn walk_not_reparse<P: PathProbe>(
    root: &str,
    comps: &Vec<Vec<char>>,
    probe_leaf: bool,
    root_msg: &str,
    comp_msg: &str,
    cache: &mut ReparseCache,
    probe: &P,
) -> (r: Result<PathKind, SyncError>)
    ensures
        r is Err ==> (r->Err_0 matches SyncError::Validation { kind, .. } && kind == ValidationKind::ReparsePoint),
        final(cache).spec_max_shallow() == old(cache).spec_max_shallow(),
        final(cache).spec_max_deep() == old(cache).spec_max_deep(),
        grown_along_walk(old(cache).spec_shallow(), final(cache).spec_shallow(), root@, char_views(comps@)),
        grown_along_walk(old(cache).spec_deep(), final(cache).spec_deep(), root@, char_views(comps@)),
        walk_cached(*old(cache), root@, char_views(comps@)) ==> r is Ok && *final(cache) == *old(cache),
        !probe_leaf ==> r is Ok ==> r->Ok_0 == PathKind::Missing,
        r is Ok ==> walk_clear(*probe, *old(cache), root@, char_views(comps@))
            && leaf_reported(*probe, root@, char_views(comps@), probe_leaf, r->Ok_0),
        r is Err ==> walk_may_hold_link(*probe, root@, char_views(comps@)),
        room(*old(cache), comps@.len() + 1) ==> forall|e: Seq<Seq<char>>| cached(*old(cache), e) ==> #[trigger] cached(
            *final(cache),
            e,
        ),
        r is Ok && room(*old(cache), comps@.len() + 1) ==> forall|i: int| 0 <= i <= comps@.len() && (i == 0
            || probe.kind_at(components(walk_path(root@, char_views(comps@), i))) == Some(PathKind::Directory)) ==> cached(
            *final(cache),
            #[trigger] components(walk_path(root@, char_views(comps@), i)),
        ),
{
    let ghost cs = char_views(comps@);
    let ghost c0 = *cache;
    let ghost roomy = room(c0, comps@.len() + 1);
    let all_cached_root = cache.contains(root);
    if !all_cached_root {
        proof {
            if walk_cached(c0, root@, cs) {
                assert(walk_path(root@, cs, 0) == root@);
                assert(c0.spec_shallow().contains(components(walk_path(root@, cs, 0)))
                    || c0.spec_deep().contains(components(walk_path(root@, cs, 0))));
            }
        }
        let root_kind = probe.probe(root);
        proof {
            assert(walk_path(root@, cs, 0) == root@);
        }
        if root_kind == PathKind::Link {
            proof {
                assert(!(probe.kind_at(components(walk_path(root@, cs, 0))) matches Some(k) && k != PathKind::Link));
            }
            return Err(SyncError::validation_reparse(root_msg));
        }
        let ghost before = *cache;
        cache.insert_ancestor(root, root);
        proof {
            if roomy {
                lemma_tier_insert_room(before.spec_shallow(), before.spec_max_shallow(), components(root@));
                lemma_tier_insert_room(before.spec_deep(), before.spec_max_deep(), components(root@));
            }
            lemma_tier_insert_entries(before.spec_shallow(), before.spec_max_shallow(), components(root@));
            lemma_tier_insert_entries(before.spec_deep(), before.spec_max_deep(), components(root@));
            assert(components(root@) == components(walk_path(root@, cs, 0)));
            assert(probe.kind_at(components(root@)) != Some(PathKind::Link));
        }
    } else {
        proof {
            assert(walk_path(root@, cs, 0) == root@);
        }
    }
    let n = comps.len();
    let mut current = root.to_owned();
    let mut leaf = PathKind::Missing;
    let mut i: usize = 0;
    while i < n
        invariant
            c0 == *old(cache),
            cs == char_views(comps@),
            n == cs.len(),
            i <= n,
            current@ == walk_path(root@, cs, i as int),
            cache.spec_max_shallow() == c0.spec_max_shallow(),
            cache.spec_max_deep() == c0.spec_max_deep(),
            grown_along_walk(c0.spec_shallow(), cache.spec_shallow(), root@, cs),
            grown_along_walk(c0.spec_deep(), cache.spec_deep(), root@, cs),
            walk_cached(c0, root@, cs) ==> *cache == c0,
            !probe_leaf ==> leaf == PathKind::Missing,
            forall|e: Seq<Seq<char>>| cached(*cache, e) ==> cached(c0, e) || #[trigger] probe.kind_at(e) != Some(PathKind::Link),
            forall|j: int| 0 <= j <= i ==> cached(c0, #[trigger] components(walk_path(root@, cs, j)))
                || probe.kind_at(components(walk_path(root@, cs, j))) != Some(PathKind::Link),
            leaf_reported(*probe, root@, cs, probe_leaf && i == n, leaf),
            roomy == room(c0, (n + 1) as nat),
            roomy ==> cache.spec_shallow().len() <= c0.spec_shallow().len() + i + 1,
            roomy ==> cache.spec_deep().len() <= c0.spec_deep().len() + i + 1,
            roomy ==> forall|e: Seq<Seq<char>>| cached(c0, e) ==> #[trigger] cached(*cache, e),
            roomy ==> forall|j: int| 0 <= j <= i && (j == 0 || probe.kind_at(components(walk_path(root@, cs, j))) == Some(
                PathKind::Directory)) ==> cached(*cache, #[trigger] components(walk_path(root@, cs, j))),
        decreases n - i,
    {
        let comp = string_from_chars(comps[i].as_slice());
        current = join_path(current.as_str(), comp.as_str());
        let is_leaf = probe_leaf && i + 1 == n;
        proof {
            assert(comp@ == cs[i as int]);
            assert(current@ == walk_path(root@, cs, i + 1));
        }
        if cache.contains(current.as_str()) {
            if is_leaf {
                leaf = probe.probe(current.as_str());
            }
        } else {
            proof {
                if walk_cached(c0, root@, cs) {
                    assert(c0.spec_shallow().contains(components(walk_path(root@, cs, i + 1)))
                        || c0.spec_deep().contains(components(walk_path(root@, cs, i + 1))));
                }
            }
            let kind = probe.probe(current.as_str());
            if kind == PathKind::Link {
                proof {
                    assert(!(probe.kind_at(components(walk_path(root@, cs, i + 1))) matches Some(k) && k
                        != PathKind::Link));
                }
                return Err(SyncError::validation_reparse(comp_msg));
            }
            if kind == PathKind::Directory {
                let ghost before = *cache;
                cache.insert_ancestor(root, current.as_str());
                proof {
                    let key = components(current@);
                    if roomy {
                        lemma_tier_insert_room(before.spec_shallow(), before.spec_max_shallow(), key);
                        lemma_tier_insert_room(before.spec_deep(), before.spec_max_deep(), key);
                        assert forall|e: Seq<Seq<char>>| cached(c0, e) implies #[trigger] cached(*cache, e) by {
                            assert(cached(before, e));
                            assert(before.spec_shallow().contains(e) ==> cache.spec_shallow().contains(e));
                            assert(before.spec_deep().contains(e) ==> cache.spec_deep().contains(e));
                        }
                    }
                    lemma_tier_insert_entries(before.spec_shallow(), before.spec_max_shallow(), key);
                    lemma_tier_insert_entries(before.spec_deep(), before.spec_max_deep(), key);
                    assert(key == components(walk_path(root@, cs, i + 1)));
                    assert(on_walk(root@, cs, key));
                }
            }
            if is_leaf {
                leaf = kind;
            }
        }
        i += 1;
    }
    Ok(leaf)
}

/// Checks, before writing `rel` under the destination `root`, that neither the root nor
/// any path from it down to `rel` is a link, using `cache` to skip the directories already
/// found clean and adding the ones it finds clean; returns what is at the full path
/// (`Missing` for an empty `rel`). A link is refused with a reparse-point validation error.
/// The cache only gains keys of paths on the walk, and when it already holds all of them it
/// is left as it was and the check succeeds. When both tiers have room for every path of
/// the walk, a successful check leaves the root and every directory on the walk cached,
/// and forgets nothing. It succeeds only when no path on the walk that
/// the cache did not hold is known to be a link, and fails only when one is a link or of a
/// kind not known in advance.
pub fn verify_destination_not_reparse_cached<P: PathProbe>(
    root: &str,
    rel: &str,
    cache: &mut ReparseCache,
    probe: &P,
) -> (r: Result<PathKind, SyncError>)
    ensures
        r is Err ==> (r->Err_0 matches SyncError::Validation { kind, .. } && kind == ValidationKind::ReparsePoint),
        final(cache).spec_max_shallow() == old(cache).spec_max_shallow(),
        final(cache).spec_max_deep() == old(cache).spec_max_deep(),
        grown_along_walk(old(cache).spec_shallow(), final(cache).spec_shallow(), root@, components(rel@)),
        grown_along_walk(old(cache).spec_deep(), final(cache).spec_deep(), root@, components(rel@)),
        walk_cached(*old(cache), root@, components(rel@)) ==> r is Ok && *final(cache) == *old(cache),
        r is Ok ==> walk_clear(*probe, *old(cache), root@, components(rel@))
            && leaf_reported(*probe, root@, components(rel@), true, r->Ok_0),
        r is Err ==> walk_may_hold_link(*probe, root@, components(rel@)),
        room(*old(cache), components(rel@).len() + 1) ==> forall|e: Seq<Seq<char>>| cached(*old(cache), e)
            ==> #[trigger] cached(*final(cache), e),
        r is Ok && room(*old(cache), components(rel@).len() + 1) ==> forall|i: int| 0 <= i <= components(rel@).len() && (i
            == 0 || probe.kind_at(components(walk_path(root@, components(rel@), i))) == Some(PathKind::Directory)) ==> cached(
            *final(cache),
            #[trigger] components(walk_path(root@, components(rel@), i)),
        ),
{
    let comps = path_components(rel);
    walk_not_reparse(
        root,
        &comps,
        true,
        "destination root is a symlink or reparse point",
        "destination component is a symlink or reparse point",
        cache,
        probe,
    )
}

/// Checks, before reading `rel` under the source `root`, that neither the root nor any
/// directory leading to `rel` (the file itself is not looked at) is a link, with the same
/// use of `cache` as [`verify_destination_not_reparse_cached`]: it succeeds only when no
/// directory on the way that the cache did not hold is known to be a link, and fails only
/// when one is a link or of a kind not known in advance.
pub fn verify_source_not_reparse_cached<P: PathProbe>(
    root: &str,
    rel: &str,
    cache: &mut ReparseCache,
    probe: &P,
) -> (r: Result<(), SyncError>)
    ensures
        r is Err ==> (r->Err_0 matches SyncError::Validation { kind, .. } && kind == ValidationKind::ReparsePoint),
        final(cache).spec_max_shallow() == old(cache).spec_max_shallow(),
        final(cache).spec_max_deep() == old(cache).spec_max_deep(),
        grown_along_walk(old(cache).spec_shallow(), final(cache).spec_shallow(), root@, parent_components(rel@)),
        grown_along_walk(old(cache).spec_deep(), final(cache).spec_deep(), root@, parent_components(rel@)),
        walk_cached(*old(cache), root@, parent_components(rel@)) ==> r is Ok && *final(cache) == *old(cache),
        r is Ok ==> walk_clear(*probe, *old(cache), root@, parent_components(rel@)),
        r is Err ==> walk_may_hold_link(*probe, root@, parent_components(rel@)),
{
    let mut comps = path_components(rel);
    let ghost all = char_views(comps@);
    if comps.len() > 0 {
        comps.pop();
        proof {
            assert(char_views(comps@) =~= all.drop_last());
        }
    }
    match walk_not_reparse(
        root,
        &comps,
        false,
        "source root is a symlink or reparse point",
        "source ancestor is a symlink or reparse point",
        cache,
        probe,
    ) {
        Ok(_) => Ok(()),
        Err(e) => Err(e),
    }
}

} // verus!
