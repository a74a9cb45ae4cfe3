//! Destination archives: where a deleted file is moved, how archive entries are
//! dated, and which entries a retention pass removes.

use vstd::prelude::*;
use crate::reparse::{char_views, components, path_components};
use crate::runner::{join_path, joined_path};
use crate::text::{digit, digit_char, decimal, push_char, push_decimal, push_str, string_from_chars, chars_of};

verus! {

/// Candidate files looked at in one pruning pass, at most.
pub const MAX_ARCHIVE_PRUNE_CANDIDATES: usize = 5000;

/// Deepest directory level below the archive root that a pruning pass descends into.
pub const MAX_ARCHIVE_DEPTH: usize = 32;

/// Smallest millisecond timestamp accepted as an archive date (early September 2001).
pub const MIN_ARCHIVE_TIMESTAMP_MS: u64 = 1000000000000;

/// Retention age of archived files, in days.
pub const ARCHIVE_MAX_AGE_DAYS: u64 = 30;

/// Retention size of one destination archive, in bytes (10 GiB).
pub const ARCHIVE_MAX_BYTES: u64 = 10737418240;

/// Milliseconds in a day.
pub const MILLIS_PER_DAY: u64 = 86400000;

/// Name of the archive directory kept at the root of each destination.
pub open spec fn archive_dir_name() -> Seq<char> {
    ".syncdir_archive"@
}

/// The archive directory of destination `dest`.
pub open spec fn archive_root(dest: Seq<char>) -> Seq<char> {
    joined_path(dest, archive_dir_name())
}

/// `base` with each of `comps` appended as one more path component.
pub open spec fn join_all(base: Seq<char>, comps: Seq<Seq<char>>) -> Seq<char>
    decreases comps.len(),
{
    if comps.len() == 0 {
        base
    } else {
        join_all(joined_path(base, comps[0]), comps.drop_first())
    }
}

/// Where `rel` is archived under `dest` with the dating token `token`: the archive root,
/// then the first component of `rel` prefixed by `token` and `_`, then its other
/// components. A path without components maps to the archive root itself.
pub open spec fn archive_path_of(dest: Seq<char>, rel: Seq<char>, token: Seq<char>) -> Seq<char> {
    let cs = components(rel);
    if cs.len() == 0 {
        archive_root(dest)
    } else {
        join_all(archive_root(dest), seq![token + seq!['_'] + cs[0]] + cs.drop_first())
    }
}

/// The archive directory of `dest_dir`.
pub fn archive_dir(dest_dir: &str) -> (r: String)
    ensures
        r@ == archive_root(dest_dir@),
{
    join_path(dest_dir, ".syncdir_archive")
}

/// Archive path of `relative_path` under `dest_dir`, dated by `timestamp`
/// (`<dest>/.syncdir_archive/<timestamp>_<first component>/<rest>`).
pub fn get_archive_path(dest_dir: &str, relative_path: &str, timestamp: &str) -> (r: String)
    ensures
        r@ == archive_path_of(dest_dir@, relative_path@, timestamp@),
{
    let root = archive_dir(dest_dir);
    let comps = path_components(relative_path);
    if comps.len() == 0 {
        return root;
    }
    let mut first = timestamp.to_owned();
    push_char(&mut first, '_');
    let first_comp = string_from_chars(comps[0].as_slice());
    push_str(&mut first, first_comp.as_str());
    let ghost cs = components(relative_path@);
    let ghost all = seq![timestamp@ + seq!['_'] + cs[0]] + cs.drop_first();
    assert(first@ == timestamp@ + seq!['_'] + cs[0]);
    let mut out = join_path(root.as_str(), first.as_str());
    let mut i: usize = 1;
    while i < comps.len()
        invariant
            char_views(comps@) == cs,
            cs.len() > 0,
            1 <= i <= cs.len(),
            all == seq![timestamp@ + seq!['_'] + cs[0]] + cs.drop_first(),
            join_all(out@, all.skip(i as int)) == join_all(archive_root(dest_dir@), all),
        decreases cs.len() - i,
    {
        let comp = string_from_chars(comps[i].as_slice());
        assert(comp@ == cs[i as int]);
        assert(all.skip(i as int)[0] == cs[i as int]);
        assert(all.skip(i as int).drop_first() =~= all.skip(i + 1));
        out = join_path(out.as_str(), comp.as_str());
        i += 1;
    }
    assert(all.skip(i as int) =~= Seq::<Seq<char>>::empty());
    proof {
        let a0 = archive_root(dest_dir@);
        assert(all.skip(1) =~= all.drop_first());
        assert(join_all(a0, all) == join_all(joined_path(a0, all[0]), all.drop_first()));
    }
    out
}

/// Four decimal digits of `n`, with leading zeros (`n` below ten thousand).
pub open spec fn four_digits(n: nat) -> Seq<char> {
    seq![digit_char(n / 1000), digit_char(n / 100), digit_char(n / 10), digit_char(n)]
}

/// The dating token of an archive entry: the millisecond timestamp, `_`, and the nonce
/// taken modulo ten thousand as four digits.
pub open spec fn archive_token_of(timestamp_ms: nat, nonce: nat) -> Seq<char> {
    decimal(timestamp_ms) + seq!['_'] + four_digits(nonce % 10000)
}

/// Dating token `<timestamp_ms>_<nonce mod 10000, four digits>` of a new archive entry.
pub fn archive_token(timestamp_ms: u64, nonce: u32) -> (r: String)
    ensures
        r@ == archive_token_of(timestamp_ms as nat, nonce as nat),
{
    let mut s = String::new();
    push_decimal(&mut s, timestamp_ms);
    push_char(&mut s, '_');
    let n: u64 = (nonce % 10000) as u64;
    push_char(&mut s, digit(n / 1000 % 10));
    push_char(&mut s, digit(n / 100 % 10));
    push_char(&mut s, digit(n / 10 % 10));
    push_char(&mut s, digit(n % 10));
    proof {
        let m = (nonce % 10000) as nat;
        assert(digit_char((n / 1000 % 10) as nat) == digit_char(m / 1000));
        assert(digit_char((n / 100 % 10) as nat) == digit_char(m / 100));
        assert(digit_char((n / 10 % 10) as nat) == digit_char(m / 10));
        assert(digit_char((n % 10) as nat) == digit_char(m));
        assert(s@ =~= archive_token_of(timestamp_ms as nat, nonce as nat));
    }
    s
}

/// The token `token` disambiguated by `counter`: `<token>_<counter>`.
pub fn archive_token_with_counter(token: &str, counter: u32) -> (r: String)
    ensures
        r@ == token@ + seq!['_'] + decimal(counter as nat),
{
    let mut s = token.to_owned();
    push_char(&mut s, '_');
    push_decimal(&mut s, counter as u64);
    s
}

/// End of the field of `s` that starts at `i`: the first `_` at or after `i`, or the end.
pub open spec fn field_end(s: Seq<char>, i: int) -> int
    decreases s.len() - i,
{
    if i < 0 || i >= s.len() || s[i] == '_' {
        i
    } else {
        field_end(s, i + 1)
    }
}

/// The text of `s` before its first `_` (all of `s` when it has none).
pub open spec fn first_field(s: Seq<char>) -> Seq<char> {
    s.take(field_end(s, 0))
}

/// `c` is one of the ASCII digits `0` to `9`.
pub open spec fn is_ascii_digit(c: char) -> bool {
    '0' <= c && c <= '9'
}

/// The number that the decimal digits `d` spell.
pub open spec fn digits_value(d: Seq<char>) -> nat
    decreases d.len(),
{
    if d.len() == 0 {
        0
    } else {
        digits_value(d.drop_last()) * 10 + ((d.last() as nat) - ('0' as nat)) as nat
    }
}

/// `s` without a leading `+`.
pub open spec fn unsigned_digits(s: Seq<char>) -> Seq<char> {
    if s.len() > 0 && s[0] == '+' { s.drop_first() } else { s }
}

/// Every character of `d` is an ASCII digit.
pub open spec fn all_digits(d: Seq<char>) -> bool {
    forall|i: int| 0 <= i < d.len() ==> is_ascii_digit(#[trigger] d[i])
}

/// What `u64::from_str` gives for `s`: an optional `+`, then one or more ASCII digits whose
/// value fits in 64 bits; anything else is refused.
pub open spec fn parsed_u64(s: Seq<char>) -> Option<u64> {
    let d = unsigned_digits(s);
    if d.len() > 0 && all_digits(d) && digits_value(d) <= u64::MAX {
        Some(digits_value(d) as u64)
    } else {
        None
    }
}

/// The date encoded at the start of an archive entry's name: the number before its first
/// `_`, read as milliseconds since the epoch, when it is at least
/// [`MIN_ARCHIVE_TIMESTAMP_MS`].
pub open spec fn archive_timestamp_of(name: Seq<char>) -> Option<u64> {
    match parsed_u64(first_field(name)) {
        Some(v) => if v >= MIN_ARCHIVE_TIMESTAMP_MS { Some(v) } else { None },
        None => None,
    }
}

proof fn lemma_digits_prefix_le(d: Seq<char>, j: int)
    requires
        0 <= j <= d.len(),
        all_digits(d),
    ensures
        digits_value(d.take(j)) <= digits_value(d),
    decreases d.len() - j,
{
    if j < d.len() {
        lemma_digits_prefix_le(d, j + 1);
        assert(d.take(j + 1).drop_last() =~= d.take(j));
        assert(d.take(j + 1).last() == d[j]);
    } else {
        assert(d.take(j) =~= d);
    }
}

/// Reads the archive date at the start of `name` (see [`archive_timestamp_of`]).
pub fn parse_archive_timestamp(name: &str) -> (r: Option<u64>)
    ensures
        r == archive_timestamp_of(name@),
{
    let cs = chars_of(name);
    let mut e: usize = 0;
    while e < cs.len() && cs[e] != '_'
        invariant
            cs@ == name@,
            e <= cs@.len(),
            field_end(cs@, e as int) == field_end(cs@, 0),
        decreases cs@.len() - e,
    {
        e += 1;
    }
    let ghost f = first_field(name@);
    assert(f =~= cs@.take(e as int));
    let start: usize = if e > 0 && cs[0] == '+' { 1 } else { 0 };
    let ghost d = unsigned_digits(f);
    assert(d =~= cs@.subrange(start as int, e as int));
    if start >= e {
        return None;
    }
    let mut acc: u64 = 0;
    let mut k: usize = start;
    while k < e
        invariant
            cs@ == name@,
            start <= k <= e <= cs@.len(),
            d =~= cs@.subrange(start as int, e as int),
            f == first_field(name@),
            d == unsigned_digits(f),
            d.len() > 0,
            forall|i: int| 0 <= i < k - start ==> is_ascii_digit(#[trigger] d[i]),
            acc as nat == digits_value(d.take(k - start)),
        decreases e - k,
    {
        let c = cs[k];
        if !('0' <= c && c <= '9') {
            assert(d[k - start] == c);
            assert(!is_ascii_digit(d[k - start]));
            assert(!all_digits(d));
            assert(parsed_u64(f) is None);
            return None;
        }
        let dv: u64 = (c as u32 - '0' as u32) as u64;
        assert(d.take(k - start + 1).drop_last() =~= d.take(k - start));
        assert(d.take(k - start + 1).last() == c);
        if acc > (u64::MAX - dv) / 10 {
            proof {
                assert(digits_value(d.take(k - start + 1)) > u64::MAX) by (nonlinear_arith)
                    requires
                        digits_value(d.take(k - start + 1)) == acc * 10 + dv,
                        acc > (u64::MAX - dv) / 10,
                        dv <= 9,
                ;
                if all_digits(d) {
                    lemma_digits_prefix_le(d, k - start + 1);
                    assert(digits_value(d) > u64::MAX);
                }
                assert(parsed_u64(f) is None);
            }
            return None;
        }
        assert(acc * 10 + dv <= u64::MAX) by (nonlinear_arith)
            requires
                acc <= (u64::MAX - dv) / 10,
                dv <= 9,
        ;
        acc = acc * 10 + dv;
        k += 1;
    }
    assert(d.take(e - start) =~= d);
    if acc >= MIN_ARCHIVE_TIMESTAMP_MS {
        Some(acc)
    } else {
        None
    }
}

proof fn lemma_decimal_digits(n: nat)
    ensures
        decimal(n).len() > 0,
        all_digits(decimal(n)),
        digits_value(decimal(n)) == n,
    decreases n,
{
    let d = digit_char(n % 10);
    assert(is_ascii_digit(d) && (d as nat) - ('0' as nat) == n % 10);
    if n < 10 {
        let s = decimal(n);
        assert(s == seq![digit_char(n)]);
        assert(s.drop_last() =~= Seq::<char>::empty());
        assert(digits_value(s.drop_last()) == 0);
        assert(s.last() == d);
    } else {
        lemma_decimal_digits(n / 10);
        let s = decimal(n);
        assert(s == decimal(n / 10).push(d));
        assert(s.drop_last() =~= decimal(n / 10));
        assert(s.last() == d);
        assert((n / 10) * 10 + n % 10 == n) by (nonlinear_arith);
        assert forall|i: int| 0 <= i < s.len() implies is_ascii_digit(#[trigger] s[i]) by {
            if i < s.len() - 1 {
                assert(s[i] == decimal(n / 10)[i]);
            }
        }
    }
}

proof fn lemma_field_end_after_digits(s: Seq<char>, i: int)
    requires
        0 <= i <= s.len(),
        forall|k: int| 0 <= k < i ==> is_ascii_digit(#[trigger] s[k]),
    ensures
        field_end(s, 0) == field_end(s, i),
    decreases i,
{
    if i > 0 {
        lemma_field_end_after_digits(s, i - 1);
        assert(is_ascii_digit(s[i - 1]));
    }
}

/// The date written into the name of an archive entry is the one a retention pass reads
/// back: a name that starts with the dating token of a timestamp at least
/// [`MIN_ARCHIVE_TIMESTAMP_MS`], whatever follows, is dated by that timestamp.
pub proof fn lemma_archive_name_dated(timestamp_ms: u64, nonce: u32, rest: Seq<char>)
    requires
        timestamp_ms >= MIN_ARCHIVE_TIMESTAMP_MS,
    ensures
        archive_timestamp_of(archive_token_of(timestamp_ms as nat, nonce as nat) + rest) == Some(timestamp_ms),
{
    let d = decimal(timestamp_ms as nat);
    lemma_decimal_digits(timestamp_ms as nat);
    let name = archive_token_of(timestamp_ms as nat, nonce as nat) + rest;
    assert(name =~= d + (seq!['_'] + four_digits(nonce as nat % 10000) + rest));
    assert forall|k: int| 0 <= k < d.len() implies is_ascii_digit(#[trigger] name[k]) by {
        assert(name[k] == d[k]);
    }
    lemma_field_end_after_digits(name, d.len() as int);
    assert(name[d.len() as int] == '_');
    assert(field_end(name, d.len() as int) == d.len());
    assert(first_field(name) =~= d);
    assert(d[0] != '+');
    assert(unsigned_digits(d) == d);
}

/// Date inherited by the contents of an archive directory: its own date, else the date it
/// inherited itself.
pub fn inherited_archive_time(parsed: Option<u64>, inherited: Option<u64>) -> (r: Option<u64>)
    ensures
        r == (if parsed is Some { parsed } else { inherited }),
{
    match parsed {
        Some(t) => Some(t),
        None => inherited,
    }
}

/// Date of an archived file: the date in its name, else the one inherited from its
/// directories, else its modification time, else the epoch.
pub fn archive_entry_time(parsed: Option<u64>, inherited: Option<u64>, modified: Option<u64>) -> (r: u64)
    ensures
        r == (match (parsed, inherited, modified) {
            (Some(t), _, _) => t,
            (None, Some(t), _) => t,
            (None, None, Some(t)) => t,
            (None, None, None) => 0,
        }),
{
    match inherited_archive_time(parsed, inherited) {
        Some(t) => t,
        None => match modified {
            Some(t) => t,
            None => 0,
        },
    }
}

/// Whether a pruning pass still looks into a directory at `depth` when `collected`
/// candidates are gathered already.
pub fn archive_scan_continues(depth: usize, collected: usize) -> (r: bool)
    ensures
        r == (depth <= MAX_ARCHIVE_DEPTH && collected < MAX_ARCHIVE_PRUNE_CANDIDATES),
{
    depth <= MAX_ARCHIVE_DEPTH && collected < MAX_ARCHIVE_PRUNE_CANDIDATES
}

/// One archived file looked at by a pruning pass: its size and its archive date.
#[derive(Clone, Copy, Debug, PartialEq, Eq)]
pub struct ArchiveCandidate {
    pub len: u64,
    pub time_ms: u64,
}

/// Retention age in milliseconds for `days` days, saturated at `u64::MAX`.
pub open spec fn max_age_ms_of(days: u64) -> u64 {
    if days * MILLIS_PER_DAY <= u64::MAX { (days * MILLIS_PER_DAY) as u64 } else { u64::MAX }
}

/// Retention age in milliseconds for `days` days, saturated at `u64::MAX`.
pub fn archive_max_age_ms(days: u64) -> (r: u64)
    ensures
        r == max_age_ms_of(days),
{
    if days <= u64::MAX / MILLIS_PER_DAY {
        assert(days * MILLIS_PER_DAY <= u64::MAX) by (nonlinear_arith)
            requires
                days <= u64::MAX / MILLIS_PER_DAY,
        ;
        days * MILLIS_PER_DAY
    } else {
        assert(days * MILLIS_PER_DAY > u64::MAX) by (nonlinear_arith)
            requires
                days > u64::MAX / MILLIS_PER_DAY,
        ;
        u64::MAX
    }
}

/// An entry is past retention at `now_ms` when it is dated at or before `now_ms` and more
/// than `max_age_ms` older.
pub open spec fn is_expired(c: ArchiveCandidate, now_ms: u64, max_age_ms: u64) -> bool {
    c.time_ms <= now_ms && now_ms - c.time_ms > max_age_ms
}

/// Exec form of [`is_expired`].
pub fn archive_entry_expired(c: ArchiveCandidate, now_ms: u64, max_age_ms: u64) -> (r: bool)
    ensures
        r == is_expired(c, now_ms, max_age_ms),
{
    c.time_ms <= now_ms && now_ms - c.time_ms > max_age_ms
}

/// Total size of the first `n` entries of `c`.
pub open spec fn sum_upto(c: Seq<ArchiveCandidate>, n: int) -> nat
    decreases n,
{
    if n <= 0 || n > c.len() {
        0
    } else {
        sum_upto(c, n - 1) + c[n - 1].len as nat
    }
}

/// Total size of the entries of `c`.
pub open spec fn total_size(c: Seq<ArchiveCandidate>) -> nat {
    sum_upto(c, c.len() as int)
}

/// Total size of those of the first `n` entries of `c` that `removed` marks.
pub open spec fn removed_upto(c: Seq<ArchiveCandidate>, removed: Seq<bool>, n: int) -> nat
    decreases n,
{
    if n <= 0 || n > c.len() {
        0
    } else {
        removed_upto(c, removed, n - 1) + (if removed[n - 1] { c[n - 1].len as nat } else { 0 })
    }
}

/// Total size of the entries of `c` that `removed` marks.
pub open spec fn removed_size(c: Seq<ArchiveCandidate>, removed: Seq<bool>) -> nat {
    removed_upto(c, removed, c.len() as int)
}

proof fn lemma_removed_le(c: Seq<ArchiveCandidate>, removed: Seq<bool>, n: int)
    requires
        0 <= n <= c.len(),
    ensures
        removed_upto(c, removed, n) <= sum_upto(c, n),
    decreases n,
{
    if n > 0 {
        lemma_removed_le(c, removed, n - 1);
    }
}

proof fn lemma_removed_mark(c: Seq<ArchiveCandidate>, removed: Seq<bool>, i: int, n: int)
    requires
        0 <= n <= c.len(),
        0 <= i < c.len(),
        removed.len() == c.len(),
        !removed[i],
    ensures
        removed_upto(c, removed.update(i, true), n) == removed_upto(c, removed, n) + (if i < n { c[i].len as nat } else { 0 }),
    decreases n,
{
    if n > 0 {
        lemma_removed_mark(c, removed, i, n - 1);
    }
}

proof fn lemma_sum_prefix_le(c: Seq<ArchiveCandidate>, m: int, n: int)
    requires
        0 <= m <= n <= c.len(),
    ensures
        sum_upto(c, m) <= sum_upto(c, n),
    decreases n - m,
{
    if m < n {
        lemma_sum_prefix_le(c, m, n - 1);
    }
}

/// Entry `i` of `c` is older than entry `j`: an earlier date, or the same date and an
/// earlier position.
pub open spec fn older_than(c: Seq<ArchiveCandidate>, i: int, j: int) -> bool {
    c[i].time_ms < c[j].time_ms || (c[i].time_ms == c[j].time_ms && i < j)
}

/// `order` lists exactly the entries of `c` that `keep` marks, oldest first.
pub open spec fn is_oldest_first(c: Seq<ArchiveCandidate>, keep: Seq<bool>, order: Seq<usize>) -> bool {
    &&& forall|a: int| 0 <= a < order.len() ==> (#[trigger] order[a]) < c.len() && keep[order[a] as int]
    &&& forall|a: int, b: int| 0 <= a < b < order.len() ==> older_than(c, #[trigger] order[a] as int, #[trigger] order[b] as int)
    &&& forall|k: int| 0 <= k < c.len() && #[trigger] keep[k] ==> order.contains(k as usize)
}

/// The entries of `candidates` that `keep` marks, oldest first (ties in list order).
pub fn oldest_first(candidates: &Vec<ArchiveCandidate>, keep: &Vec<bool>) -> (order: Vec<usize>)
    requires
        keep@.len() == candidates@.len(),
    ensures
        is_oldest_first(candidates@, keep@, order@),
{
    let ghost c = candidates@;
    let mut order: Vec<usize> = Vec::new();
    let mut k: usize = 0;
    while k < candidates.len()
        invariant
            c == candidates@,
            keep@.len() == c.len(),
            k <= c.len(),
            forall|a: int| 0 <= a < order@.len() ==> (#[trigger] order@[a]) < k && keep@[order@[a] as int],
            forall|a: int, b: int| 0 <= a < b < order@.len() ==> older_than(c, #[trigger] order@[a] as int, #[trigger] order@[b] as int),
            forall|j: int| 0 <= j < k && #[trigger] keep@[j] ==> order@.contains(j as usize),
        decreases c.len() - k,
    {
        if keep[k] {
            let t = candidates[k].time_ms;
            let mut p: usize = 0;
            while p < order.len() && candidates[order[p]].time_ms <= t
                invariant
                    c == candidates@,
                    p <= order@.len(),
                    forall|a: int| 0 <= a < order@.len() ==> (#[trigger] order@[a]) < k && k < c.len(),
                    forall|a: int| 0 <= a < p ==> c[(#[trigger] order@[a]) as int].time_ms <= t,
                    t == c[k as int].time_ms,
                decreases order@.len() - p,
            {
                p += 1;
            }
            let ghost old_order = order@;
            order.insert(p, k);
            proof {
                assert(order@ == old_order.insert(p as int, k));
                assert forall|a: int, b: int| 0 <= a < b < order@.len() implies older_than(c, #[trigger] order@[a] as int, #[trigger] order@[b] as int) by {
                    if a < p as int && b < p as int {
                        assert(older_than(c, old_order[a] as int, old_order[b] as int));
                    } else if a < p as int && b == p as int {
                        assert(old_order[a] < k);
                    } else if a < p as int {
                        assert(older_than(c, old_order[a] as int, old_order[b - 1] as int));
                    } else if a == p as int {
                        assert(p < old_order.len());
                        assert(c[old_order[p as int] as int].time_ms > t);
                        if b - 1 > p as int {
                            assert(older_than(c, old_order[p as int] as int, old_order[b - 1] as int));
                        }
                    } else {
                        assert(older_than(c, old_order[a - 1] as int, old_order[b - 1] as int));
                    }
                }
                assert forall|j: int| 0 <= j < k + 1 && #[trigger] keep@[j] implies order@.contains(j as usize) by {
                    if j == k as int {
                        assert(order@[p as int] == k);
                    } else {
                        assert(old_order.contains(j as usize));
                        let a = choose|a: int| 0 <= a < old_order.len() && old_order[a] == j as usize;
                        if a < p as int {
                            assert(order@[a] == j as usize);
                        } else {
                            assert(order@[a + 1] == j as usize);
                        }
                    }
                }
            }
        }
        k += 1;
    }
    order
}

proof fn lemma_removed_none(c: Seq<ArchiveCandidate>, removed: Seq<bool>, n: int)
    requires
        0 <= n <= c.len(),
        removed.len() == c.len(),
        forall|k: int| 0 <= k < removed.len() ==> !removed[k],
    ensures
        removed_upto(c, removed, n) == 0,
    decreases n,
{
    if n > 0 {
        lemma_removed_none(c, removed, n - 1);
    }
}

proof fn lemma_older_listed_earlier(
    c: Seq<ArchiveCandidate>,
    kept: Seq<bool>,
    order: Seq<usize>,
    p: int,
    j: int,
) -> (b: int)
    requires
        is_oldest_first(c, kept, order),
        c.len() <= usize::MAX,
        0 <= p < order.len(),
        0 <= j < c.len(),
        kept[j],
        older_than(c, j, order[p] as int),
    ensures
        0 <= b < p,
        order[b] == j as usize,
{
    assert(order.contains(j as usize));
    let b = choose|b: int| 0 <= b < order.len() && order[b] == j as usize;
    assert(order[b] == j as usize);
    if b >= p {
        if b > p {
            assert(older_than(c, order[p] as int, order[b] as int));
        }
        assert(false);
    }
    b
}

/// A retention pass over the entries of one archive, run as a dialogue: the pass names
/// the next entry to remove and then learns whether removing it worked. It first removes
/// every entry past retention, in list order; then, while the archive is still larger than
/// its size limit, the remaining entries oldest first.
pub struct ArchivePruner {
    candidates: Vec<ArchiveCandidate>,
    now_ms: u64,
    max_age_ms: u64,
    max_bytes: u64,
    total: u64,
    removed: Vec<bool>,
    failed: Vec<bool>,
    by_size: bool,
    order: Vec<usize>,
    pos: usize,
    pending: Option<usize>,
    kept: Ghost<Seq<bool>>,
}

/// What holds of a pass at every step: the running total is the size of the entries not
/// removed, and an entry within retention is removed only after every older entry was
/// removed or could not be.
pub open spec fn prune_sound(
    c: Seq<ArchiveCandidate>,
    now_ms: u64,
    max_age_ms: u64,
    total: u64,
    removed: Seq<bool>,
    failed: Seq<bool>,
) -> bool {
    &&& removed.len() == c.len()
    &&& failed.len() == c.len()
    &&& total_size(c) == total + removed_size(c, removed)
    &&& forall|k: int, j: int|
        0 <= k < c.len() && 0 <= j < c.len() && removed[k] && !is_expired(c[k], now_ms, max_age_ms)
            && #[trigger] older_than(c, j, k) ==> removed[j] || failed[j]
}

/// What holds when a pass is over: every entry past retention was removed or could not
/// be, and the archive fits its size limit unless every remaining entry resisted removal.
pub open spec fn prune_finished(
    c: Seq<ArchiveCandidate>,
    now_ms: u64,
    max_age_ms: u64,
    max_bytes: u64,
    total: u64,
    removed: Seq<bool>,
    failed: Seq<bool>,
) -> bool {
    &&& forall|k: int| 0 <= k < c.len() && is_expired(#[trigger] c[k], now_ms, max_age_ms) ==> removed[k] || failed[k]
    &&& total <= max_bytes || forall|k: int| 0 <= k < c.len() && !(#[trigger] removed[k]) ==> failed[k]
}

impl ArchivePruner {
    /// The entries the pass works on.
    pub closed spec fn spec_candidates(&self) -> Seq<ArchiveCandidate> {
        self.candidates@
    }

    /// The current time of the pass, in milliseconds since the epoch.
    pub closed spec fn spec_now(&self) -> u64 {
        self.now_ms
    }

    /// The retention age, in milliseconds.
    pub closed spec fn spec_max_age(&self) -> u64 {
        self.max_age_ms
    }

    /// The size limit, in bytes.
    pub closed spec fn spec_max_bytes(&self) -> u64 {
        self.max_bytes
    }

    /// Size of the entries not removed so far.
    pub closed spec fn spec_total(&self) -> u64 {
        self.total
    }

    /// Which entries were removed.
    pub closed spec fn spec_removed(&self) -> Seq<bool> {
        self.removed@
    }

    /// Which entries resisted a removal.
    pub closed spec fn spec_failed(&self) -> Seq<bool> {
        self.failed@
    }

    /// The entry whose removal outcome the pass waits for.
    pub closed spec fn spec_pending(&self) -> Option<usize> {
        self.pending
    }

    /// Internal consistency of the pass.
    pub closed spec fn wf(&self) -> bool {
        let c = self.candidates@;
        let n = c.len();
        let removed = self.removed@;
        let failed = self.failed@;
        let kept = self.kept@;
        let order = self.order@;
        let settled: int = if self.pending is Some { self.pos - 1 } else { self.pos as int };
        &&& prune_sound(c, self.now_ms, self.max_age_ms, self.total, removed, failed)
        &&& n <= usize::MAX
        &&& !self.by_size ==> {
            &&& self.pos <= n
            &&& order.len() == 0
            &&& (self.pending matches Some(i) ==> i + 1 == self.pos && is_expired(c[i as int], self.now_ms, self.max_age_ms)
                && !removed[i as int] && !failed[i as int])
            &&& forall|k: int| 0 <= k < settled ==> (is_expired(#[trigger] c[k], self.now_ms, self.max_age_ms)
                <==> removed[k] || failed[k])
            &&& forall|k: int| self.pos <= k < n ==> !(#[trigger] removed[k]) && !failed[k]
            &&& forall|k: int| 0 <= k < n && #[trigger] removed[k] ==> is_expired(c[k], self.now_ms, self.max_age_ms)
        }
        &&& self.by_size ==> {
            &&& kept.len() == n
            &&& (is_oldest_first(c, kept, order) || (order.len() == 0 && self.total <= self.max_bytes))
            &&& forall|k: int| 0 <= k < n && !(#[trigger] kept[k]) ==> removed[k]
            &&& forall|k: int| 0 <= k < n && is_expired(#[trigger] c[k], self.now_ms, self.max_age_ms) ==> removed[k] || failed[k]
            &&& self.pos <= order.len()
            &&& forall|a: int| self.pos <= a < order.len() ==> !removed[(#[trigger] order[a]) as int]
            &&& (self.pending matches Some(i) ==> self.pos >= 1 && order[self.pos - 1] == i && !removed[i as int])
            &&& forall|a: int| 0 <= a < settled ==> removed[(#[trigger] order[a]) as int] || failed[order[a] as int]
        }
    }

    /// A pass over `candidates` at `now_ms`, keeping entries for `max_age_days` days and the
    /// archive within `max_bytes` bytes.
    pub fn new(candidates: Vec<ArchiveCandidate>, now_ms: u64, max_age_days: u64, max_bytes: u64) -> (p: Self)
        requires
            total_size(candidates@) <= u64::MAX,
        ensures
            p.wf(),
            p.spec_candidates() == candidates@,
            p.spec_now() == now_ms,
            p.spec_max_age() == max_age_ms_of(max_age_days),
            p.spec_max_bytes() == max_bytes,
            p.spec_total() == total_size(candidates@),
            p.spec_pending() is None,
            p.spec_removed() == Seq::new(candidates@.len(), |k: int| false),
            p.spec_failed() == Seq::new(candidates@.len(), |k: int| false),
    {
        let ghost c = candidates@;
        let count = candidates.len();
        let mut total: u64 = 0;
        let mut removed: Vec<bool> = Vec::new();
        let mut failed: Vec<bool> = Vec::new();
        let mut i: usize = 0;
        while i < candidates.len()
            invariant
                c == candidates@,
                total_size(c) <= u64::MAX,
                i <= c.len(),
                total as nat == sum_upto(c, i as int),
                removed@.len() == i,
                failed@.len() == i,
                forall|k: int| 0 <= k < i ==> !(#[trigger] removed@[k]) && !failed@[k],
            decreases c.len() - i,
        {
            proof {
                lemma_sum_prefix_le(c, i + 1, c.len() as int);
            }
            total = total + candidates[i].len;
            removed.push(false);
            failed.push(false);
            i += 1;
        }
        proof {
            lemma_removed_none(c, removed@, c.len() as int);
        }
        let max_age_ms = archive_max_age_ms(max_age_days);
        let p = ArchivePruner {
            candidates,
            now_ms,
            max_age_ms,
            max_bytes,
            total,
            removed,
            failed,
            by_size: false,
            order: Vec::new(),
            pos: 0,
            pending: None,
            kept: Ghost(Seq::empty()),
        };
        assert(p.removed@ =~= Seq::new(c.len(), |k: int| false));
        assert(p.failed@ =~= Seq::new(c.len(), |k: int| false));
        p
    }

    /// Size of the entries not removed so far.
    pub fn total_bytes(&self) -> (r: u64)
        ensures
            r == self.spec_total(),
    {
        self.total
    }

    /// Whether entry `index` was removed.
    pub fn is_removed(&self, index: usize) -> (r: bool)
        requires
            self.wf(),
            index < self.spec_candidates().len(),
        ensures
            r == self.spec_removed()[index as int],
    {
        self.removed[index]
    }

    /// Takes in whether removing the entry named last worked (ignored when none is
    /// pending) and names the next entry to remove, or `None` when the pass is over.
    pub fn next_removal(&mut self, last_removed: bool) -> (r: Option<usize>)
        requires
            old(self).wf(),
        ensures
            final(self).wf(),
            final(self).spec_candidates() == old(self).spec_candidates(),
            final(self).spec_now() == old(self).spec_now(),
            final(self).spec_max_age() == old(self).spec_max_age(),
            final(self).spec_max_bytes() == old(self).spec_max_bytes(),
            prune_sound(final(self).spec_candidates(), final(self).spec_now(), final(self).spec_max_age(),
                final(self).spec_total(), final(self).spec_removed(), final(self).spec_failed()),
            final(self).spec_pending() == r,
            r matches Some(i) ==> i < final(self).spec_candidates().len() && !final(self).spec_removed()[i as int],
            r matches Some(i) ==> is_expired(final(self).spec_candidates()[i as int], final(self).spec_now(), final(self).spec_max_age())
                || final(self).spec_total() > final(self).spec_max_bytes(),
            r is None ==> prune_finished(final(self).spec_candidates(), final(self).spec_now(), final(self).spec_max_age(),
                final(self).spec_max_bytes(), final(self).spec_total(), final(self).spec_removed(), final(self).spec_failed()),
            final(self).spec_removed() == (match old(self).spec_pending() {
                Some(i) => if last_removed { old(self).spec_removed().update(i as int, true) } else { old(self).spec_removed() },
                None => old(self).spec_removed(),
            }),
            final(self).spec_failed() == (match old(self).spec_pending() {
                Some(i) => if last_removed { old(self).spec_failed() } else { old(self).spec_failed().update(i as int, true) },
                None => old(self).spec_failed(),
            }),
            final(self).spec_total() == (match old(self).spec_pending() {
                Some(i) => if last_removed {
                    (old(self).spec_total() - old(self).spec_candidates()[i as int].len) as u64
                } else {
                    old(self).spec_total()
                },
                None => old(self).spec_total(),
            }),
    {
        self.record_outcome(last_removed);
        if !self.by_size {
            match self.next_expired() {
                Some(p) => {
                    return Some(p);
                },
                None => {},
            }
            self.start_size_phase();
        }
        if self.pos < self.order.len() && self.total > self.max_bytes {
            let i = self.order[self.pos];
            proof {
                let c = self.candidates@;
                assert forall|k: int, j: int|
                    0 <= k < c.len() && 0 <= j < c.len() && self.removed@[k] && !is_expired(c[k], self.now_ms, self.max_age_ms)
                        && #[trigger] older_than(c, j, k) implies self.removed@[j] || self.failed@[j] by {
                }
            }
            self.pending = Some(i);
            self.pos = self.pos + 1;
            return Some(i);
        }
        proof {
            let c = self.candidates@;
            let order = self.order@;
            if !(self.total <= self.max_bytes) {
                assert forall|k: int| 0 <= k < c.len() && !(#[trigger] self.removed@[k]) implies self.failed@[k] by {
                    if is_oldest_first(c, self.kept@, order) {
                        assert(self.kept@[k]);
                        assert(order.contains(k as usize));
                        let a = choose|a: int| 0 <= a < order.len() && order[a] == k as usize;
                        assert(order[a] == k as usize);
                    }
                }
            }
        }
        None
    }

    /// Age phase: names the next entry past retention, if any is left.
    fn next_expired(&mut self) -> (r: Option<usize>)
        requires
            old(self).wf(),
            !old(self).by_size,
            old(self).pending is None,
        ensures
            final(self).wf(),
            !final(self).by_size,
            final(self).pending == r,
            final(self).candidates@ == old(self).candidates@,
            final(self).now_ms == old(self).now_ms,
            final(self).max_age_ms == old(self).max_age_ms,
            final(self).max_bytes == old(self).max_bytes,
            final(self).total == old(self).total,
            final(self).removed@ == old(self).removed@,
            final(self).failed@ == old(self).failed@,
            final(self).kept@ == old(self).kept@,
            r matches Some(i) ==> i < final(self).candidates@.len() && !final(self).removed@[i as int]
                && is_expired(final(self).candidates@[i as int], final(self).now_ms, final(self).max_age_ms),
            r is None ==> final(self).pos == final(self).candidates@.len(),
    {
        let n = self.candidates.len();
        let mut p = self.pos;
        while p < n && !archive_entry_expired(self.candidates[p], self.now_ms, self.max_age_ms)
            invariant
                self.wf(),
                !self.by_size,
                self.pending is None,
                n == self.candidates@.len(),
                self.pos <= p <= n,
                forall|k: int| self.pos <= k < p ==> !is_expired(#[trigger] self.candidates@[k], self.now_ms, self.max_age_ms),
            decreases n - p,
        {
            p += 1;
        }
        let ghost pos0 = self.pos;
        if p < n {
            self.pending = Some(p);
            self.pos = p + 1;
            proof {
                let c = self.candidates@;
                assert forall|k: int| 0 <= k < p implies (is_expired(
                    #[trigger] c[k], self.now_ms, self.max_age_ms) <==> self.removed@[k] || self.failed@[k]) by {
                    if k >= pos0 {
                        assert(k < p);
                    }
                }
            }
            Some(p)
        } else {
            self.pos = p;
            None
        }
    }

    /// Applies the outcome of the pending removal, if any.
    fn record_outcome(&mut self, last_removed: bool)
        requires
            old(self).wf(),
        ensures
            final(self).wf(),
            final(self).pending is None,
            final(self).candidates@ == old(self).candidates@,
            final(self).now_ms == old(self).now_ms,
            final(self).max_age_ms == old(self).max_age_ms,
            final(self).max_bytes == old(self).max_bytes,
            final(self).by_size == old(self).by_size,
            final(self).pos == old(self).pos,
            final(self).order@ == old(self).order@,
            final(self).kept@ == old(self).kept@,
            final(self).removed@ == (match old(self).pending {
                Some(i) => if last_removed { old(self).removed@.update(i as int, true) } else { old(self).removed@ },
                None => old(self).removed@,
            }),
            final(self).failed@ == (match old(self).pending {
                Some(i) => if last_removed { old(self).failed@ } else { old(self).failed@.update(i as int, true) },
                None => old(self).failed@,
            }),
            final(self).total == (match old(self).pending {
                Some(i) => if last_removed { (old(self).total - old(self).candidates@[i as int].len) as u64 } else { old(self).total },
                None => old(self).total,
            }),
    {
        match self.pending {
            None => {},
            Some(i) => {
                let ghost c = self.candidates@;
                let ghost old_removed = self.removed@;
                let ghost old_failed = self.failed@;
                if last_removed {
                    proof {
                        lemma_removed_mark(c, old_removed, i as int, c.len() as int);
                        lemma_removed_le(c, old_removed.update(i as int, true), c.len() as int);
                    }
                    self.total = self.total - self.candidates[i].len;
                    self.removed.set(i, true);
                    proof {
                        if self.by_size && !is_expired(c[i as int], self.now_ms, self.max_age_ms) {
                            // an entry within retention leaves only after every older one
                            let order = self.order@;
                            assert(is_oldest_first(c, self.kept@, order));
                            assert forall|j: int| 0 <= j < c.len() && older_than(c, j, i as int) implies
                                old_removed[j] || old_failed[j] by {
                                if self.kept@[j] {
                                    let b = lemma_older_listed_earlier(c, self.kept@, order, self.pos - 1, j);
                                }
                            }
                        }
                        assert forall|k: int, j: int|
                            0 <= k < c.len() && 0 <= j < c.len() && self.removed@[k] && !is_expired(c[k], self.now_ms, self.max_age_ms)
                                && #[trigger] older_than(c, j, k) implies self.removed@[j] || self.failed@[j] by {
                            if k != i as int {
                                assert(old_removed[k]);
                                assert(old_removed[j] || old_failed[j]);
                            } else if self.by_size {
                                assert(old_removed[j] || old_failed[j]);
                            }
                        }
                    }
                } else {
                    self.failed.set(i, true);
                }
                self.pending = None;
            },
        }
    }

    /// Ends the age phase: the size phase works through the entries left, oldest first,
    /// if the archive is still too large.
    fn start_size_phase(&mut self)
        requires
            old(self).wf(),
            !old(self).by_size,
            old(self).pending is None,
            old(self).pos == old(self).candidates@.len(),
        ensures
            final(self).wf(),
            final(self).by_size,
            final(self).pending is None,
            final(self).pos == 0,
            final(self).candidates@ == old(self).candidates@,
            final(self).now_ms == old(self).now_ms,
            final(self).max_age_ms == old(self).max_age_ms,
            final(self).max_bytes == old(self).max_bytes,
            final(self).total == old(self).total,
            final(self).removed@ == old(self).removed@,
            final(self).failed@ == old(self).failed@,
    {
        let n = self.candidates.len();
        let mut keep: Vec<bool> = Vec::new();
        let mut k: usize = 0;
        while k < n
            invariant
                n == self.candidates@.len(),
                self.removed@.len() == n,
                k <= n,
                keep@.len() == k,
                forall|j: int| 0 <= j < k ==> (#[trigger] keep@[j]) == !self.removed@[j],
            decreases n - k,
        {
            keep.push(!self.removed[k]);
            k += 1;
        }
        self.kept = Ghost(keep@);
        if self.total > self.max_bytes {
            self.order = oldest_first(&self.candidates, &keep);
        } else {
            self.order = Vec::new();
        }
        self.by_size = true;
        self.pos = 0;
        proof {
            let c = self.candidates@;
            let order = self.order@;
            if self.total > self.max_bytes {
                assert forall|a: int| 0 <= a < order.len() implies !self.removed@[(#[trigger] order[a]) as int] by {
                    assert(self.kept@[order[a] as int]);
                }
            }
        }
    }
}

} // verus!
