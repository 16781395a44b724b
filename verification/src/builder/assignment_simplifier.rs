//! Turns a parallel assignment of locals into plain assignments, in an order
//! that never overwrites a local before it is read, and into the cycles of
//! locals that are left, which take a swap each.

use vstd::prelude::*;

use crate::tree::expression::Local;

verus! {

/// The position of `local` in the order of locals: fast locals by name
/// first, then slow locals by offset.
pub open spec fn local_rank(local: Local) -> int {
    match local {
        Local::Fast { name } => name.id as int,
        Local::Slow { offset } => 0x1_0000_0000 + offset,
    }
}

/// The rank of `local` in the order of locals.
fn rank_of(local: Local) -> (rank: u64)
    ensures
        rank == local_rank(local),
{
    match local {
        Local::Fast { name } => name.id as u64,
        Local::Slow { offset } => 0x1_0000_0000u64 + offset as u64,
    }
}

/// Whether assignment `a` comes no later than `b`: by destination, then by
/// source.
pub open spec fn assignment_le(a: (Local, Local), b: (Local, Local)) -> bool {
    local_rank(a.0) < local_rank(b.0) || (local_rank(a.0) == local_rank(b.0) && local_rank(a.1) <= local_rank(b.1))
}

/// Whether `s` is sorted by destination, then by source.
pub open spec fn assignments_sorted(s: Seq<(Local, Local)>) -> bool {
    forall|i: int, j: int| 0 <= i < j < s.len() ==> assignment_le(#[trigger] s[i], #[trigger] s[j])
}

/// Whether no assignment of `s` reads the destination of assignment `i`.
pub open spec fn unread(s: Seq<(Local, Local)>, i: int) -> bool {
    forall|k: int| 0 <= k < s.len() ==> #[trigger] s[k].1 != s[i].0
}

/// The first assignment of `s` from position `i` on whose destination no
/// assignment reads.
pub open spec fn first_unread_from(s: Seq<(Local, Local)>, i: int) -> Option<int>
    decreases s.len() - i,
{
    if i < 0 || i >= s.len() {
        None
    } else if unread(s, i) {
        Some(i)
    } else {
        first_unread_from(s, i + 1)
    }
}

/// The first unread assignment found lies in `s`, and every one before it
/// is read.
pub proof fn lemma_first_unread(s: Seq<(Local, Local)>, i: int)
    requires
        0 <= i,
    ensures
        first_unread_from(s, i) matches Some(found) ==> i <= found < s.len() && unread(s, found),
        first_unread_from(s, i) is None ==> forall|k: int| i <= k < s.len() ==> !unread(s, k),
        forall|k: int| i <= k < s.len() && first_unread_from(s, i) is Some && k < first_unread_from(s, i)->0 ==> !unread(s, k),
    decreases s.len() - i,
{
    if i < s.len() && !unread(s, i) {
        lemma_first_unread(s, i + 1);
    }
}

/// The plain assignments taken out of `s`, in order, and the assignments
/// left: while some assignment's destination is read by none, the first
/// such is taken.
pub open spec fn assign_order(s: Seq<(Local, Local)>) -> (Seq<(Local, Local)>, Seq<(Local, Local)>)
    decreases s.len(),
{
    match first_unread_from(s, 0) {
        Some(i) => {
            proof {
                lemma_first_unread(s, 0);
            }
            let rest = assign_order(s.remove(i));
            (seq![s[i]] + rest.0, rest.1)
        },
        None => (Seq::empty(), s),
    }
}

/// The assignments taken out and left by `assign_order` all come from `s`.
proof fn lemma_assign_order_from(s: Seq<(Local, Local)>)
    ensures
        forall|x: (Local, Local)|
            (assign_order(s).0 + assign_order(s).1).contains(x) ==> s.contains(x),
    decreases s.len(),
{
    lemma_first_unread(s, 0);
    if let Some(i) = first_unread_from(s, 0) {
        let rest = assign_order(s.remove(i));
        lemma_assign_order_from(s.remove(i));
        let all = assign_order(s).0 + assign_order(s).1;
        assert(all =~= seq![s[i]] + (rest.0 + rest.1));
        assert forall|x: (Local, Local)| all.contains(x) implies s.contains(x) by {
            let m = choose|m: int| 0 <= m < all.len() && all[m] == x;
            if m > 0 {
                assert((rest.0 + rest.1)[m - 1] == x);
                assert(s.remove(i).contains(x));
                let j = choose|j: int| 0 <= j < s.remove(i).len() && s.remove(i)[j] == x;
                if j < i {
                    assert(s[j] == x);
                } else {
                    assert(s[j + 1] == x);
                }
            } else {
                assert(s[i] == x);
            }
        }
    }
}

/// Ordering keeps every assignment: those taken out and those left are
/// those given.
pub proof fn lemma_assigns_keep_assignments(s: Seq<(Local, Local)>)
    ensures
        (assign_order(s).0 + assign_order(s).1).to_multiset() == s.to_multiset(),
    decreases s.len(),
{
    broadcast use vstd::multiset::group_multiset_axioms;

    lemma_first_unread(s, 0);
    if let Some(i) = first_unread_from(s, 0) {
        let rest = assign_order(s.remove(i));
        lemma_assigns_keep_assignments(s.remove(i));
        let all = assign_order(s).0 + assign_order(s).1;
        assert(all =~= seq![s[i]] + (rest.0 + rest.1));
        let later = rest.0 + rest.1;
        vstd::seq_lib::lemma_multiset_commutative(seq![s[i]], later);
        vstd::seq_lib::lemma_multiset_commutative(later, seq![s[i]]);
        assert(later + seq![s[i]] =~= later.push(s[i]));
        vstd::seq_lib::to_multiset_build(later, s[i]);
        vstd::seq_lib::to_multiset_remove(s, i);
        vstd::seq_lib::to_multiset_contains(s, s[i]);
        assert(s.contains(s[i]));
        assert(all.to_multiset() =~= later.push(s[i]).to_multiset());
        assert(all.to_multiset() =~= s.to_multiset());
    } else {
        assert(assign_order(s).0 + assign_order(s).1 =~= s);
    }
}

/// An assignment taken out writes no local that a later assignment, taken
/// out or left, reads: emitting them in order loses no value.
pub proof fn lemma_assigns_never_clobber(s: Seq<(Local, Local)>)
    ensures
        forall|k: int, m: int|
            0 <= k < assign_order(s).0.len() && k < m < (assign_order(s).0 + assign_order(s).1).len() ==> (
            #[trigger] (assign_order(s).0 + assign_order(s).1)[m]).1 != (#[trigger] (assign_order(s).0
                + assign_order(s).1)[k]).0,
    decreases s.len(),
{
    lemma_first_unread(s, 0);
    if let Some(i) = first_unread_from(s, 0) {
        let rest = assign_order(s.remove(i));
        lemma_assigns_never_clobber(s.remove(i));
        lemma_assign_order_from(s.remove(i));
        let later = rest.0 + rest.1;
        let all = assign_order(s).0 + assign_order(s).1;
        assert(all =~= seq![s[i]] + later);
        assert forall|k: int, m: int| 0 <= k < assign_order(s).0.len() && k < m < all.len() implies (#[trigger] all[m]).1
            != (#[trigger] all[k]).0 by {
            assert(all[m] == later[m - 1]);
            if k == 0 {
                assert(all[k] == s[i]);
                assert(later.contains(later[m - 1]));
                assert(s.remove(i).contains(later[m - 1]));
                let j = choose|j: int| 0 <= j < s.remove(i).len() && s.remove(i)[j] == later[m - 1];
                if j < i {
                    assert(s[j] == later[m - 1]);
                } else {
                    assert(s[j + 1] == later[m - 1]);
                }
            } else {
                assert(all[k] == later[k - 1]);
            }
        }
    }
}

/// Whether every assignment of `t` writes a local that an assignment of `t`
/// reads.
pub open spec fn all_read(t: Seq<(Local, Local)>) -> bool {
    forall|i: int| 0 <= i < t.len() ==> exists|k: int| 0 <= k < t.len() && #[trigger] t[k].1 == (#[trigger] t[i]).0
}

/// Every assignment left writes a local that another assignment left
/// reads.
pub proof fn lemma_assigns_leave_only_read(s: Seq<(Local, Local)>)
    ensures
        all_read(assign_order(s).1),
    decreases s.len(),
{
    lemma_first_unread(s, 0);
    if let Some(i) = first_unread_from(s, 0) {
        lemma_assigns_leave_only_read(s.remove(i));
        assert(assign_order(s).1 == assign_order(s.remove(i)).1);
    } else {
        assert(assign_order(s).1 == s);
        assert forall|i: int| 0 <= i < s.len() implies exists|k: int| 0 <= k < s.len() && #[trigger] s[k].1 == (#[trigger] s[i]).0 by {
            assert(!unread(s, i));
        }
    }
}

/// Whether an assignment of `s` writes `local`.
#[verifier::opaque]
pub open spec fn written(s: Seq<(Local, Local)>, local: Local) -> bool {
    exists|b: (Local, Local)| s.contains(b) && b.0 == local
}

/// Whether no two assignments of `s` write the same local.
#[verifier::opaque]
pub open spec fn writes_distinct(s: Seq<(Local, Local)>) -> bool {
    forall|a: (Local, Local), b: (Local, Local)| s.contains(a) && s.contains(b) && a.0 == b.0 ==> a == b
}

/// Whether no two assignments of `s` read the same local.
#[verifier::opaque]
pub open spec fn reads_distinct(s: Seq<(Local, Local)>) -> bool {
    forall|a: (Local, Local), b: (Local, Local)| s.contains(a) && s.contains(b) && a.1 == b.1 ==> a == b
}

/// Whether every local that an assignment of `s` reads, another writes.
#[verifier::opaque]
pub open spec fn reads_written(s: Seq<(Local, Local)>) -> bool {
    forall|a: (Local, Local)| s.contains(a) ==> exists|b: (Local, Local)| s.contains(b) && b.0 == a.1
}

/// Whether `s` moves locals around a permutation: no assignment twice, no
/// local written or read by two assignments, and every local read also
/// written.
pub open spec fn is_permutation(s: Seq<(Local, Local)>) -> bool {
    &&& s.no_duplicates()
    &&& writes_distinct(s)
    &&& reads_distinct(s)
    &&& reads_written(s)
}

/// Two assignments of `s` writing the same local are the same.
proof fn lemma_same_write(s: Seq<(Local, Local)>, a: (Local, Local), b: (Local, Local))
    requires
        writes_distinct(s),
        s.contains(a),
        s.contains(b),
        a.0 == b.0,
    ensures
        a == b,
{
    reveal(writes_distinct);
}

/// Two assignments of `s` reading the same local are the same.
proof fn lemma_same_read(s: Seq<(Local, Local)>, a: (Local, Local), b: (Local, Local))
    requires
        reads_distinct(s),
        s.contains(a),
        s.contains(b),
        a.1 == b.1,
    ensures
        a == b,
{
    reveal(reads_distinct);
}

/// Every local read being written is `reads_written`.
proof fn lemma_reads_written_intro(s: Seq<(Local, Local)>)
    requires
        forall|a: (Local, Local)| s.contains(a) ==> exists|b: (Local, Local)| s.contains(b) && b.0 == a.1,
    ensures
        reads_written(s),
{
    reveal(reads_written);
}

/// The local that an assignment of `s` reads is written by an assignment
/// of `s`.
proof fn lemma_read_written(s: Seq<(Local, Local)>, a: (Local, Local)) -> (b: (Local, Local))
    requires
        reads_written(s),
        s.contains(a),
    ensures
        s.contains(b),
        b.0 == a.1,
{
    reveal(reads_written);
    choose|b: (Local, Local)| s.contains(b) && b.0 == a.1
}

/// Whether `s` assigns the local after position `i` of `path` to the local
/// at `i`.
pub open spec fn linked_at(s: Seq<(Local, Local)>, path: Seq<Local>, i: int) -> bool {
    s.contains((path[i], path[i + 1]))
}

/// Whether `path` is the walk through `s` from assignment `start`: its
/// destination first, then each local that the last one is assigned from,
/// up to the first local that comes round again.
pub open spec fn is_walk(s: Seq<(Local, Local)>, start: (Local, Local), path: Seq<Local>) -> bool {
    &&& path.len() > 0
    &&& path[0] == start.0
    &&& path.no_duplicates()
    &&& forall|i: int| 0 <= i < path.len() - 1 ==> #[trigger] linked_at(s, path, i)
    &&& exists|a: (Local, Local)| #[trigger] s.contains(a) && a.0 == path.last() && path.contains(a.1)
}

/// The assignments of `s` whose destination is not on `path`, in order.
pub open spec fn kept(s: Seq<(Local, Local)>, path: Seq<Local>) -> Seq<(Local, Local)>
    decreases s.len(),
{
    if s.len() == 0 {
        Seq::empty()
    } else if path.contains(s.last().0) {
        kept(s.drop_last(), path)
    } else {
        kept(s.drop_last(), path).push(s.last())
    }
}

/// The assignments of `s` left once the walks of `cycles` are taken out in
/// turn.
pub open spec fn walked(s: Seq<(Local, Local)>, cycles: Seq<Seq<Local>>) -> Seq<(Local, Local)>
    decreases cycles.len(),
{
    if cycles.len() == 0 {
        s
    } else {
        kept(walked(s, cycles.drop_last()), cycles.last())
    }
}

/// Whether each of `cycles` is the walk from the first assignment left of
/// `s` once the cycles before it are taken out.
pub open spec fn walks_of(s: Seq<(Local, Local)>, cycles: Seq<Seq<Local>>) -> bool
    decreases cycles.len(),
{
    if cycles.len() == 0 {
        true
    } else {
        let left = walked(s, cycles.drop_last());
        &&& walks_of(s, cycles.drop_last())
        &&& left.len() > 0
        &&& is_walk(left, left[0], cycles.last())
    }
}

/// What `kept` keeps comes from `s`, once each, and is all of `s` that is
/// off `path`.
proof fn lemma_kept(s: Seq<(Local, Local)>, path: Seq<Local>)
    requires
        s.no_duplicates(),
    ensures
        kept(s, path).no_duplicates(),
        forall|a: (Local, Local)| #[trigger] kept(s, path).contains(a) <==> s.contains(a) && !path.contains(a.0),
        kept(s, path).len() <= s.len(),
    decreases s.len(),
{
    if s.len() > 0 {
        let rest = s.drop_last();
        assert(rest.no_duplicates()) by {
            assert forall|i: int, j: int| 0 <= i < rest.len() && 0 <= j < rest.len() && i != j implies rest[i] != rest[j] by {
                assert(rest[i] == s[i] && rest[j] == s[j]);
            }
        }
        lemma_kept(rest, path);
        assert forall|a: (Local, Local)| s.contains(a) <==> rest.contains(a) || a == s.last() by {
            if s.contains(a) {
                let i = choose|i: int| 0 <= i < s.len() && s[i] == a;
                if i < s.len() - 1 {
                    assert(rest[i] == a);
                }
            }
            if rest.contains(a) {
                let i = choose|i: int| 0 <= i < rest.len() && rest[i] == a;
                assert(s[i] == a);
            }
        }
        if path.contains(s.last().0) {
            assert forall|a: (Local, Local)| kept(s, path).contains(a) <==> s.contains(a) && !path.contains(a.0) by {
                assert(kept(s, path) == kept(rest, path));
                assert(kept(rest, path).contains(a) <==> rest.contains(a) && !path.contains(a.0));
            }
        } else {
            assert(!rest.contains(s.last())) by {
                if rest.contains(s.last()) {
                    let i = choose|i: int| 0 <= i < rest.len() && rest[i] == s.last();
                    assert(s[i] == s[s.len() - 1]);
                }
            }
            let k = kept(rest, path);
            assert forall|a: (Local, Local)| k.push(s.last()).contains(a) <==> k.contains(a) || a == s.last() by {
                if k.push(s.last()).contains(a) {
                    let i = choose|i: int| 0 <= i < k.push(s.last()).len() && k.push(s.last())[i] == a;
                    if i < k.len() {
                        assert(k[i] == a);
                    }
                }
                if k.contains(a) {
                    let i = choose|i: int| 0 <= i < k.len() && k[i] == a;
                    assert(k.push(s.last())[i] == a);
                }
                if a == s.last() {
                    assert(k.push(s.last())[k.len() as int] == a);
                }
            }
            assert(kept(s, path) == k.push(s.last()));
            assert forall|a: (Local, Local)| kept(s, path).contains(a) <==> s.contains(a) && !path.contains(a.0) by {
                assert(k.contains(a) <==> rest.contains(a) && !path.contains(a.0));
            }
            assert(k.push(s.last()).no_duplicates()) by {
                assert forall|i: int, j: int|
                    0 <= i < k.len() + 1 && 0 <= j < k.len() + 1 && i != j implies k.push(s.last())[i] != k.push(
                    s.last(),
                )[j] by {
                    if i < k.len() && j < k.len() {
                        assert(k.push(s.last())[i] == k[i] && k.push(s.last())[j] == k[j]);
                    } else if i < k.len() {
                        assert(k.contains(k[i]));
                    } else {
                        assert(k.contains(k[j]));
                    }
                }
            }
        }
    }
}

/// Whether an assignment of `s` writing a local on `path` reads `local`.
#[verifier::opaque]
spec fn read_on(s: Seq<(Local, Local)>, path: Seq<Local>, local: Local) -> bool {
    exists|c: (Local, Local)| s.contains(c) && c.1 == local && path.contains(c.0)
}

/// The walk closes at its start: the local its last local is assigned
/// from is its first.
proof fn lemma_walk_start(s: Seq<(Local, Local)>, start: (Local, Local), path: Seq<Local>)
    requires
        reads_distinct(s),
        is_walk(s, start, path),
    ensures
        read_on(s, path, path[0]),
{
    let last = choose|a: (Local, Local)| #[trigger] s.contains(a) && a.0 == path.last() && path.contains(a.1);
    let j = choose|j: int| 0 <= j < path.len() && path[j] == last.1;
    if j > 0 {
        assert(linked_at(s, path, j - 1));
        lemma_same_read(s, (path[j - 1], path[j]), last);
        assert(path[j - 1] == path[path.len() - 1]);
    }
    assert(path.contains(last.0)) by {
        assert(path[path.len() - 1] == last.0);
    }
    reveal(read_on);
}

/// In a permutation, the walk from an assignment comes back to where it
/// started: every local on it is read by an assignment writing a local on
/// it.
proof fn lemma_walk_closes(s: Seq<(Local, Local)>, start: (Local, Local), path: Seq<Local>)
    requires
        reads_distinct(s),
        is_walk(s, start, path),
    ensures
        forall|i: int| 0 <= i < path.len() ==> read_on(s, path, #[trigger] path[i]),
{
    lemma_walk_start(s, start, path);
    assert forall|i: int| 0 <= i < path.len() implies read_on(s, path, #[trigger] path[i]) by {
        if i > 0 {
            reveal(read_on);
            assert(linked_at(s, path, i - 1));
            assert(path.contains(path[i - 1]));
        }
    }
}

/// The assignment of `s` writing a local on `path` that reads `local`.
proof fn lemma_reader_on(s: Seq<(Local, Local)>, path: Seq<Local>, local: Local) -> (c: (Local, Local))
    requires
        read_on(s, path, local),
    ensures
        s.contains(c),
        c.1 == local,
        path.contains(c.0),
{
    reveal(read_on);
    choose|c: (Local, Local)| s.contains(c) && c.1 == local && path.contains(c.0)
}

/// Taking a walk out of a permutation leaves every local read written.
proof fn lemma_kept_written(s: Seq<(Local, Local)>, path: Seq<Local>)
    requires
        is_permutation(s),
        s.len() > 0,
        is_walk(s, s[0], path),
    ensures
        reads_written(kept(s, path)),
{
    let k = kept(s, path);
    lemma_kept(s, path);
    lemma_walk_closes(s, s[0], path);
    assert forall|a: (Local, Local)| k.contains(a) implies exists|b: (Local, Local)| k.contains(b) && b.0 == a.1 by {
        let b = lemma_read_written(s, a);
        if path.contains(b.0) {
            let i = choose|i: int| 0 <= i < path.len() && path[i] == b.0;
            let c = lemma_reader_on(s, path, path[i]);
            lemma_same_read(s, a, c);
        }
        assert(k.contains(b));
    }
    lemma_reads_written_intro(k);
}

/// Taking a walk out of a permutation leaves a shorter permutation.
proof fn lemma_kept_permutation(s: Seq<(Local, Local)>, path: Seq<Local>)
    requires
        is_permutation(s),
        s.len() > 0,
        is_walk(s, s[0], path),
    ensures
        is_permutation(kept(s, path)),
        kept(s, path).len() < s.len(),
{
    let k = kept(s, path);
    lemma_kept(s, path);
    lemma_kept_written(s, path);
    assert(!k.contains(s[0])) by {
        assert(path.contains(path[0]));
        assert(s.contains(s[0]));
    }
    assert(writes_distinct(k)) by {
        reveal(writes_distinct);
        assert forall|a: (Local, Local), b: (Local, Local)| k.contains(a) && k.contains(b) && a.0 == b.0 implies a == b by {
            lemma_same_write(s, a, b);
        }
    }
    assert(reads_distinct(k)) by {
        reveal(reads_distinct);
        assert forall|a: (Local, Local), b: (Local, Local)| k.contains(a) && k.contains(b) && a.1 == b.1 implies a == b by {
            lemma_same_read(s, a, b);
        }
    }
    k.unique_seq_to_set();
    s.unique_seq_to_set();
    assert(k.to_set().subset_of(s.to_set()));
    vstd::set_lib::lemma_len_subset(k.to_set(), s.to_set());
    if k.to_set().len() == s.to_set().len() {
        vstd::set_lib::lemma_subset_equality(k.to_set(), s.to_set());
        assert(s.to_set().contains(s[0]));
    }
}

/// The locals that the assignments of `s` write, in order.
pub open spec fn destinations(s: Seq<(Local, Local)>) -> Seq<Local> {
    s.map_values(|a: (Local, Local)| a.0)
}

/// A sequence of distinct locals, each among `pool`, is no longer than
/// `pool`.
proof fn lemma_distinct_within(path: Seq<Local>, pool: Seq<Local>)
    requires
        path.no_duplicates(),
        forall|x: Local| path.contains(x) ==> pool.contains(x),
    ensures
        path.len() <= pool.len(),
{
    path.unique_seq_to_set();
    pool.lemma_cardinality_of_set();
    assert(path.to_set().subset_of(pool.to_set()));
    vstd::set_lib::lemma_len_subset(path.to_set(), pool.to_set());
}

/// Whether `path` holds `local`.
fn contains_local(path: &Vec<Local>, local: Local) -> (found: bool)
    ensures
        found == path@.contains(local),
{
    let mut i: usize = 0;
    while i < path.len()
        invariant
            i <= path@.len(),
            forall|j: int| 0 <= j < i ==> path@[j] != local,
        decreases path@.len() - i,
    {
        if path[i] == local {
            assert(path@[i as int] == local);
            return true;
        }
        i = i + 1;
    }
    false
}

/// The views of the paths of `cycles`.
pub open spec fn path_views(cycles: Seq<Vec<Local>>) -> Seq<Seq<Local>> {
    cycles.map_values(|path: Vec<Local>| path@)
}

/// The assignments of a parallel assignment still to order.
pub struct AssignmentSimplifier {
    assignments: Vec<(Local, Local)>,
}

/// Sorts `pairs` by destination, then by source.
fn sort_assignments(pairs: Vec<(Local, Local)>) -> (sorted: Vec<(Local, Local)>)
    ensures
        sorted@.to_multiset() == pairs@.to_multiset(),
        assignments_sorted(sorted@),
{
    broadcast use vstd::multiset::group_multiset_axioms;

    let ghost initial = pairs@;
    let mut rest = pairs;
    let mut sorted: Vec<(Local, Local)> = Vec::new();
    proof {
        vstd::seq_lib::to_multiset_len(sorted@);
        vstd::multiset::lemma_multiset_empty_len(sorted@.to_multiset());
    }
    while rest.len() > 0
        invariant
            sorted@.to_multiset().add(rest@.to_multiset()) == initial.to_multiset(),
            assignments_sorted(sorted@),
            forall|i: int, j: int|
                0 <= i < sorted@.len() && 0 <= j < rest@.len() ==> assignment_le(#[trigger] sorted@[i], #[trigger] rest@[j]),
        decreases rest@.len(),
    {
        let mut m: usize = 0;
        let mut q: usize = 1;
        while q < rest.len()
            invariant
                m < rest@.len(),
                1 <= q <= rest@.len(),
                forall|j: int| 0 <= j < q ==> assignment_le(rest@[m as int], #[trigger] rest@[j]),
            decreases rest@.len() - q,
        {
            let first = rank_of(rest[q].0);
            let second = rank_of(rest[q].1);
            let best_first = rank_of(rest[m].0);
            let best_second = rank_of(rest[m].1);
            if first < best_first || (first == best_first && second < best_second) {
                m = q;
            }
            q = q + 1;
        }
        let ghost rest_before = rest@;
        let ghost sorted_before = sorted@;
        let x = rest.remove(m);
        sorted.push(x);
        proof {
            assert(rest_before[m as int] == x);
            assert(rest@ =~= rest_before.remove(m as int));
            assert(sorted@ =~= sorted_before.push(x));
            vstd::seq_lib::to_multiset_build(sorted_before, x);
            vstd::seq_lib::to_multiset_remove(rest_before, m as int);
            vstd::seq_lib::to_multiset_contains(rest_before, x);
            assert(sorted_before.push(x).to_multiset().add(rest_before.remove(m as int).to_multiset())
                =~= sorted_before.to_multiset().add(rest_before.to_multiset()));
            assert forall|i: int, j: int| 0 <= i < j < sorted@.len() implies assignment_le(
                #[trigger] sorted@[i],
                #[trigger] sorted@[j],
            ) by {
                if j == sorted@.len() - 1 {
                    assert(sorted@[j] == x);
                }
            }
            assert forall|i: int, j: int|
                0 <= i < sorted@.len() && 0 <= j < rest@.len() implies assignment_le(
                #[trigger] sorted@[i],
                #[trigger] rest@[j],
            ) by {
                if j < m {
                    assert(rest@[j] == rest_before[j]);
                } else {
                    assert(rest@[j] == rest_before[j + 1]);
                }
                if i == sorted@.len() - 1 {
                    assert(sorted@[i] == x);
                }
            }
        }
    }
    proof {
        vstd::seq_lib::to_multiset_len(rest@);
        vstd::multiset::lemma_multiset_empty_len(rest@.to_multiset());
        assert(sorted@.to_multiset().add(vstd::multiset::Multiset::empty()) =~= sorted@.to_multiset());
    }
    sorted
}

impl AssignmentSimplifier {
    /// The assignments still to order.
    pub closed spec fn assignments(&self) -> Seq<(Local, Local)> {
        self.assignments@
    }

    /// Starts ordering `assignments`, sorted by destination, then by source.
    pub fn new(assignments: Vec<(Local, Local)>) -> (simplifier: Self)
        ensures
            simplifier.assignments().to_multiset() == assignments@.to_multiset(),
            assignments_sorted(simplifier.assignments()),
    {
        AssignmentSimplifier { assignments: sort_assignments(assignments) }
    }

    /// The position of the first assignment whose destination no
    /// assignment reads.
    fn find_first_assign(&self) -> (found: Option<usize>)
        ensures
            found matches Some(i) ==> first_unread_from(self.assignments(), 0) == Some(i as int),
            found is None ==> first_unread_from(self.assignments(), 0) is None,
    {
        let ghost s = self.assignments@;
        let mut i: usize = 0;
        while i < self.assignments.len()
            invariant
                s == self.assignments@,
                i <= s.len(),
                first_unread_from(s, 0) == first_unread_from(s, i as int),
            decreases s.len() - i,
        {
            let destination = self.assignments[i].0;
            let mut read = false;
            let mut k: usize = 0;
            while k < self.assignments.len()
                invariant
                    s == self.assignments@,
                    i < s.len(),
                    destination == s[i as int].0,
                    k <= s.len(),
                    read == exists|j: int| 0 <= j < k && #[trigger] s[j].1 == destination,
                decreases s.len() - k,
            {
                if self.assignments[k].1 == destination {
                    read = true;
                }
                k = k + 1;
            }
            if !read {
                return Some(i);
            }
            assert(!unread(s, i as int)) by {
                let j = choose|j: int| 0 <= j < k && #[trigger] s[j].1 == destination;
                assert(s[j].1 == s[i as int].0);
            }
            i = i + 1;
        }
        None
    }

    /// Takes out, in order, each assignment whose destination no assignment
    /// left reads, the first such each time, and returns them: the
    /// assignments left each write a local that another reads.
    pub fn find_all_assigns(&mut self) -> (assigns: Vec<(Local, Local)>)
        ensures
            (assigns@, final(self).assignments()) == assign_order(old(self).assignments()),
    {
        let ghost order = assign_order(self.assignments@);
        let mut assigns: Vec<(Local, Local)> = Vec::new();
        loop
            invariant
                order == assign_order(old(self).assignments()),
                (assigns@ + assign_order(self.assignments@).0, assign_order(self.assignments@).1) == order,
            decreases self.assignments@.len(),
        {
            let found = self.find_first_assign();
            match found {
                Some(index) => {
                    let ghost before = self.assignments@;
                    proof {
                        lemma_first_unread(before, 0);
                    }
                    let assignment = self.assignments.remove(index);
                    assigns.push(assignment);
                    proof {
                        assert(self.assignments@ =~= before.remove(index as int));
                        let rest = assign_order(before.remove(index as int));
                        assert(assign_order(before) == (seq![before[index as int]] + rest.0, rest.1));
                        assert(assigns@ + rest.0 =~= assigns@.drop_last() + (seq![before[index as int]] + rest.0));
                    }
                },
                None => {
                    proof {
                        assert(assign_order(self.assignments@).0 =~= Seq::<(Local, Local)>::empty());
                        assert(assigns@ + Seq::<(Local, Local)>::empty() =~= assigns@);
                    }
                    return assigns;
                },
            }
        }
    }

    /// The position of the assignment writing `local`.
    fn position_writing(&self, local: Local) -> (index: usize)
        requires
            written(self.assignments(), local),
        ensures
            index < self.assignments().len(),
            self.assignments()[index as int].0 == local,
    {
        let mut i: usize = 0;
        while i < self.assignments.len()
            invariant
                written(self.assignments@, local),
                i <= self.assignments@.len(),
                forall|j: int| 0 <= j < i ==> self.assignments@[j].0 != local,
            decreases self.assignments@.len() - i,
        {
            if self.assignments[i].0 == local {
                return i;
            }
            i = i + 1;
        }
        proof {
            reveal(written);
            let b = choose|b: (Local, Local)| self.assignments@.contains(b) && b.0 == local;
            let j = choose|j: int| 0 <= j < self.assignments@.len() && self.assignments@[j] == b;
            assert(self.assignments@[j].0 == local);
        }
        vstd::pervasive::unreached()
    }

    /// Walks from assignment `next` into `path`: its destination, then each
    /// local the last one is assigned from, until a local comes round again.
    fn find_first_swap(&self, next: (Local, Local), path: &mut Vec<Local>)
        requires
            is_permutation(self.assignments()),
            self.assignments().contains(next),
        ensures
            is_walk(self.assignments(), next, final(path)@),
    {
        let ghost s = self.assignments@;
        path.clear();
        let mut destination = next.0;
        let mut source = next.1;
        loop
            invariant_except_break
                !path@.contains(destination),
            invariant
                s == self.assignments@,
                is_permutation(s),
                s.contains(next),
                s.contains((destination, source)),
                path@.no_duplicates(),
                forall|x: Local| path@.contains(x) ==> destinations(s).contains(x),
                path@.len() == 0 ==> destination == next.0 && source == next.1,
                path@.len() > 0 ==> path@[0] == next.0,
                path@.len() > 0 ==> s.contains((path@.last(), destination)),
                forall|i: int| 0 <= i < path@.len() - 1 ==> #[trigger] linked_at(s, path@, i),
            ensures
                is_walk(s, next, path@),
            decreases s.len() - path@.len(),
        {
            let ghost before = path@;
            path.push(destination);
            proof {
                let i = choose|i: int| 0 <= i < s.len() && s[i] == (destination, source);
                assert(destinations(s)[i] == destination);
                assert forall|x: Local| path@.contains(x) implies destinations(s).contains(x) by {
                    let j = choose|j: int| 0 <= j < path@.len() && path@[j] == x;
                    if j < before.len() {
                        assert(before[j] == x);
                    }
                }
                assert(path@.no_duplicates()) by {
                    assert forall|i: int, j: int| 0 <= i < path@.len() && 0 <= j < path@.len() && i != j implies path@[i]
                        != path@[j] by {
                        if i < before.len() && j < before.len() {
                            assert(before[i] == path@[i] && before[j] == path@[j]);
                        } else if i < before.len() {
                            assert(before.contains(before[i]));
                        } else {
                            assert(before.contains(before[j]));
                        }
                    }
                }
                assert forall|i: int| 0 <= i < path@.len() - 1 implies #[trigger] linked_at(s, path@, i) by {
                    if i < before.len() - 1 {
                        assert(linked_at(s, before, i));
                    }
                }
                lemma_distinct_within(path@, destinations(s));
                assert(s.contains((destination, source)));
                let writer = lemma_read_written(s, (destination, source));
                assert(written(s, source)) by {
                    reveal(written);
                }
            }
            let index = self.position_writing(source);
            let found = self.assignments[index];
            proof {
                assert(s.contains(found));
                assert(s.contains((path@.last(), found.0)));
            }
            destination = found.0;
            source = found.1;
            if contains_local(path, destination) {
                break;
            }
        }
    }

    /// Keeps only the assignments whose destination is not on `path`.
    fn remove_path(&mut self, path: &Vec<Local>)
        ensures
            final(self).assignments() == kept(old(self).assignments(), path@),
    {
        let ghost s = self.assignments@;
        let mut left: Vec<(Local, Local)> = Vec::new();
        let mut i: usize = 0;
        while i < self.assignments.len()
            invariant
                s == self.assignments@,
                i <= s.len(),
                left@ == kept(s.take(i as int), path@),
            decreases s.len() - i,
        {
            let assignment = self.assignments[i];
            proof {
                assert(s.take(i + 1).drop_last() =~= s.take(i as int));
                assert(s.take(i + 1).last() == assignment);
            }
            if !contains_local(path, assignment.0) {
                left.push(assignment);
            }
            i = i + 1;
        }
        assert(s.take(i as int) =~= s);
        self.assignments = left;
    }

    /// Takes out the cycles left, each as the walk from the first
    /// assignment left, and returns them in order: each cycle is a swap of
    /// its locals.
    pub fn find_all_swaps(&mut self) -> (cycles: Vec<Vec<Local>>)
        requires
            is_permutation(old(self).assignments()),
        ensures
            walks_of(old(self).assignments(), path_views(cycles@)),
            walked(old(self).assignments(), path_views(cycles@)) == final(self).assignments(),
            final(self).assignments().len() == 0,
    {
        let ghost initial = self.assignments@;
        let mut cycles: Vec<Vec<Local>> = Vec::new();
        let mut path: Vec<Local> = Vec::new();
        proof {
            assert(path_views(cycles@) =~= Seq::<Seq<Local>>::empty());
        }
        while self.assignments.len() > 0
            invariant
                is_permutation(self.assignments@),
                self.assignments@ == walked(initial, path_views(cycles@)),
                walks_of(initial, path_views(cycles@)),
            decreases self.assignments@.len(),
        {
            let ghost s = self.assignments@;
            let first = self.assignments[0];
            assert(s.contains(first)) by {
                assert(s[0] == first);
            }
            self.find_first_swap(first, &mut path);
            let mut cycle: Vec<Local> = Vec::new();
            let mut j: usize = 0;
            while j < path.len()
                invariant
                    j <= path@.len(),
                    cycle@ == path@.take(j as int),
                decreases path@.len() - j,
            {
                cycle.push(path[j]);
                assert(path@.take(j + 1) =~= path@.take(j as int).push(path@[j as int]));
                j = j + 1;
            }
            assert(path@.take(j as int) =~= path@);
            let ghost done = path_views(cycles@);
            cycles.push(cycle);
            self.remove_path(&path);
            proof {
                lemma_kept_permutation(s, path@);
                assert(path_views(cycles@) =~= done.push(path@));
                assert(path_views(cycles@).drop_last() =~= done);
            }
        }
        cycles
    }
}

} // verus!
