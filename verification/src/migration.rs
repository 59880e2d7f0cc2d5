//! Versioned schema migrations: their data, and the order in which the
//! pending ones are applied.

use vstd::prelude::*;

verus! {

/// The direction of a migration.
#[derive(Debug, Clone, Copy, PartialEq, Eq, Structural)]
pub enum MigrationKind {
    Up,
    Down,
}

/// A migration definition.
#[derive(Debug, Clone, Copy)]
pub struct Migration {
    pub version: i64,
    pub description: &'static str,
    pub sql: &'static str,
    pub kind: MigrationKind,
}

/// The migrations given for one database, in the order in which they were
/// given.
#[derive(Debug)]
pub struct MigrationList(pub Vec<Migration>);

impl View for MigrationList {
    type V = Seq<Migration>;

    open spec fn view(&self) -> Seq<Migration> {
        self.0@
    }
}

/// Whether a migration is still to be applied to a database whose highest
/// recorded version is `current`: it goes up, and to a later version.
pub open spec fn is_pending(m: Migration, current: int) -> bool {
    m.kind == MigrationKind::Up && m.version > current
}

/// The upward migrations of a list, in the list's order.
pub open spec fn upward(list: Seq<Migration>) -> Seq<Migration> {
    list.filter(|m: Migration| m.kind == MigrationKind::Up)
}

/// Whether versions never fall along a list.
pub open spec fn ascending(list: Seq<Migration>) -> bool {
    forall|i: int, j: int| 0 <= i < j < list.len() ==> list[i].version <= list[j].version
}

/// An ascending list with `m` put in: behind every entry whose version is
/// not above its own.
pub open spec fn placed(sorted: Seq<Migration>, m: Migration) -> Seq<Migration>
    decreases sorted.len(),
{
    if sorted.len() == 0 {
        seq![m]
    } else if sorted.last().version <= m.version {
        sorted.push(m)
    } else {
        placed(sorted.drop_last(), m).push(sorted.last())
    }
}

/// The migrations of `list` that are pending at `current`, by ascending
/// version; those of one version keep the order in which the list has them.
pub open spec fn pending(list: Seq<Migration>, current: int) -> Seq<Migration>
    decreases list.len(),
{
    if list.len() == 0 {
        Seq::empty()
    } else {
        let before = pending(list.drop_last(), current);
        if is_pending(list.last(), current) {
            placed(before, list.last())
        } else {
            before
        }
    }
}

/// Putting `m` in is inserting it at the first place behind which every
/// version is above its own.
proof fn lemma_placed_is_insert(sorted: Seq<Migration>, m: Migration, at: int)
    requires
        0 <= at <= sorted.len(),
        forall|k: int| at <= k < sorted.len() ==> sorted[k].version > m.version,
        at > 0 ==> sorted[at - 1].version <= m.version,
    ensures
        placed(sorted, m) == sorted.insert(at, m),
    decreases sorted.len(),
{
    if sorted.len() == 0 {
        assert(sorted.insert(at, m) =~= seq![m]);
    } else if at == sorted.len() {
        assert(sorted.insert(at, m) =~= sorted.push(m));
    } else {
        lemma_placed_is_insert(sorted.drop_last(), m, at);
        assert(sorted.insert(at, m) =~= sorted.drop_last().insert(at, m).push(sorted.last()));
    }
}

/// Putting a migration into an ascending list keeps it ascending and adds
/// that migration and no other.
proof fn lemma_placed(sorted: Seq<Migration>, m: Migration)
    requires
        ascending(sorted),
    ensures
        ascending(placed(sorted, m)),
        placed(sorted, m).to_multiset() == sorted.to_multiset().insert(m),
        placed(sorted, m).len() == sorted.len() + 1,
    decreases sorted.len(),
{
    broadcast use vstd::seq_lib::group_to_multiset_ensures;

    if sorted.len() == 0 {
        assert(sorted =~= Seq::<Migration>::empty());
        assert(seq![m] =~= Seq::<Migration>::empty().push(m));
    } else if sorted.last().version <= m.version {
        let r = sorted.push(m);
        assert forall|i: int, j: int| 0 <= i < j < r.len() implies r[i].version
            <= r[j].version by {
            if j == sorted.len() {
                if i < sorted.len() - 1 {
                    assert(sorted[i].version <= sorted[sorted.len() - 1].version);
                }
            }
        }
    } else {
        let front = sorted.drop_last();
        let last = sorted.last();
        assert(ascending(front));
        lemma_placed(front, m);
        let q = placed(front, m);
        let r = q.push(last);
        assert forall|i: int, j: int| 0 <= i < j < r.len() implies r[i].version
            <= r[j].version by {
            if j == q.len() {
                // every entry of q is m or an entry of front
                assert(q.to_multiset().count(q[i]) > 0);
                if q[i] != m {
                    assert(front.to_multiset().count(q[i]) > 0);
                    let k = choose|k: int| 0 <= k < front.len() && front[k] == q[i];
                    assert(sorted[k].version <= sorted[sorted.len() - 1].version);
                }
            }
        }
        assert(sorted =~= front.push(last));
        assert(r.to_multiset() =~= sorted.to_multiset().insert(m));
    }
}

/// The plan is ascending, and it holds each pending migration of the list
/// as often as the list does, and nothing else.
pub proof fn lemma_pending(list: Seq<Migration>, current: int)
    ensures
        ascending(pending(list, current)),
        pending(list, current).to_multiset() == list.filter(
            |m: Migration| is_pending(m, current),
        ).to_multiset(),
        forall|i: int|
            0 <= i < pending(list, current).len() ==> is_pending(
                #[trigger] pending(list, current)[i],
                current,
            ),
    decreases list.len(),
{
    broadcast use vstd::seq_lib::group_to_multiset_ensures;

    let keep = |m: Migration| is_pending(m, current);
    if list.len() == 0 {
        assert(list.filter(keep) =~= Seq::<Migration>::empty()) by {
            reveal(Seq::filter);
        }
    } else {
        let front = list.drop_last();
        let last = list.last();
        lemma_pending(front, current);
        let before = pending(front, current);
        assert(list =~= front.push(last));
        assert(list.filter(keep) == if keep(last) {
            front.filter(keep).push(last)
        } else {
            front.filter(keep)
        }) by {
            reveal(Seq::filter);
        }
        if is_pending(last, current) {
            lemma_placed(before, last);
            let plan = placed(before, last);
            assert forall|i: int| 0 <= i < plan.len() implies is_pending(
                #[trigger] plan[i],
                current,
            ) by {
                assert(plan.to_multiset().count(plan[i]) > 0);
                if plan[i] != last {
                    assert(before.to_multiset().count(plan[i]) > 0);
                    let k = choose|k: int| 0 <= k < before.len() && before[k] == plan[i];
                    assert(is_pending(before[k], current));
                }
            }
        }
    }
}

/// Whether versions rise from each entry to the next.
pub open spec fn strictly_ascending(list: Seq<Migration>) -> bool {
    forall|i: int, j: int| 0 <= i < j < list.len() ==> list[i].version < list[j].version
}

/// Whether no two upward migrations of a list have the same version.
pub open spec fn distinct_versions(list: Seq<Migration>) -> bool {
    forall|i: int, j: int|
        0 <= i < j < list.len() && list[i].kind == MigrationKind::Up && list[j].kind
            == MigrationKind::Up ==> list[i].version != list[j].version
}

/// Putting a migration of a new version into a list whose versions rise
/// keeps them rising.
proof fn lemma_placed_strictly(sorted: Seq<Migration>, m: Migration)
    requires
        strictly_ascending(sorted),
        forall|k: int| 0 <= k < sorted.len() ==> sorted[k].version != m.version,
    ensures
        strictly_ascending(placed(sorted, m)),
    decreases sorted.len(),
{
    broadcast use vstd::seq_lib::group_to_multiset_ensures;

    if sorted.len() == 0 {
    } else if sorted.last().version <= m.version {
        let r = sorted.push(m);
        assert(sorted[sorted.len() - 1].version != m.version);
        assert forall|i: int, j: int| 0 <= i < j < r.len() implies r[i].version
            < r[j].version by {
            if j == sorted.len() {
                if i < sorted.len() - 1 {
                    assert(sorted[i].version < sorted[sorted.len() - 1].version);
                }
            }
        }
    } else {
        let front = sorted.drop_last();
        let last = sorted.last();
        assert(strictly_ascending(front));
        assert(ascending(front));
        lemma_placed_strictly(front, m);
        lemma_placed(front, m);
        let q = placed(front, m);
        let r = q.push(last);
        assert forall|i: int, j: int| 0 <= i < j < r.len() implies r[i].version
            < r[j].version by {
            if j == q.len() {
                assert(q.to_multiset().count(q[i]) > 0);
                if q[i] != m {
                    assert(front.to_multiset().count(q[i]) > 0);
                    let k = choose|k: int| 0 <= k < front.len() && front[k] == q[i];
                    assert(sorted[k].version < sorted[sorted.len() - 1].version);
                }
            }
        }
    }
}

/// Where no two upward migrations of the list have the same version, the
/// versions of the plan rise from each migration to the next.
pub proof fn lemma_plan_strictly_ascending(list: Seq<Migration>, current: int)
    requires
        distinct_versions(list),
    ensures
        strictly_ascending(pending(list, current)),
    decreases list.len(),
{
    broadcast use vstd::seq_lib::group_to_multiset_ensures;

    if list.len() > 0 {
        let front = list.drop_last();
        let last = list.last();
        assert(distinct_versions(front)) by {
            assert forall|i: int, j: int|
                0 <= i < j < front.len() && front[i].kind == MigrationKind::Up && front[j].kind
                    == MigrationKind::Up implies front[i].version != front[j].version by {
                assert(front[i] == list[i]);
                assert(front[j] == list[j]);
            }
        }
        lemma_plan_strictly_ascending(front, current);
        if is_pending(last, current) {
            let before = pending(front, current);
            let keep = |m: Migration| is_pending(m, current);
            lemma_pending(front, current);
            assert forall|k: int| 0 <= k < before.len() implies before[k].version
                != last.version by {
                assert(before.to_multiset().count(before[k]) > 0);
                assert(front.filter(keep).contains(before[k]));
                front.lemma_filter_contains_rev(keep, before[k]);
                assert(front.contains(before[k]));
                let a = choose|a: int| 0 <= a < front.len() && front[a] == before[k];
                assert(list[a] == front[a]);
                assert(is_pending(before[k], current));
                assert(list[a].version != list[list.len() - 1].version);
            }
            lemma_placed_strictly(before, last);
        }
    }
}

/// Nothing is pending on a database whose recorded version is not below
/// any upward version of the list.
pub proof fn lemma_nothing_pending_when_current(list: Seq<Migration>, current: int)
    requires
        forall|i: int|
            0 <= i < list.len() && (#[trigger] list[i]).kind == MigrationKind::Up
                ==> list[i].version <= current,
    ensures
        pending(list, current) == Seq::<Migration>::empty(),
    decreases list.len(),
{
    if list.len() > 0 {
        assert(!is_pending(list[list.len() - 1], current));
        lemma_nothing_pending_when_current(list.drop_last(), current);
    }
}

/// The versions along a list.
pub open spec fn versions(list: Seq<Migration>) -> Seq<int> {
    Seq::new(list.len(), |i: int| list[i].version as int)
}

/// Filtering keeps each entry that passes as often as the list holds it,
/// and no other.
proof fn lemma_filter_counts(list: Seq<Migration>, keep: spec_fn(Migration) -> bool, m: Migration)
    ensures
        list.filter(keep).to_multiset().count(m) == if keep(m) {
            list.to_multiset().count(m)
        } else {
            0
        },
    decreases list.len(),
{
    broadcast use vstd::seq_lib::group_to_multiset_ensures;

    if list.len() == 0 {
        assert(list.filter(keep) =~= Seq::<Migration>::empty()) by {
            reveal(Seq::filter);
        }
        assert(list =~= Seq::<Migration>::empty());
    } else {
        let front = list.drop_last();
        let last = list.last();
        lemma_filter_counts(front, keep, m);
        assert(list =~= front.push(last));
        front.lemma_filter_push(last, keep);
    }
}

/// Two ascending lists that hold the same migrations, each as often, have
/// the same versions at the same places.
proof fn lemma_ascending_versions_unique(p: Seq<Migration>, q: Seq<Migration>)
    requires
        ascending(p),
        ascending(q),
        p.to_multiset() == q.to_multiset(),
    ensures
        versions(p) == versions(q),
    decreases p.len(),
{
    broadcast use vstd::seq_lib::group_to_multiset_ensures;

    vstd::seq_lib::to_multiset_len(p);
    vstd::seq_lib::to_multiset_len(q);
    if p.len() == 0 {
        assert(versions(p) =~= versions(q));
    } else {
        let n = p.len() as int;
        let top = p[n - 1];
        assert(p.contains(top));
        assert(q.to_multiset().count(top) > 0);
        assert(q.contains(top));
        let j = choose|j: int| 0 <= j < n && q[j] == top;
        assert(q.contains(q[n - 1]));
        assert(p.to_multiset().count(q[n - 1]) > 0);
        assert(p.contains(q[n - 1]));
        let i = choose|i: int| 0 <= i < n && p[i] == q[n - 1];
        assert(p[i].version <= p[n - 1].version) by {
            if i < n - 1 {
                assert(p[i].version <= p[n - 1].version);
            }
        }
        assert(q[j].version <= q[n - 1].version) by {
            if j < n - 1 {
                assert(q[j].version <= q[n - 1].version);
            }
        }
        assert(q[n - 1].version == top.version);
        let p_front = p.drop_last();
        let q_rest = q.remove(j);
        assert(p_front =~= p.remove(n - 1));
        vstd::seq_lib::to_multiset_remove(p, n - 1);
        vstd::seq_lib::to_multiset_remove(q, j);
        assert(ascending(p_front));
        assert forall|a: int, b: int| 0 <= a < b < q_rest.len() implies q_rest[a].version
            <= q_rest[b].version by {
            let a0 = if a < j { a } else { a + 1 };
            let b0 = if b < j { b } else { b + 1 };
            assert(q_rest[a] == q[a0]);
            assert(q_rest[b] == q[b0]);
            assert(q[a0].version <= q[b0].version);
        }
        lemma_ascending_versions_unique(p_front, q_rest);
        assert forall|k: int| 0 <= k < n implies versions(p)[k] == versions(q)[k] by {
            if k < n - 1 {
                assert(versions(p_front)[k] == versions(q_rest)[k]);
                assert(p_front[k] == p[k]);
                if k < j {
                    assert(q_rest[k] == q[k]);
                } else {
                    assert(q_rest[k] == q[k + 1]);
                    assert(q[j].version <= q[k].version) by {
                        if j < k {
                            assert(q[j].version <= q[k].version);
                        }
                    }
                    assert(q[k].version <= q[k + 1].version);
                    assert(q[k + 1].version <= q[n - 1].version) by {
                        if k + 1 < n - 1 {
                            assert(q[k + 1].version <= q[n - 1].version);
                        }
                    }
                }
            }
        }
        assert(versions(p) =~= versions(q));
    }
}

/// The order in which the migrations were given does not change the order
/// in which they are applied: two lists that hold the same migrations, each
/// as often, give plans with the same versions at the same places.
pub proof fn lemma_plan_order_independent(a: Seq<Migration>, b: Seq<Migration>, current: int)
    requires
        a.to_multiset() == b.to_multiset(),
    ensures
        versions(pending(a, current)) == versions(pending(b, current)),
{
    let keep = |m: Migration| is_pending(m, current);
    lemma_pending(a, current);
    lemma_pending(b, current);
    assert forall|m: Migration|
        a.filter(keep).to_multiset().count(m) == b.filter(keep).to_multiset().count(m) by {
        lemma_filter_counts(a, keep, m);
        lemma_filter_counts(b, keep, m);
    }
    assert(a.filter(keep).to_multiset() =~= b.filter(keep).to_multiset());
    lemma_ascending_versions_unique(pending(a, current), pending(b, current));
}

impl MigrationList {
    /// The upward migrations, in the order in which they were given.
    /// Downward ones are held but never run.
    pub fn resolve(self) -> (ups: Vec<Migration>)
        ensures
            ups@ == upward(self@),
    {
        let list = self.0;
        let mut ups: Vec<Migration> = Vec::new();
        let mut i: usize = 0;
        proof {
            reveal(Seq::filter);
            assert(list@.take(0) =~= Seq::<Migration>::empty());
        }
        while i < list.len()
            invariant
                i <= list@.len(),
                ups@ == upward(list@.take(i as int)),
            decreases list@.len() - i,
        {
            let m = list[i];
            proof {
                reveal(Seq::filter);
                assert(list@.take(i + 1).drop_last() =~= list@.take(i as int));
                assert(list@.take(i + 1).last() == m);
            }
            if matches!(m.kind, MigrationKind::Up) {
                ups.push(m);
            }
            i += 1;
        }
        proof {
            assert(list@.take(i as int) =~= list@);
        }
        ups
    }

    /// The plan for a database whose highest recorded version is `current`.
    pub fn pending(&self, current: i64) -> (plan: Vec<Migration>)
        ensures
            plan@ == pending(self@, current as int),
            ascending(plan@),
            plan@.to_multiset() == self@.filter(
                |m: Migration| is_pending(m, current as int),
            ).to_multiset(),
    {
        let list = &self.0;
        let mut plan: Vec<Migration> = Vec::new();
        let mut i: usize = 0;
        proof {
            assert(list@.take(0) =~= Seq::<Migration>::empty());
        }
        while i < list.len()
            invariant
                i <= list@.len(),
                plan@ == pending(list@.take(i as int), current as int),
                plan@.len() <= i,
            decreases list@.len() - i,
        {
            let m = list[i];
            proof {
                assert(list@.take(i + 1).drop_last() =~= list@.take(i as int));
                assert(list@.take(i + 1).last() == m);
                lemma_pending(list@.take(i as int), current as int);
            }
            if matches!(m.kind, MigrationKind::Up) && m.version > current {
                let mut at: usize = plan.len();
                while at > 0 && plan[at - 1].version > m.version
                    invariant
                        at <= plan@.len(),
                        forall|k: int| at <= k < plan@.len() ==> plan@[k].version > m.version,
                    decreases at,
                {
                    at -= 1;
                }
                proof {
                    lemma_placed_is_insert(plan@, m, at as int);
                }
                plan.insert(at, m);
            }
            i += 1;
        }
        proof {
            assert(list@.take(i as int) =~= list@);
            lemma_pending(list@, current as int);
        }
        plan
    }
}

} // verus!
