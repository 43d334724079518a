//! Slowly Changing Dimension (Type 2) planning for `aircraft` and `deregistered`:
//! which current rows stay, which are closed, and which versions are inserted.

use vstd::prelude::*;
use vstd::hash_map::StringHashMap;
use vstd::hash_set::StringHashSet;

use crate::model::{
    blake3_hex, dereg_tracked, hash_input, master_tracked, DeregRecord, MasterRecord,
};

verus! {

broadcast use vstd::hash_map::group_hash_map_axioms, vstd::hash_set::group_hash_set_axioms;

/// A current (`is_current = 1`) row: its N-number, row id and state hash.
pub struct CurrentVersion {
    pub n_number: String,
    pub id: i64,
    pub state_hash: String,
}

/// An incoming dump row, by N-number and state hash.
pub struct IncomingVersion {
    pub n_number: String,
    pub state_hash: String,
}

impl View for CurrentVersion {
    type V = (Seq<char>, i64, Seq<char>);

    open spec fn view(&self) -> (Seq<char>, i64, Seq<char>) {
        (self.n_number@, self.id, self.state_hash@)
    }
}

impl View for IncomingVersion {
    type V = (Seq<char>, Seq<char>);

    open spec fn view(&self) -> (Seq<char>, Seq<char>) {
        (self.n_number@, self.state_hash@)
    }
}

/// What happens to one incoming row.
#[derive(Clone, Copy, PartialEq, Eq, Debug)]
pub enum ScdAction {
    /// An earlier row of the same dump has this N-number; this one is ignored.
    Duplicate,
    /// The current row has the same state hash; nothing is written.
    Unchanged,
    /// The current row `close_id` is closed and this row inserted as current.
    Changed { close_id: i64 },
    /// No current row has this N-number; this row is inserted as current.
    New,
}

/// The writes of one SCD pass: one action per incoming row, and the ids of
/// current rows whose N-number left the dump (closed).
pub struct ScdPlan {
    pub actions: Vec<ScdAction>,
    pub closes: Vec<i64>,
}

pub type CurrentView = Seq<(Seq<char>, i64, Seq<char>)>;

pub type IncomingView = Seq<(Seq<char>, Seq<char>)>;

/// No two current rows share an N-number (the schema's one-current-row index).
pub open spec fn distinct_current(cur: CurrentView) -> bool {
    forall|a: int, b: int|
        0 <= a < cur.len() && 0 <= b < cur.len() && a != b ==> #[trigger] cur[a].0
            != #[trigger] cur[b].0
}

pub open spec fn has_current(cur: CurrentView, n: Seq<char>) -> bool {
    exists|k: int| 0 <= k < cur.len() && #[trigger] cur[k].0 == n
}

/// The index of the current row with N-number `n` (meaningful when there is one).
pub open spec fn current_index(cur: CurrentView, n: Seq<char>) -> int {
    choose|k: int| 0 <= k < cur.len() && #[trigger] cur[k].0 == n
}

pub open spec fn has_incoming(inc: IncomingView, n: Seq<char>) -> bool {
    exists|j: int| 0 <= j < inc.len() && #[trigger] inc[j].0 == n
}

/// The action for incoming row `i`.
pub open spec fn action_of(cur: CurrentView, inc: IncomingView, i: int) -> ScdAction {
    let n = inc[i].0;
    if has_incoming(inc.subrange(0, i), n) {
        ScdAction::Duplicate
    } else if !has_current(cur, n) {
        ScdAction::New
    } else if cur[current_index(cur, n)].2 == inc[i].1 {
        ScdAction::Unchanged
    } else {
        ScdAction::Changed { close_id: cur[current_index(cur, n)].1 }
    }
}

/// The ids of current rows whose N-number no incoming row has, in table order.
pub open spec fn closed_ids(cur: CurrentView, inc: IncomingView) -> Seq<i64>
    decreases cur.len(),
{
    if cur.len() == 0 {
        Seq::empty()
    } else {
        let prev = closed_ids(cur.drop_last(), inc);
        if has_incoming(inc, cur.last().0) {
            prev
        } else {
            prev.push(cur.last().1)
        }
    }
}

/// The action of every incoming row of a pass, in order.
pub open spec fn scd_actions(cur: CurrentView, inc: IncomingView) -> Seq<ScdAction> {
    Seq::new(inc.len(), |i: int| action_of(cur, inc, i))
}

/// Plans the SCD writes for `incoming` against the current rows: the first row of
/// each N-number is unchanged, changed (old row closed) or new; later rows of the
/// same N-number are duplicates; current rows absent from `incoming` are closed.
pub fn plan_scd(current: &[CurrentVersion], incoming: &[IncomingVersion]) -> (plan: ScdPlan)
    requires
        distinct_current(current@.map_values(|c: CurrentVersion| c@)),
    ensures
        plan.actions@.len() == incoming@.len(),
        forall|i: int|
            0 <= i < incoming@.len() ==> #[trigger] plan.actions@[i] == action_of(
                current@.map_values(|c: CurrentVersion| c@),
                incoming@.map_values(|c: IncomingVersion| c@),
                i,
            ),
        plan.actions@ == scd_actions(
            current@.map_values(|c: CurrentVersion| c@),
            incoming@.map_values(|c: IncomingVersion| c@),
        ),
        plan.closes@ == closed_ids(
            current@.map_values(|c: CurrentVersion| c@),
            incoming@.map_values(|c: IncomingVersion| c@),
        ),
{
    let ghost cur = current@.map_values(|c: CurrentVersion| c@);
    let ghost inc = incoming@.map_values(|c: IncomingVersion| c@);
    // N-number -> index of its current row, for rows not yet matched by an incoming row.
    let mut open: StringHashMap<usize> = StringHashMap::new();
    let nc = current.len();
    let mut k: usize = 0;
    while k < nc
        invariant
            k <= nc == current@.len() == cur.len(),
            cur == current@.map_values(|c: CurrentVersion| c@),
            distinct_current(cur),
            forall|n: Seq<char>|
                #[trigger] open@.contains_key(n) <==> exists|j: int|
                    0 <= j < k && #[trigger] cur[j].0 == n,
            forall|n: Seq<char>|
                #[trigger] open@.contains_key(n) ==> {
                    let j = open@[n] as int;
                    0 <= j < k && cur[j].0 == n
                },
        decreases nc - k,
    {
        let key = current[k].n_number.clone();
        assert(key@ == cur[k as int].0);
        open.insert(key, k);
        proof {
            assert forall|n: Seq<char>| #[trigger] open@.contains_key(n) implies {
                let j = open@[n] as int;
                0 <= j < k + 1 && cur[j].0 == n
            } by {}
            assert forall|n: Seq<char>|
                #[trigger] open@.contains_key(n) <==> exists|j: int|
                    0 <= j < k + 1 && #[trigger] cur[j].0 == n by {
                if exists|j: int| 0 <= j < k + 1 && #[trigger] cur[j].0 == n {
                    let j = choose|j: int| 0 <= j < k + 1 && #[trigger] cur[j].0 == n;
                    if j < k {
                        assert(open@.contains_key(n));
                    }
                }
            }
        }
        k = k + 1;
    }
    let mut seen = StringHashSet::new();
    let mut actions: Vec<ScdAction> = Vec::new();
    let ni = incoming.len();
    let mut i: usize = 0;
    while i < ni
        invariant
            i <= ni == incoming@.len() == inc.len(),
            nc == current@.len() == cur.len(),
            cur == current@.map_values(|c: CurrentVersion| c@),
            inc == incoming@.map_values(|c: IncomingVersion| c@),
            distinct_current(cur),
            forall|n: Seq<char>|
                #[trigger] seen@.contains(n) <==> has_incoming(inc.subrange(0, i as int), n),
            forall|n: Seq<char>|
                #[trigger] open@.contains_key(n) <==> (has_current(cur, n) && !seen@.contains(n)),
            forall|n: Seq<char>|
                #[trigger] open@.contains_key(n) ==> {
                    let j = open@[n] as int;
                    0 <= j < nc && cur[j].0 == n
                },
            actions@.len() == i,
            forall|j: int| 0 <= j < i ==> #[trigger] actions@[j] == action_of(cur, inc, j),
        decreases ni - i,
    {
        let n = &incoming[i].n_number;
        let ghost nv = inc[i as int].0;
        assert(n@ == nv);
        assert(inc.subrange(0, i as int) =~= inc.subrange(0, i + 1).subrange(0, i as int));
        let action = if seen.contains(n.as_str()) {
            ScdAction::Duplicate
        } else {
            seen.insert(n.clone());
            match open.get(n.as_str()) {
                None => ScdAction::New,
                Some(idx) => {
                    let j = *idx;
                    proof {
                        assert(cur[current_index(cur, nv)].0 == nv);
                        assert(current_index(cur, nv) == j as int);
                    }
                    open.remove(n.as_str());
                    if current[j].state_hash == incoming[i].state_hash {
                        ScdAction::Unchanged
                    } else {
                        ScdAction::Changed { close_id: current[j].id }
                    }
                },
            }
        };
        proof {
            assert forall|m: Seq<char>|
                #[trigger] seen@.contains(m) <==> has_incoming(inc.subrange(0, i + 1), m) by {
                if has_incoming(inc.subrange(0, i + 1), m) {
                    let j = choose|j: int|
                        0 <= j < i + 1 && #[trigger] inc.subrange(0, i + 1)[j].0 == m;
                    if j < i {
                        assert(inc.subrange(0, i as int)[j].0 == m);
                    }
                }
                if seen@.contains(m) && m != nv {
                    assert(has_incoming(inc.subrange(0, i as int), m));
                    let j = choose|j: int|
                        0 <= j < i && #[trigger] inc.subrange(0, i as int)[j].0 == m;
                    assert(inc.subrange(0, i + 1)[j].0 == m);
                }
                if m == nv {
                    assert(inc.subrange(0, i + 1)[i as int].0 == m);
                }
            }
        }
        actions.push(action);
        i = i + 1;
    }
    assert(inc.subrange(0, ni as int) =~= inc);
    let mut closes: Vec<i64> = Vec::new();
    let mut k: usize = 0;
    while k < nc
        invariant
            k <= nc == current@.len() == cur.len(),
            cur == current@.map_values(|c: CurrentVersion| c@),
            distinct_current(cur),
            forall|n: Seq<char>|
                #[trigger] open@.contains_key(n) <==> (has_current(cur, n) && !has_incoming(inc, n)),
            closes@ == closed_ids(cur.subrange(0, k as int), inc),
        decreases nc - k,
    {
        let ghost nk = cur[k as int].0;
        assert(cur.subrange(0, k + 1).drop_last() =~= cur.subrange(0, k as int));
        assert(has_current(cur, nk));
        if open.contains_key(current[k].n_number.as_str()) {
            closes.push(current[k].id);
        }
        k = k + 1;
    }
    assert(cur.subrange(0, nc as int) =~= cur);
    assert(actions@ =~= scd_actions(cur, inc));
    ScdPlan { actions, closes }
}

/// No two current rows share a row id (the table's primary key).
pub open spec fn distinct_ids(cur: CurrentView) -> bool {
    forall|a: int, b: int|
        0 <= a < cur.len() && 0 <= b < cur.len() && a != b ==> #[trigger] cur[a].1
            != #[trigger] cur[b].1
}

/// Incoming row `i` is the first of its N-number.
pub open spec fn is_first(inc: IncomingView, i: int) -> bool {
    !has_incoming(inc.subrange(0, i), inc[i].0)
}

/// Current row `k` is neither closed nor replaced by the plan.
pub open spec fn stays(cur: CurrentView, inc: IncomingView, k: int) -> bool {
    &&& !closed_ids(cur, inc).contains(cur[k].1)
    &&& !exists|i: int|
        0 <= i < inc.len() && #[trigger] action_of(cur, inc, i) == (ScdAction::Changed {
            close_id: cur[k].1,
        })
}

/// Incoming row `i` is inserted as a current row by the plan.
pub open spec fn inserted(cur: CurrentView, inc: IncomingView, i: int) -> bool {
    action_of(cur, inc, i) is New || action_of(cur, inc, i) is Changed
}

proof fn lemma_closed_ids(cur: CurrentView, inc: IncomingView, id: i64)
    ensures
        closed_ids(cur, inc).contains(id) <==> exists|k: int|
            0 <= k < cur.len() && #[trigger] cur[k].1 == id && !has_incoming(inc, cur[k].0),
    decreases cur.len(),
{
    if cur.len() > 0 {
        let prev = cur.drop_last();
        lemma_closed_ids(prev, inc, id);
        let c = closed_ids(cur, inc);
        let pc = closed_ids(prev, inc);
        let last = cur.len() - 1;
        if c.contains(id) {
            let j = choose|j: int| 0 <= j < c.len() && c[j] == id;
            if j < pc.len() {
                assert(pc[j] == id);
                let k = choose|k: int|
                    0 <= k < prev.len() && #[trigger] prev[k].1 == id && !has_incoming(inc, prev[k].0);
                assert(cur[k].1 == id);
            } else {
                assert(cur[last].1 == id);
            }
        }
        if exists|k: int|
            0 <= k < cur.len() && #[trigger] cur[k].1 == id && !has_incoming(inc, cur[k].0) {
            let k = choose|k: int|
                0 <= k < cur.len() && #[trigger] cur[k].1 == id && !has_incoming(inc, cur[k].0);
            if k < last {
                assert(prev[k].1 == id);
                let j = choose|j: int| 0 <= j < pc.len() && pc[j] == id;
                assert(c[j] == id);
            } else {
                assert(c[c.len() - 1] == id);
            }
        }
    }
}

proof fn lemma_first_occurrence(inc: IncomingView, n: Seq<char>)
    requires
        has_incoming(inc, n),
    ensures
        exists|i: int| 0 <= i < inc.len() && #[trigger] inc[i].0 == n && is_first(inc, i),
    decreases inc.len(),
{
    let prev = inc.drop_last();
    if has_incoming(prev, n) {
        lemma_first_occurrence(prev, n);
        let i = choose|i: int| 0 <= i < prev.len() && #[trigger] prev[i].0 == n && is_first(prev, i);
        assert(prev.subrange(0, i) =~= inc.subrange(0, i));
        assert(inc[i].0 == n);
    } else {
        let i = inc.len() - 1;
        let j = choose|j: int| 0 <= j < inc.len() && #[trigger] inc[j].0 == n;
        if j < i {
            assert(prev[j].0 == n);
        }
        assert(prev =~= inc.subrange(0, i));
        assert(inc[i].0 == n);
    }
}

/// Two first occurrences with the same N-number are the same row.
proof fn lemma_first_unique(inc: IncomingView, i1: int, i2: int)
    requires
        0 <= i1 < inc.len(),
        0 <= i2 < inc.len(),
        inc[i1].0 == inc[i2].0,
        is_first(inc, i1),
        is_first(inc, i2),
    ensures
        i1 == i2,
{
    if i1 < i2 {
        assert(inc.subrange(0, i2)[i1].0 == inc[i2].0);
    } else if i2 < i1 {
        assert(inc.subrange(0, i1)[i2].0 == inc[i1].0);
    }
}

proof fn lemma_current_index(cur: CurrentView, k: int)
    requires
        distinct_current(cur),
        0 <= k < cur.len(),
    ensures
        has_current(cur, cur[k].0),
        current_index(cur, cur[k].0) == k,
{
    assert(has_current(cur, cur[k].0));
    let j = current_index(cur, cur[k].0);
    assert(cur[j].0 == cur[k].0);
}

/// After an SCD pass, every N-number of the dump has exactly one current row and
/// no other N-number has one: the rows that stay and the rows inserted together
/// cover exactly the dump's N-numbers, none twice, and each carries the state hash
/// of the dump's first row for that N-number.
pub proof fn lemma_scd_one_current_row_per_n_number(cur: CurrentView, inc: IncomingView)
    requires
        distinct_current(cur),
        distinct_ids(cur),
    ensures
        forall|n: Seq<char>|
            has_incoming(inc, n) <==> ((exists|k: int|
                0 <= k < cur.len() && stays(cur, inc, k) && #[trigger] cur[k].0 == n) || (exists|
                i: int,
            | 0 <= i < inc.len() && inserted(cur, inc, i) && #[trigger] inc[i].0 == n)),
        forall|i1: int, i2: int|
            0 <= i1 < inc.len() && 0 <= i2 < inc.len() && inserted(cur, inc, i1) && inserted(
                cur,
                inc,
                i2,
            ) && #[trigger] inc[i1].0 == #[trigger] inc[i2].0 ==> i1 == i2,
        forall|k: int, i: int|
            0 <= k < cur.len() && 0 <= i < inc.len() && stays(cur, inc, k) && inserted(cur, inc, i)
                ==> #[trigger] cur[k].0 != #[trigger] inc[i].0,
        forall|k: int|
            0 <= k < cur.len() && stays(cur, inc, k) ==> exists|i: int|
                0 <= i < inc.len() && is_first(inc, i) && #[trigger] inc[i].0 == cur[k].0
                    && inc[i].1 == cur[k].2,
        forall|i: int| 0 <= i < inc.len() && #[trigger] inserted(cur, inc, i) ==> is_first(inc, i),
{
    assert forall|k: int| 0 <= k < cur.len() && stays(cur, inc, k) implies exists|i: int|
        0 <= i < inc.len() && is_first(inc, i) && #[trigger] inc[i].0 == cur[k].0 && inc[i].1
            == cur[k].2 by {
        lemma_closed_ids(cur, inc, cur[k].1);
        lemma_current_index(cur, k);
        if !has_incoming(inc, cur[k].0) {
            assert(closed_ids(cur, inc).contains(cur[k].1));
        }
        lemma_first_occurrence(inc, cur[k].0);
        let i = choose|i: int| 0 <= i < inc.len() && #[trigger] inc[i].0 == cur[k].0 && is_first(inc, i);
        if inc[i].1 != cur[k].2 {
            assert(action_of(cur, inc, i) == (ScdAction::Changed { close_id: cur[k].1 }));
        }
    }
    assert forall|i: int| 0 <= i < inc.len() && #[trigger] inserted(cur, inc, i) implies is_first(
        inc,
        i,
    ) by {}
    assert forall|i1: int, i2: int|
        0 <= i1 < inc.len() && 0 <= i2 < inc.len() && inserted(cur, inc, i1) && inserted(
            cur,
            inc,
            i2,
        ) && #[trigger] inc[i1].0 == #[trigger] inc[i2].0 implies i1 == i2 by {
        lemma_first_unique(inc, i1, i2);
    }
    assert forall|k: int, i: int|
        0 <= k < cur.len() && 0 <= i < inc.len() && stays(cur, inc, k) && inserted(cur, inc, i)
            implies #[trigger] cur[k].0 != #[trigger] inc[i].0 by {
        if cur[k].0 == inc[i].0 {
            lemma_current_index(cur, k);
            if action_of(cur, inc, i) is Changed {
                assert(action_of(cur, inc, i) == (ScdAction::Changed { close_id: cur[k].1 }));
            }
        }
    }
    assert forall|n: Seq<char>|
        has_incoming(inc, n) <==> ((exists|k: int|
            0 <= k < cur.len() && stays(cur, inc, k) && #[trigger] cur[k].0 == n) || (exists|i: int|
            0 <= i < inc.len() && inserted(cur, inc, i) && #[trigger] inc[i].0 == n)) by {
        if has_incoming(inc, n) {
            lemma_first_occurrence(inc, n);
            let i = choose|i: int| 0 <= i < inc.len() && #[trigger] inc[i].0 == n && is_first(inc, i);
            if !inserted(cur, inc, i) {
                // the first row of `n` is unchanged: its current row stays
                let k = current_index(cur, n);
                assert(cur[k].0 == n);
                lemma_current_index(cur, k);
                lemma_closed_ids(cur, inc, cur[k].1);
                if closed_ids(cur, inc).contains(cur[k].1) {
                    let k2 = choose|k2: int|
                        0 <= k2 < cur.len() && #[trigger] cur[k2].1 == cur[k].1 && !has_incoming(
                            inc,
                            cur[k2].0,
                        );
                    assert(k2 == k);
                }
                if exists|i2: int|
                    0 <= i2 < inc.len() && #[trigger] action_of(cur, inc, i2) == (ScdAction::Changed {
                        close_id: cur[k].1,
                    }) {
                    let i2 = choose|i2: int|
                        0 <= i2 < inc.len() && #[trigger] action_of(cur, inc, i2) == (
                        ScdAction::Changed { close_id: cur[k].1 });
                    let k2 = current_index(cur, inc[i2].0);
                    assert(cur[k2].0 == inc[i2].0);
                    assert(k2 == k);
                    lemma_first_unique(inc, i, i2);
                }
                assert(stays(cur, inc, k));
            }
        }
        if exists|k: int| 0 <= k < cur.len() && stays(cur, inc, k) && #[trigger] cur[k].0 == n {
            let k = choose|k: int| 0 <= k < cur.len() && stays(cur, inc, k) && #[trigger] cur[k].0 == n;
            lemma_closed_ids(cur, inc, cur[k].1);
            if !has_incoming(inc, n) {
                assert(closed_ids(cur, inc).contains(cur[k].1));
            }
        }
    }
}

/// Re-running a pass on the dump it already applied writes nothing: when the
/// current rows are exactly the dump's first rows (same N-numbers, same hashes),
/// every row is unchanged or a duplicate and no row is closed.
pub proof fn lemma_scd_rerun_is_noop(cur: CurrentView, inc: IncomingView)
    requires
        distinct_current(cur),
        forall|n: Seq<char>| has_current(cur, n) <==> has_incoming(inc, n),
        forall|k: int, i: int|
            0 <= k < cur.len() && 0 <= i < inc.len() && #[trigger] cur[k].0 == #[trigger] inc[i].0
                && is_first(inc, i) ==> cur[k].2 == inc[i].1,
    ensures
        forall|i: int|
            0 <= i < inc.len() ==> #[trigger] action_of(cur, inc, i) == ScdAction::Unchanged
                || action_of(cur, inc, i) == ScdAction::Duplicate,
        closed_ids(cur, inc).len() == 0,
{
    assert forall|i: int| 0 <= i < inc.len() implies #[trigger] action_of(cur, inc, i)
        == ScdAction::Unchanged || action_of(cur, inc, i) == ScdAction::Duplicate by {
        let n = inc[i].0;
        assert(has_incoming(inc, n));
        if !has_incoming(inc.subrange(0, i), n) {
            let k = current_index(cur, n);
            assert(cur[k].0 == n);
        }
    }
    lemma_no_closes(cur, inc);
}

proof fn lemma_no_closes(cur: CurrentView, inc: IncomingView)
    requires
        forall|n: Seq<char>| has_current(cur, n) ==> has_incoming(inc, n),
    ensures
        closed_ids(cur, inc).len() == 0,
    decreases cur.len(),
{
    if cur.len() > 0 {
        let prev = cur.drop_last();
        assert forall|n: Seq<char>| has_current(prev, n) implies has_incoming(inc, n) by {
            let k = choose|k: int| 0 <= k < prev.len() && #[trigger] prev[k].0 == n;
            assert(cur[k].0 == n);
        }
        lemma_no_closes(prev, inc);
        assert(has_current(cur, cur.last().0));
    }
}

} // verus!
