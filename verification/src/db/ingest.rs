//! The decisions of one ingest run: whether a dump is skipped, whether it is
//! refused as truncated, how the SCD passes are planned, and what the run reports.

use vstd::prelude::*;

use crate::db::scd::{
    action_of, closed_ids, distinct_current, has_current, has_incoming, plan_scd, scd_actions,
    CurrentVersion, CurrentView, IncomingVersion, IncomingView, ScdAction, ScdPlan,
};
use crate::model::{
    blake3_hex, dereg_tracked, hash_input, master_tracked, DeregRecord, MasterRecord, ParseError,
};
use crate::text::{decimal, push_decimal, push_str, text_of};

verus! {

/// `MASTER.txt` must have at least this many data rows unless told otherwise.
pub const DEFAULT_MIN_MASTER_ROWS: usize = 300000;

/// Where the FAA publishes the Releasable Aircraft database.
pub const DEFAULT_ZIP_URL: &'static str = "https://registry.faa.gov/database/ReleasableAircraft.zip";

/// The Safari-like User-Agent token that `registry.faa.gov` accepts.
pub const FAA_DOWNLOAD_USER_AGENT: &'static str =
    "Mozilla/5.0 (Macintosh; Intel Mac OS X 10_15_7) AppleWebKit/605.1.15 (KHTML, like Gecko) Version/17.4 Safari/605.1.15";

#[verifier::external_type_specification]
#[verifier::external_body]
pub struct ExPathBuf(std::path::PathBuf);

/// `std::path::PathBuf::from(s)`.
#[verifier::external_body]
fn path_from(s: &str) -> std::path::PathBuf {
    std::path::PathBuf::from(s)
}

/// How one ingest run reads the dump and where it writes.
#[derive(Debug)]
pub struct IngestOptions {
    pub db_path: std::path::PathBuf,
    pub zip_path: Option<std::path::PathBuf>,
    pub cache_dir: Option<std::path::PathBuf>,
    pub zip_url: String,
    pub min_master_rows: usize,
    pub force: bool,
    pub user_agent: String,
}

impl Default for IngestOptions {
    fn default() -> (r: Self)
        ensures
            r.zip_path is None,
            r.cache_dir is None,
            r.zip_url@ == DEFAULT_ZIP_URL@,
            r.min_master_rows == DEFAULT_MIN_MASTER_ROWS,
            !r.force,
            r.user_agent@ == FAA_DOWNLOAD_USER_AGENT@,
    {
        Self {
            db_path: path_from("data/faa-registry.sqlite"),
            zip_path: None,
            cache_dir: None,
            zip_url: crate::text::text_of(crate::text::chars_of(DEFAULT_ZIP_URL).as_slice()),
            min_master_rows: DEFAULT_MIN_MASTER_ROWS,
            force: false,
            user_agent: crate::text::text_of(
                crate::text::chars_of(FAA_DOWNLOAD_USER_AGENT).as_slice(),
            ),
        }
    }
}

/// What one ingest run did.
#[derive(Debug, Clone)]
pub struct IngestStats {
    pub source: String,
    pub zip_hash: String,
    pub master_rows: usize,
    pub new_rows: usize,
    pub changed_rows: usize,
    pub closed_rows: usize,
    pub unchanged_rows: usize,
    pub skipped_rows: usize,
    pub dereg_new: usize,
    pub dereg_changed: usize,
    pub dereg_closed: usize,
    pub documents_inserted: usize,
    pub dealer_rows: usize,
    pub reserved_rows: usize,
    pub skipped_same_zip: bool,
}

impl Default for IngestStats {
    fn default() -> (r: Self)
        ensures
            r.source@.len() == 0,
            r.zip_hash@.len() == 0,
            r.master_rows == 0,
            r.new_rows == 0,
            r.changed_rows == 0,
            r.closed_rows == 0,
            r.unchanged_rows == 0,
            r.skipped_rows == 0,
            r.dereg_new == 0,
            r.dereg_changed == 0,
            r.dereg_closed == 0,
            r.documents_inserted == 0,
            r.dealer_rows == 0,
            r.reserved_rows == 0,
            !r.skipped_same_zip,
    {
        IngestStats {
            source: String::new(),
            zip_hash: String::new(),
            master_rows: 0,
            new_rows: 0,
            changed_rows: 0,
            closed_rows: 0,
            unchanged_rows: 0,
            skipped_rows: 0,
            dereg_new: 0,
            dereg_changed: 0,
            dereg_closed: 0,
            documents_inserted: 0,
            dealer_rows: 0,
            reserved_rows: 0,
            skipped_same_zip: false,
        }
    }
}

/// A dump whose hash equals the last successful run's is skipped, unless forced.
pub fn skips_same_zip(force: bool, last_ok_zip_hash: Option<&str>, zip_hash: &str) -> (b: bool)
    ensures
        b == (!force && (last_ok_zip_hash matches Some(prev) && prev@ == zip_hash@)),
{
    if force {
        return false;
    }
    match last_ok_zip_hash {
        Some(prev) => crate::text::same_text(prev, zip_hash),
        None => false,
    }
}

/// Why a dump is refused as truncated: the error recorded on the failed run, and
/// the error the run ends with.
pub struct TruncatedDump {
    pub run_error: String,
    pub message: String,
}

pub open spec fn truncated_run_error(rows: nat, floor: nat) -> Seq<char> {
    "MASTER.txt has "@ + decimal(rows) + " data rows; refusing ingest below floor of "@
        + decimal(floor)
}

pub open spec fn truncated_message(rows: nat, floor: nat) -> Seq<char> {
    "MASTER.txt has "@ + decimal(rows) + " data rows; expected at least "@ + decimal(floor)
        + " (truncated dump?)"@
}

/// A `MASTER.txt` with fewer data rows than the floor is refused.
pub fn check_master_floor(master_rows: usize, min_master_rows: usize) -> (r: Result<(), TruncatedDump>)
    ensures
        r is Ok <==> master_rows >= min_master_rows,
        r matches Err(t) ==> t.run_error@ == truncated_run_error(
            master_rows as nat,
            min_master_rows as nat,
        ) && t.message@ == truncated_message(master_rows as nat, min_master_rows as nat),
{
    if master_rows >= min_master_rows {
        return Ok(());
    }
    let mut a: Vec<char> = Vec::new();
    push_str(&mut a, "MASTER.txt has ");
    push_decimal(&mut a, master_rows as u64);
    push_str(&mut a, " data rows; refusing ingest below floor of ");
    push_decimal(&mut a, min_master_rows as u64);
    let mut b: Vec<char> = Vec::new();
    push_str(&mut b, "MASTER.txt has ");
    push_decimal(&mut b, master_rows as u64);
    push_str(&mut b, " data rows; expected at least ");
    push_decimal(&mut b, min_master_rows as u64);
    push_str(&mut b, " (truncated dump?)");
    Err(TruncatedDump { run_error: text_of(a.as_slice()), message: text_of(b.as_slice()) })
}

/// Moves every quarantined row of `from` to the end of `into`, in order.
pub fn append_errors(into: &mut Vec<ParseError>, from: Vec<ParseError>)
    ensures
        final(into)@ == old(into)@ + from@,
{
    let mut from = from;
    into.append(&mut from);
}

/// The SCD key of each `MASTER.txt` record: its N-number and state hash.
pub fn master_incoming(records: &[MasterRecord]) -> (r: Vec<IncomingVersion>)
    ensures
        r@.len() == records@.len(),
        forall|i: int|
            0 <= i < records@.len() ==> (#[trigger] r@[i])@ == (
                records@[i].n_number@,
                blake3_hex(hash_input(master_tracked(records@[i]@))),
            ),
{
    let n = records.len();
    let mut out: Vec<IncomingVersion> = Vec::new();
    let mut i: usize = 0;
    while i < n
        invariant
            i <= n == records@.len(),
            out@.len() == i,
            forall|j: int|
                0 <= j < i ==> (#[trigger] out@[j])@ == (
                    records@[j].n_number@,
                    blake3_hex(hash_input(master_tracked(records@[j]@))),
                ),
        decreases n - i,
    {
        let rec = &records[i];
        let n_number = rec.n_number.clone();
        let state_hash = rec.state_hash();
        out.push(IncomingVersion { n_number, state_hash });
        i = i + 1;
    }
    out
}

/// The SCD key of each `DEREG.txt` record: its N-number and state hash.
pub fn dereg_incoming(records: &[DeregRecord]) -> (r: Vec<IncomingVersion>)
    ensures
        r@.len() == records@.len(),
        forall|i: int|
            0 <= i < records@.len() ==> (#[trigger] r@[i])@ == (
                records@[i].n_number@,
                blake3_hex(hash_input(dereg_tracked(records@[i]@))),
            ),
{
    let n = records.len();
    let mut out: Vec<IncomingVersion> = Vec::new();
    let mut i: usize = 0;
    while i < n
        invariant
            i <= n == records@.len(),
            out@.len() == i,
            forall|j: int|
                0 <= j < i ==> (#[trigger] out@[j])@ == (
                    records@[j].n_number@,
                    blake3_hex(hash_input(dereg_tracked(records@[j]@))),
                ),
        decreases n - i,
    {
        let rec = &records[i];
        let n_number = rec.n_number.clone();
        let state_hash = rec.state_hash();
        out.push(IncomingVersion { n_number, state_hash });
        i = i + 1;
    }
    out
}

/// How many actions of each kind a plan has, and how many rows it closes.
pub struct PlanCounts {
    pub new_rows: usize,
    pub changed_rows: usize,
    pub unchanged_rows: usize,
    pub closed_rows: usize,
}

pub open spec fn count_new(actions: Seq<ScdAction>) -> nat
    decreases actions.len(),
{
    if actions.len() == 0 {
        0
    } else {
        count_new(actions.drop_last()) + if actions.last() is New {
            1nat
        } else {
            0nat
        }
    }
}

pub open spec fn count_changed(actions: Seq<ScdAction>) -> nat
    decreases actions.len(),
{
    if actions.len() == 0 {
        0
    } else {
        count_changed(actions.drop_last()) + if actions.last() is Changed {
            1nat
        } else {
            0nat
        }
    }
}

pub open spec fn count_unchanged(actions: Seq<ScdAction>) -> nat
    decreases actions.len(),
{
    if actions.len() == 0 {
        0
    } else {
        count_unchanged(actions.drop_last()) + if actions.last() is Unchanged {
            1nat
        } else {
            0nat
        }
    }
}

proof fn lemma_counts_bounded(actions: Seq<ScdAction>)
    ensures
        count_new(actions) + count_changed(actions) + count_unchanged(actions) <= actions.len(),
    decreases actions.len(),
{
    if actions.len() > 0 {
        lemma_counts_bounded(actions.drop_last());
    }
}

/// The counts that a run reports for one SCD pass.
pub fn count_plan(plan: &ScdPlan) -> (c: PlanCounts)
    ensures
        c.new_rows == count_new(plan.actions@),
        c.changed_rows == count_changed(plan.actions@),
        c.unchanged_rows == count_unchanged(plan.actions@),
        c.closed_rows == plan.closes@.len(),
{
    let n = plan.actions.len();
    let mut c = PlanCounts {
        new_rows: 0,
        changed_rows: 0,
        unchanged_rows: 0,
        closed_rows: plan.closes.len(),
    };
    let mut i: usize = 0;
    while i < n
        invariant
            i <= n == plan.actions@.len(),
            c.new_rows == count_new(plan.actions@.subrange(0, i as int)),
            c.changed_rows == count_changed(plan.actions@.subrange(0, i as int)),
            c.unchanged_rows == count_unchanged(plan.actions@.subrange(0, i as int)),
            c.closed_rows == plan.closes@.len(),
        decreases n - i,
    {
        let ghost pre = plan.actions@.subrange(0, i as int);
        let ghost next = plan.actions@.subrange(0, i + 1);
        assert(next.drop_last() =~= pre);
        proof {
            lemma_counts_bounded(pre);
        }
        match plan.actions[i] {
            ScdAction::New => c.new_rows = c.new_rows + 1,
            ScdAction::Changed { .. } => c.changed_rows = c.changed_rows + 1,
            ScdAction::Unchanged => c.unchanged_rows = c.unchanged_rows + 1,
            ScdAction::Duplicate => {},
        }
        i = i + 1;
    }
    assert(plan.actions@.subrange(0, n as int) =~= plan.actions@);
    c
}


proof fn lemma_has_incoming_push(inc: IncomingView, x: (Seq<char>, Seq<char>), n: Seq<char>)
    ensures
        has_incoming(inc.push(x), n) <==> (has_incoming(inc, n) || x.0 == n),
{
    let q = inc.push(x);
    if has_incoming(inc, n) {
        let j = choose|j: int| 0 <= j < inc.len() && #[trigger] inc[j].0 == n;
        assert(q[j].0 == n);
    }
    if x.0 == n {
        assert(q[inc.len() as int].0 == n);
    }
    if has_incoming(q, n) {
        let j = choose|j: int| 0 <= j < q.len() && #[trigger] q[j].0 == n;
        if j < inc.len() {
            assert(inc[j].0 == n);
        }
    }
}

proof fn lemma_closed_ids_nothing_incoming(cur: CurrentView)
    ensures
        closed_ids(cur, Seq::empty()).len() == cur.len(),
    decreases cur.len(),
{
    if cur.len() > 0 {
        lemma_closed_ids_nothing_incoming(cur.drop_last());
    }
}

/// One more incoming row takes its N-number's current row, if it has one that no
/// earlier row took, off the closed list.
proof fn lemma_closed_ids_push(cur: CurrentView, inc: IncomingView, x: (Seq<char>, Seq<char>))
    requires
        distinct_current(cur),
    ensures
        closed_ids(cur, inc.push(x)).len() + (if has_current(cur, x.0) && !has_incoming(inc, x.0) {
            1int
        } else {
            0int
        }) == closed_ids(cur, inc).len(),
    decreases cur.len(),
{
    if cur.len() > 0 {
        let p = cur.drop_last();
        let c = cur.last();
        assert forall|a: int, b: int|
            0 <= a < p.len() && 0 <= b < p.len() && a != b implies #[trigger] p[a].0
            != #[trigger] p[b].0 by {
            assert(cur[a].0 != cur[b].0);
        }
        lemma_closed_ids_push(p, inc, x);
        lemma_has_incoming_push(inc, x, c.0);
        if has_current(cur, x.0) {
            let k = choose|k: int| 0 <= k < cur.len() && #[trigger] cur[k].0 == x.0;
            if k < p.len() {
                assert(p[k].0 == x.0);
            }
        }
        if has_current(p, x.0) {
            let k = choose|k: int| 0 <= k < p.len() && #[trigger] p[k].0 == x.0;
            assert(cur[k].0 == x.0);
            if c.0 == x.0 {
                assert(cur[k].0 != cur[cur.len() - 1].0);
            }
        }
        if c.0 == x.0 {
            assert(cur[cur.len() - 1].0 == x.0);
        }
    }
}

/// A pass accounts for every current row exactly once: as many current rows exist
/// as the pass leaves unchanged, replaces (changed) and closes together.
pub proof fn lemma_current_rows_accounted(cur: CurrentView, inc: IncomingView)
    requires
        distinct_current(cur),
    ensures
        count_changed(scd_actions(cur, inc)) + count_unchanged(scd_actions(cur, inc)) + closed_ids(
            cur,
            inc,
        ).len() == cur.len(),
    decreases inc.len(),
{
    if inc.len() == 0 {
        assert(inc =~= Seq::<(Seq<char>, Seq<char>)>::empty());
        lemma_closed_ids_nothing_incoming(cur);
    } else {
        let prev = inc.drop_last();
        let x = inc.last();
        assert(prev.push(x) =~= inc);
        lemma_current_rows_accounted(cur, prev);
        lemma_closed_ids_push(cur, prev, x);
        let acts = scd_actions(cur, inc);
        assert forall|i: int| 0 <= i < prev.len() implies #[trigger] acts.drop_last()[i]
            == scd_actions(cur, prev)[i] by {
            assert(inc.subrange(0, i) =~= prev.subrange(0, i));
        }
        assert(acts.drop_last() =~= scd_actions(cur, prev));
        let last = prev.len() as int;
        assert(inc.subrange(0, last) =~= prev);
        assert(acts.last() == action_of(cur, inc, last));
    }
}

/// How many different N-numbers `inc` holds: the rows whose N-number no earlier row has.
pub open spec fn distinct_n_numbers(inc: IncomingView) -> nat
    decreases inc.len(),
{
    if inc.len() == 0 {
        0
    } else {
        distinct_n_numbers(inc.drop_last()) + if has_incoming(inc.drop_last(), inc.last().0) {
            0nat
        } else {
            1nat
        }
    }
}

/// A pass reports each N-number of the dump once: the new, changed and unchanged
/// counts add up to the number of different N-numbers in the dump (later rows of an
/// N-number are duplicates and count nowhere).
pub proof fn lemma_incoming_rows_counted(cur: CurrentView, inc: IncomingView)
    ensures
        count_new(scd_actions(cur, inc)) + count_changed(scd_actions(cur, inc)) + count_unchanged(
            scd_actions(cur, inc),
        ) == distinct_n_numbers(inc),
    decreases inc.len(),
{
    if inc.len() > 0 {
        let prev = inc.drop_last();
        lemma_incoming_rows_counted(cur, prev);
        let acts = scd_actions(cur, inc);
        assert forall|i: int| 0 <= i < prev.len() implies #[trigger] acts.drop_last()[i]
            == scd_actions(cur, prev)[i] by {
            assert(inc.subrange(0, i) =~= prev.subrange(0, i));
        }
        assert(acts.drop_last() =~= scd_actions(cur, prev));
        let last = prev.len() as int;
        assert(inc.subrange(0, last) =~= prev);
        assert(acts.last() == action_of(cur, inc, last));
    }
}

} // verus!
