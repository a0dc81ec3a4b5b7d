//! What opening the databases decides: which catalog names get a view in a
//! user connection, what a truncating WAL checkpoint achieved, and when a
//! long write window stops to give the WAL back.

use vstd::prelude::*;
use crate::text::{str_eq, cat3};
use crate::seqs::{lemma_filter_push, lemma_take_push};

verus! {

/// How many rows each ingest-dependent seed wrote.
#[derive(Debug, Clone, Copy, PartialEq, Eq, Structural)]
pub struct IngestSeeds {
    /// Rows written to `set_aliases`.
    pub set_aliases: usize,
    /// Rows written to `catalog_price_overrides`.
    pub catalog_prices: usize,
}

/// What one truncating WAL checkpoint achieved.
#[derive(Debug, Clone, Copy, PartialEq, Eq, Structural)]
pub struct WalCheckpoint {
    /// The WAL was restarted from frame 0 and the file truncated.
    pub reset: bool,
    /// Frames in the WAL when the checkpoint ran; `-1` outside WAL mode.
    pub wal_frames: i64,
    /// Frames copied into the database file.
    pub checkpointed: i64,
}

/// Read the row `PRAGMA wal_checkpoint(TRUNCATE)` returns — `(busy, log,
/// checkpointed)` — as a checkpoint report: reset exactly when it was not
/// blocked.
pub fn checkpoint_report(busy: i64, log: i64, checkpointed: i64) -> (r: WalCheckpoint)
    ensures
        r == (WalCheckpoint { reset: busy == 0, wal_frames: log, checkpointed }),
{
    WalCheckpoint { reset: busy == 0, wal_frames: log, checkpointed }
}

/// The production reclaim period, in milliseconds.
pub const RECLAIM_EVERY_MS: u64 = 5000;

/// Drives truncating checkpoints from inside a long write loop, at most
/// once a period. Times are milliseconds on a monotonic clock the caller
/// reads.
#[derive(Debug, Clone, Copy, PartialEq, Eq, Structural)]
pub struct WalReclaim {
    pub period_ms: u64,
    pub last_ms: u64,
}

/// Milliseconds elapsed since `last`, as `Instant::elapsed` measures them:
/// never negative.
pub open spec fn elapsed(last: u64, now: u64) -> int {
    if now >= last {
        now - last
    } else {
        0
    }
}

impl WalReclaim {
    /// Start at the production period, counted from `now_ms`: the first
    /// reclaim is a whole period away, so a short loop never checkpoints.
    pub fn new(now_ms: u64) -> (r: WalReclaim)
        ensures
            r.period_ms == RECLAIM_EVERY_MS,
            r.last_ms == now_ms,
    {
        WalReclaim::every(RECLAIM_EVERY_MS, now_ms)
    }

    /// As [`WalReclaim::new`], with the period named.
    pub fn every(period_ms: u64, now_ms: u64) -> (r: WalReclaim)
        ensures
            r.period_ms == period_ms,
            r.last_ms == now_ms,
    {
        WalReclaim { period_ms, last_ms: now_ms }
    }

    /// Whether the period has elapsed at `now_ms`, so a checkpoint is due.
    pub fn due(&self, now_ms: u64) -> (r: bool)
        ensures
            r == (elapsed(self.last_ms, now_ms) >= self.period_ms),
    {
        let e = if now_ms >= self.last_ms {
            now_ms - self.last_ms
        } else {
            0
        };
        e >= self.period_ms
    }

    /// Record a checkpoint that finished at `now_ms`: the next one is dated
    /// from after it, not from the deadline it passed.
    pub fn checked(&mut self, now_ms: u64)
        ensures
            final(self).last_ms == now_ms,
            final(self).period_ms == old(self).period_ms,
    {
        self.last_ms = now_ms;
    }
}

/// After a checkpoint finishes, none is due again until a whole period has
/// passed since it.
pub proof fn lemma_reclaim_waits_a_period(r: WalReclaim, now: u64, later: u64)
    requires
        r.last_ms == now,
        later < now + r.period_ms,
        r.period_ms > 0,
    ensures
        !(elapsed(r.last_ms, later) >= r.period_ms),
{
}

/// A catalog name that gets a view in a user connection: not one of
/// SQLite's own, and not one the collection itself declares (a view would
/// shade the collection's own table).
pub open spec fn gets_view(main_names: Seq<String>, name: Seq<char>) -> bool {
    &&& !(name.len() >= 7 && name.take(7) == "sqlite_"@)
    &&& forall|i: int| 0 <= i < main_names.len() ==> (#[trigger] main_names[i])@ != name
}

pub open spec fn gets_view_p(main_names: Seq<String>) -> spec_fn(String) -> bool {
    |n: String| gets_view(main_names, n@)
}

fn is_internal(name: &str) -> (r: bool)
    ensures
        r == (name@.len() >= 7 && name@.take(7) == "sqlite_"@),
{
    let cs = crate::text::chars_of(name);
    let pre = crate::text::chars_of("sqlite_");
    proof {
        reveal_strlit("sqlite_");
    }
    if cs.len() < 7 {
        return false;
    }
    let mut i: usize = 0;
    while i < 7
        invariant
            cs@ == name@,
            pre@ == "sqlite_"@,
            pre@.len() == 7,
            cs@.len() >= 7,
            i <= 7,
            forall|k: int| 0 <= k < i ==> cs@[k] == pre@[k],
        decreases 7 - i,
    {
        if cs[i] != pre[i] {
            assert(name@.take(7)[i as int] != "sqlite_"@[i as int]);
            return false;
        }
        i = i + 1;
    }
    assert(name@.take(7) =~= "sqlite_"@);
    true
}

fn declared_in(main_names: &Vec<String>, name: &str) -> (r: bool)
    ensures
        r == exists|i: int| 0 <= i < main_names@.len() && (#[trigger] main_names@[i])@ == name@,
{
    let mut i: usize = 0;
    while i < main_names.len()
        invariant
            i <= main_names@.len(),
            forall|k: int| 0 <= k < i ==> (#[trigger] main_names@[k])@ != name@,
        decreases main_names.len() - i,
    {
        if str_eq(main_names[i].as_str(), name) {
            return true;
        }
        i = i + 1;
    }
    false
}

/// The catalog names (its tables and views, in catalog order) that get a
/// `TEMP VIEW` in a user connection whose main database declares
/// `main_names`.
pub fn catalog_views(shared_names: &Vec<String>, main_names: &Vec<String>) -> (r: Vec<String>)
    ensures
        r@ == shared_names@.filter(gets_view_p(main_names@)),
{
    let mut out: Vec<String> = Vec::new();
    let mut i: usize = 0;
    while i < shared_names.len()
        invariant
            i <= shared_names@.len(),
            out@ == shared_names@.take(i as int).filter(gets_view_p(main_names@)),
        decreases shared_names.len() - i,
    {
        proof {
            lemma_take_push(shared_names@, i as int);
            lemma_filter_push(shared_names@.take(i as int), shared_names@[i as int], gets_view_p(main_names@));
        }
        let n = shared_names[i].as_str();
        if !is_internal(n) && !declared_in(main_names, n) {
            out.push(shared_names[i].clone());
        }
        i = i + 1;
    }
    assert(shared_names@.take(shared_names@.len() as int) =~= shared_names@);
    out
}

/// The statement that exposes catalog name `name` unqualified:
/// `CREATE TEMP VIEW IF NOT EXISTS "name" AS SELECT * FROM shared."name";`.
pub fn view_sql(name: &str) -> (r: String)
    ensures
        r@ == "CREATE TEMP VIEW IF NOT EXISTS \""@ + name@ + "\" AS SELECT * FROM shared.\""@ + name@
            + "\";"@,
{
    let a = cat3("CREATE TEMP VIEW IF NOT EXISTS \"", name, "\" AS SELECT * FROM shared.\"");
    cat3(a.as_str(), name, "\";")
}

} // verus!
