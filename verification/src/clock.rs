//! The clock timestamps are read from, and the pinned timeline a
//! reproducible fixture is seeded on.
//!
//! Instants are nanoseconds since the Unix epoch. A [`Clock`] either reads
//! the wall clock or is *pinned*: it then returns the next instant of a
//! fixed timeline and advances it by one step per read, so the same sequence
//! of reads produces the same timestamps every time. Advancing rather than
//! frozen keeps rows that are ordered by their stamps in seeding order.

use vstd::prelude::*;

verus! {

/// What `chrono` renders for the UTC instant `secs` seconds and `nanos`
/// nanoseconds after the epoch with `DateTime::to_rfc3339`.
pub uninterp spec fn rfc3339(secs: i64, nanos: u32) -> Seq<char>;

/// Nanoseconds in a second.
pub const NANOS_PER_SEC: i128 = 1_000_000_000;

/// The first second of the year 1 and the last second of the year 9999:
/// the span of instants a timestamp column holds.
pub const MIN_SECS: i64 = -62_135_596_800;
pub const MAX_SECS: i64 = 253_402_300_799;

/// Reads the wall clock with `chrono::Utc::now`, as whole seconds and the
/// nanoseconds within the second. Nothing is promised of the value read.
#[verifier::external_body]
fn utc_now_parts() -> (r: (i64, u32)) {
    let now = chrono::Utc::now();
    (now.timestamp(), now.timestamp_subsec_nanos())
}

/// Reads the wall clock with `chrono::Utc::now` and renders it with
/// `DateTime::to_rfc3339`. Nothing is promised of the instant read.
#[verifier::external_body]
fn utc_now_rfc3339() -> String {
    chrono::Utc::now().to_rfc3339()
}

/// Calls `chrono::DateTime::from_timestamp` and renders the instant with
/// `to_rfc3339`. `from_timestamp` returns `None` only for an out-of-range
/// second count or an invalid nanosecond count, so within the years 1 to
/// 9999 and below a second of nanoseconds it succeeds; the text is named
/// `rfc3339` of the two arguments.
#[verifier::external_body]
fn format_rfc3339(secs: i64, nanos: u32) -> (r: Option<String>)
    ensures
        MIN_SECS <= secs <= MAX_SECS && nanos < 1_000_000_000 ==> r is Some,
        r matches Some(s) ==> s@ == rfc3339(secs, nanos),
{
    chrono::DateTime::from_timestamp(secs, nanos).map(|d| d.to_rfc3339())
}

/// The whole seconds of an instant given in nanoseconds since the epoch
/// (rounded toward negative infinity).
pub open spec fn secs_of(t: i128) -> int {
    (t as int) / 1_000_000_000
}

/// The nanoseconds within the second of an instant.
pub open spec fn nanos_of(t: i128) -> int {
    (t as int) % 1_000_000_000
}

/// An instant a timestamp column can hold: its second lies in the years 1
/// to 9999.
pub open spec fn representable(t: i128) -> bool {
    MIN_SECS <= secs_of(t) <= MAX_SECS
}

/// The RFC 3339 text of an instant.
pub open spec fn spec_rfc3339_of(t: i128) -> Seq<char> {
    rfc3339(secs_of(t) as i64, nanos_of(t) as u32)
}

/// Split an instant into its second and the nanoseconds within it.
fn split_instant(t: i128) -> (r: (i64, u32))
    requires
        representable(t),
    ensures
        r.0 == secs_of(t),
        r.1 == nanos_of(t),
{
    let ghost d: int = 1_000_000_000;
    if t >= 0 {
        let s = t / NANOS_PER_SEC;
        let n = t % NANOS_PER_SEC;
        (s as i64, n as u32)
    } else {
        let u: i128 = -t;
        let q = u / NANOS_PER_SEC;
        let m = u % NANOS_PER_SEC;
        proof {
            vstd::arithmetic::div_mod::lemma_fundamental_div_mod(u as int, d);
        }
        if m == 0 {
            proof {
                vstd::arithmetic::div_mod::lemma_fundamental_div_mod_converse(t as int, d, -(q as int), 0);
            }
            ((-q) as i64, 0u32)
        } else {
            proof {
                vstd::arithmetic::div_mod::lemma_fundamental_div_mod_converse(
                    t as int, d, -(q as int) - 1, d - m);
            }
            ((-q - 1) as i64, (NANOS_PER_SEC - m) as u32)
        }
    }
}

/// Render an instant (nanoseconds since the epoch) in the RFC 3339
/// spelling every timestamp column uses.
pub fn rfc3339_of(t: i128) -> (r: String)
    requires
        representable(t),
    ensures
        r@ == spec_rfc3339_of(t),
{
    let (s, n) = split_instant(t);
    match format_rfc3339(s, n) {
        Some(x) => x,
        None => String::new(),
    }
}

/// A pinned timeline: the instant the next read returns and the step it
/// then advances by, in nanoseconds.
#[derive(Debug, Clone, Copy, PartialEq, Eq, Structural)]
pub struct Timeline {
    pub next: i128,
    pub step: i128,
}

/// A clock: the wall clock (`pinned` is `None`), or a pinned timeline.
#[derive(Debug, Clone, Copy, PartialEq, Eq, Structural)]
pub struct Clock {
    pub pinned: Option<Timeline>,
}

/// A clock can be read: a pinned timeline's next instant is representable
/// and one more step stays in range.
pub open spec fn readable(c: Clock) -> bool {
    c.pinned matches Some(p) ==> representable(p.next) && i128::MIN <= p.next + p.step <= i128::MAX
}

/// The clock after one read.
pub open spec fn advanced(c: Clock) -> Clock {
    match c.pinned {
        None => c,
        Some(p) => Clock { pinned: Some(Timeline { next: (p.next + p.step) as i128, step: p.step }) },
    }
}

impl Clock {
    /// The wall clock.
    pub fn wall() -> (c: Clock)
        ensures
            c.pinned is None,
    {
        Clock { pinned: None }
    }
}

/// The current instant. Reads the wall clock unless the clock is pinned, in
/// which case it returns the next instant on the pinned timeline and
/// advances it by one step.
pub fn now(clock: &mut Clock) -> (t: i128)
    requires
        readable(*old(clock)),
    ensures
        *final(clock) == advanced(*old(clock)),
        old(clock).pinned matches Some(p) ==> t == p.next,
{
    match clock.pinned {
        None => {
            let (s, n) = utc_now_parts();
            (s as i128) * NANOS_PER_SEC + (n as i128)
        },
        Some(p) => {
            clock.pinned = Some(Timeline { next: p.next + p.step, step: p.step });
            p.next
        },
    }
}

/// The current instant in RFC 3339. On a pinned clock it is the timeline's
/// next instant, and the timeline advances; on the wall clock nothing is
/// promised of the instant read.
pub fn now_rfc3339(clock: &mut Clock) -> (r: String)
    requires
        readable(*old(clock)),
    ensures
        *final(clock) == advanced(*old(clock)),
        old(clock).pinned matches Some(p) ==> r@ == spec_rfc3339_of(p.next),
{
    match clock.pinned {
        None => utc_now_rfc3339(),
        Some(p) => {
            clock.pinned = Some(Timeline { next: p.next + p.step, step: p.step });
            rfc3339_of(p.next)
        },
    }
}

/// Pin the clock to `start`, advancing `step` per read.
pub fn pin(clock: &mut Clock, start: i128, step: i128)
    ensures
        final(clock).pinned == Some(Timeline { next: start, step }),
{
    clock.pinned = Some(Timeline { next: start, step });
}

/// Give the clock the wall clock back.
pub fn unpin(clock: &mut Clock)
    ensures
        final(clock).pinned is None,
{
    clock.pinned = None;
}

/// The instant a pinned timeline returns on its `k`-th read (counting from 0).
pub open spec fn nth_instant(start: i128, step: i128, k: nat) -> int {
    start + k * step
}

/// The clock after `k` reads.
pub open spec fn after_reads(c: Clock, k: nat) -> Clock
    decreases k,
{
    if k == 0 {
        c
    } else {
        advanced(after_reads(c, (k - 1) as nat))
    }
}

/// A pinned clock advances one step per read: after `k` reads of a clock
/// pinned at `start` with `step`, the timeline stands at `start + k*step`
/// (so the next read returns it) — whatever the wall clock says. Two runs
/// of the same reads on the same pin therefore read the same instants.
pub proof fn lemma_pinned_clock_steps(start: i128, step: i128, k: nat)
    requires
        forall|j: nat| j <= k ==> i128::MIN <= #[trigger] nth_instant(start, step, j) <= i128::MAX,
    ensures
        after_reads(Clock { pinned: Some(Timeline { next: start, step }) }, k).pinned
            == Some(Timeline { next: nth_instant(start, step, k) as i128, step }),
    decreases k,
{
    if k > 0 {
        lemma_pinned_clock_steps(start, step, (k - 1) as nat);
        let j = (k - 1) as nat;
        assert(start + j * step + step == start + k * step) by (nonlinear_arith)
            requires
                j + 1 == k,
        ;
        assert(i128::MIN <= nth_instant(start, step, k) <= i128::MAX);
    }
}

} // verus!
