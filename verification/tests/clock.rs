use pkdump_db::clock::{now, now_rfc3339, pin, rfc3339_of, unpin, Clock};

fn at(s: &str) -> i128 {
    let t = chrono::DateTime::parse_from_rfc3339(s).unwrap();
    (t.timestamp() as i128) * 1_000_000_000 + t.timestamp_subsec_nanos() as i128
}

const MINUTE: i128 = 60 * 1_000_000_000;

#[test]
fn a_pinned_clock_advances_one_step_per_read() {
    let mut clock = Clock::wall();
    pin(&mut clock, at("2024-01-15T09:00:00Z"), MINUTE);
    assert_eq!(now_rfc3339(&mut clock), "2024-01-15T09:00:00+00:00");
    assert_eq!(now_rfc3339(&mut clock), "2024-01-15T09:01:00+00:00");
    assert_eq!(now_rfc3339(&mut clock), "2024-01-15T09:02:00+00:00");
    unpin(&mut clock);
}

#[test]
fn two_pinned_runs_read_the_same_instants() {
    let run = || {
        let mut clock = Clock::wall();
        pin(&mut clock, at("2024-01-15T09:00:00Z"), MINUTE);
        let out: Vec<String> = (0..8).map(|_| now_rfc3339(&mut clock)).collect();
        unpin(&mut clock);
        out
    };
    assert_eq!(run(), run());
}

#[test]
fn unpinning_gives_the_wall_clock_back() {
    let mut clock = Clock::wall();
    pin(&mut clock, at("2024-01-15T09:00:00Z"), MINUTE);
    unpin(&mut clock);
    let wall = chrono::Utc::now();
    let wall_ns = (wall.timestamp() as i128) * 1_000_000_000 + wall.timestamp_subsec_nanos() as i128;
    let read = now(&mut clock);
    assert!(
        (wall_ns - read).abs() < 60 * 1_000_000_000,
        "an unpinned clock must read the wall clock"
    );
}

#[test]
fn a_pinned_read_renders_the_instant_before_it() {
    // An instant before the epoch splits into a negative second and a
    // positive nanosecond count.
    assert_eq!(rfc3339_of(-1), "1969-12-31T23:59:59.999999999+00:00");
    assert_eq!(rfc3339_of(0), "1970-01-01T00:00:00+00:00");
}
