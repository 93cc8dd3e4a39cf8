//! A wall clock that never goes back: the system clock at the start, and a
//! monotonic clock from there on.
use crate::fix::time;
use crate::fix::time::UnixTime;
use vstd::prelude::*;

verus! {

/// `quanta::Clock`: a source of instants.
#[verifier::external_type_specification]
#[verifier::external_body]
pub struct ExClock(quanta::Clock);

/// `quanta::Instant`: a reading of a clock.
#[verifier::external_type_specification]
#[verifier::external_body]
pub struct ExInstant(quanta::Instant);

/// `quanta::Clock::new` sets a clock up; nothing is known of it.
pub assume_specification[ quanta::Clock::new ]() -> quanta::Clock;

/// `quanta::Clock::now` reads the clock; nothing is known of the instant.
pub assume_specification[ quanta::Clock::now ](clock: &quanta::Clock) -> quanta::Instant;

/// `quanta::Instant::duration_since`, as whole nanoseconds; nothing is known of
/// their number.
#[verifier::external_body]
fn nanos_between(start: quanta::Instant, end: quanta::Instant) -> (ns: u128) {
    end.duration_since(start).as_nanos()
}

/// The 64 low-order bits of a number of nanoseconds.
pub fn low_64_bits(ns: u128) -> (low: u64)
    ensures
        low == ns % 0x1_0000_0000_0000_0000,
{
    (ns % 0x1_0000_0000_0000_0000) as u64
}

/// Milliseconds since the Unix epoch, `delta_ns` nanoseconds after the clock
/// was started at `start_ms`; nothing where they exceed 64 bits.
pub open spec fn millis_after_spec(start_ms: u64, delta_ns: u64) -> Option<u64> {
    if start_ms + delta_ns / 1_000_000 <= u64::MAX {
        Some((start_ms + delta_ns / 1_000_000) as u64)
    } else {
        None
    }
}

pub fn millis_after(start_ms: u64, delta_ns: u64) -> (ms: Option<u64>)
    ensures
        ms == millis_after_spec(start_ms, delta_ns),
{
    start_ms.checked_add(delta_ns / 1_000_000)
}

/// Microseconds since the Unix epoch, `delta_ns` nanoseconds after the clock
/// was started at `start_ms`; nothing where they exceed 64 bits.
pub open spec fn micros_after_spec(start_ms: u64, delta_ns: u64) -> Option<u64> {
    if start_ms * 1000 + delta_ns / 1000 <= u64::MAX {
        Some((start_ms * 1000 + delta_ns / 1000) as u64)
    } else {
        None
    }
}

pub fn micros_after(start_ms: u64, delta_ns: u64) -> (us: Option<u64>)
    ensures
        us == micros_after_spec(start_ms, delta_ns),
{
    match start_ms.checked_mul(1000) {
        Some(start_us) => start_us.checked_add(delta_ns / 1000),
        None => None,
    }
}

/// The longer a clock has run, the later it shows, and never before its start.
pub proof fn law_clock_does_not_go_back(start_ms: u64, sooner_ns: u64, later_ns: u64)
    requires
        sooner_ns <= later_ns,
    ensures
        millis_after_spec(start_ms, later_ns) matches Some(later) ==> {
            &&& millis_after_spec(start_ms, sooner_ns) matches Some(sooner)
            &&& start_ms <= sooner <= later
        },
        micros_after_spec(start_ms, later_ns) matches Some(later) ==> {
            &&& micros_after_spec(start_ms, sooner_ns) matches Some(sooner)
            &&& start_ms * 1000 <= sooner <= later
        },
{
}

/// A wall clock that never goes back.
pub struct WallClock {
    clock: quanta::Clock,
    start: quanta::Instant,
    start_ms: u64,
}

impl WallClock {
    /// Milliseconds since the Unix epoch at the start of the clock.
    pub closed spec fn start_ms(self) -> u64 {
        self.start_ms
    }

    /// `res` is a clock that was started when the system clock showed `now`:
    /// there is one exactly if it showed an instant.
    pub open spec fn started(res: Option<WallClock>, now: Option<UnixTime>) -> bool {
        match now {
            Some(t) => res matches Some(c) && c.start_ms() == t.millis_spec()
                % 0x1_0000_0000_0000_0000,
            None => res is None,
        }
    }

    /// Starts at what the system clock showed.
    pub fn start_when(now: Option<UnixTime>) -> (res: Option<WallClock>)
        ensures
            WallClock::started(res, now),
    {
        let wall = now?;
        let clock = quanta::Clock::new();
        let start = clock.now();
        Some(WallClock { clock, start, start_ms: wall.millis() })
    }

    /// Starts at the system clock, unless that stands before the Unix epoch.
    pub fn start() -> (res: Option<WallClock>)
        ensures
            exists|now: Option<UnixTime>|
                time::is_reading(now) && #[trigger] WallClock::started(res, now),
    {
        WallClock::start_when(UnixTime::now())
    }

    /// Nanoseconds since the start, as their 64 low-order bits. How many they are
    /// is for the clock to say.
    fn elapsed_ns(&self) -> (ns: u64) {
        low_64_bits(nanos_between(self.start, self.clock.now()))
    }

    /// Milliseconds since the Unix epoch; nothing once they exceed 64 bits.
    pub fn now_ms(&self) -> (res: Option<u64>)
        ensures
            exists|delta_ns: u64| res == #[trigger] millis_after_spec(self.start_ms(), delta_ns),
    {
        let delta_ns: u64 = self.elapsed_ns();
        let res = millis_after(self.start_ms, delta_ns);
        assert(res == millis_after_spec(self.start_ms(), delta_ns));
        res
    }

    /// Microseconds since the Unix epoch; nothing once they exceed 64 bits.
    pub fn now_us(&self) -> (res: Option<u64>)
        ensures
            exists|delta_ns: u64| res == #[trigger] micros_after_spec(self.start_ms(), delta_ns),
    {
        let delta_ns: u64 = self.elapsed_ns();
        let res = micros_after(self.start_ms, delta_ns);
        assert(res == micros_after_spec(self.start_ms(), delta_ns));
        res
    }
}

/// The clock shows its start and the whole milliseconds, or microseconds, that passed
/// since, without a fraction; there is nothing to show only where that does not fit.
pub proof fn law_clock_counts_whole_units(start_ms: u64, delta_ns: u64)
    ensures
        millis_after_spec(start_ms, 0) == Some(start_ms),
        millis_after_spec(start_ms, delta_ns) matches Some(ms) ==> {
            &&& (ms - start_ms) * 1_000_000 <= delta_ns
            &&& delta_ns < (ms - start_ms + 1) * 1_000_000
        },
        micros_after_spec(start_ms, delta_ns) matches Some(us) ==> {
            &&& (us - start_ms * 1000) * 1000 <= delta_ns
            &&& delta_ns < (us - start_ms * 1000 + 1) * 1000
        },
        start_ms <= 0x7fff_ffff_ffff_ffff ==> millis_after_spec(start_ms, delta_ns) is Some,
        start_ms <= 0x3f_ffff_ffff_ffff ==> micros_after_spec(start_ms, delta_ns) is Some,
{
}

/// The two units tell the same time.
pub proof fn law_clock_units_agree(start_ms: u64, delta_ns: u64)
    ensures
        micros_after_spec(start_ms, delta_ns) matches Some(us) ==> millis_after_spec(
            start_ms,
            delta_ns,
        ) == Some((us / 1000) as u64),
{
    if let Some(us) = micros_after_spec(start_ms, delta_ns) {
        assert(us as int == start_ms * 1000 + delta_ns / 1000);
        assert((delta_ns / 1000) / 1000 == delta_ns / 1_000_000);
        assert((us as int) / 1000 == start_ms + (delta_ns / 1000) / 1000);
    }
}

/// A clock starts at the milliseconds that the system clock showed, and does not start
/// where that showed nothing.
pub proof fn law_clock_starts_at_the_wall_clock(res: Option<WallClock>, t: UnixTime)
    requires
        t.millis_spec() <= u64::MAX,
    ensures
        WallClock::started(res, None) <==> res is None,
        WallClock::started(res, Some(t)) <==> (res matches Some(c) && c.start_ms()
            == t.millis_spec()),
{
    let ms = t.millis_spec() as int;
    assert(0 <= ms ==> ms % 0x1_0000_0000_0000_0000 == ms);
}

} // verus!
