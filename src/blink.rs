//! The decisions of the blink loop: which level the output pin takes next,
//! what status to report, and how long to hold the level. Driving the pin,
//! writing the status and waiting are left to the caller, which runs the
//! loop forever.
use vstd::prelude::*;

verus! {

/// A logical level of the digital output.
#[derive(Clone, Copy, Debug, PartialEq, Eq, Structural)]
pub enum Level {
    Low,
    High,
}

/// The other level.
pub open spec fn inverted(l: Level) -> Level {
    match l {
        Level::Low => Level::High,
        Level::High => Level::Low,
    }
}

impl Level {
    /// The level after a toggle.
    pub fn toggled(self) -> (r: Level)
        ensures
            r == inverted(self),
    {
        match self {
            Level::Low => Level::High,
            Level::High => Level::Low,
        }
    }
}

/// What to report after a transition: the light went on (with the number of
/// on phases so far where they are counted), or it went off.
#[derive(Clone, Copy, Debug, PartialEq, Eq)]
pub enum Status {
    On(Option<u32>),
    Off,
}

/// One pass of the loop: drive the pin to `level`, report `status`, then
/// hold for `wait_ms` milliseconds.
#[derive(Clone, Copy, Debug)]
pub struct Step {
    pub level: Level,
    pub status: Status,
    pub wait_ms: u32,
}

/// The loop's state: the pin's current level, the level that lights the
/// LED (its polarity), whether on phases are counted, how many have been,
/// and the time each level is held.
#[derive(Clone, Copy, Debug)]
pub struct Blinker {
    level: Level,
    on_level: Level,
    counting: bool,
    on_phases: u32,
    interval_ms: u32,
}

impl Blinker {
    pub closed spec fn level_spec(self) -> Level {
        self.level
    }

    pub closed spec fn on_level_spec(self) -> Level {
        self.on_level
    }

    pub closed spec fn counting_spec(self) -> bool {
        self.counting
    }

    pub closed spec fn on_phases_spec(self) -> u32 {
        self.on_phases
    }

    pub closed spec fn interval_spec(self) -> u32 {
        self.interval_ms
    }

    /// Whether the next transition lights the LED.
    pub open spec fn next_is_on(self) -> bool {
        inverted(self.level_spec()) == self.on_level_spec()
    }

    /// Whether the next transition can be taken: only a counted on phase
    /// needs room left in the counter.
    pub open spec fn can_step(self) -> bool {
        !(self.counting_spec() && self.next_is_on() && self.on_phases_spec() == u32::MAX)
    }

    /// The state after one transition.
    pub closed spec fn next(self) -> Blinker {
        Blinker {
            level: inverted(self.level),
            on_phases: if self.counting && self.next_is_on() {
                (self.on_phases + 1) as u32
            } else {
                self.on_phases
            },
            ..self
        }
    }

    /// The status reported by the transition out of this state.
    pub open spec fn next_status(self) -> Status {
        if self.next_is_on() {
            if self.counting_spec() {
                Status::On(Some((self.on_phases_spec() + 1) as u32))
            } else {
                Status::On(None)
            }
        } else {
            Status::Off
        }
    }

    /// A loop that starts at the pin's present level `initial`, treats
    /// `on_level` as lit, counts on phases when `counting` holds, and holds
    /// each level for `interval_ms` milliseconds.
    pub fn new(initial: Level, on_level: Level, counting: bool, interval_ms: u32) -> (b: Blinker)
        ensures
            b.level_spec() == initial,
            b.on_level_spec() == on_level,
            b.counting_spec() == counting,
            b.on_phases_spec() == 0,
            b.interval_spec() == interval_ms,
    {
        Blinker { level: initial, on_level, counting, on_phases: 0, interval_ms }
    }

    /// The pin's current level.
    pub fn level(&self) -> (r: Level)
        ensures
            r == self.level_spec(),
    {
        self.level
    }

    /// The number of on phases counted so far.
    pub fn on_phases(&self) -> (r: u32)
        ensures
            r == self.on_phases_spec(),
    {
        self.on_phases
    }

    /// Whether another transition can be taken.
    pub fn has_next(&self) -> (r: bool)
        ensures
            r == self.can_step(),
    {
        !(self.counting && self.level.toggled() == self.on_level && self.on_phases == u32::MAX)
    }

    /// Takes one transition: the pin goes to the other level, an on phase
    /// is counted when counting is on, and the step says what to report and
    /// how long to hold.
    pub fn step(&mut self) -> (s: Step)
        requires
            old(self).can_step(),
        ensures
            *final(self) == old(self).next(),
            final(self).level_spec() == inverted(old(self).level_spec()),
            final(self).on_level_spec() == old(self).on_level_spec(),
            final(self).counting_spec() == old(self).counting_spec(),
            final(self).interval_spec() == old(self).interval_spec(),
            final(self).on_phases_spec() == if old(self).counting_spec() && old(self).next_is_on() {
                old(self).on_phases_spec() + 1
            } else {
                old(self).on_phases_spec() as int
            },
            s.level == final(self).level_spec(),
            s.status == old(self).next_status(),
            s.wait_ms == old(self).interval_spec(),
    {
        let level = self.level.toggled();
        let lit = level == self.on_level;
        self.level = level;
        let status = if lit {
            if self.counting {
                self.on_phases = self.on_phases + 1;
                Status::On(Some(self.on_phases))
            } else {
                Status::On(None)
            }
        } else {
            Status::Off
        };
        Step { level, status, wait_ms: self.interval_ms }
    }
}

/// The state after `k` transitions from `b`.
pub open spec fn run(b: Blinker, k: nat) -> Blinker
    decreases k,
{
    if k == 0 {
        b
    } else {
        run(b, (k - 1) as nat).next()
    }
}

/// What one transition keeps and what it changes.
proof fn lemma_next(b: Blinker)
    ensures
        b.next().level_spec() == inverted(b.level_spec()),
        b.next().on_level_spec() == b.on_level_spec(),
        b.next().counting_spec() == b.counting_spec(),
        b.next().interval_spec() == b.interval_spec(),
        b.next().on_phases_spec() == if b.counting_spec() && b.next_is_on() {
            (b.on_phases_spec() + 1) as u32
        } else {
            b.on_phases_spec()
        },
{
}

/// Two toggles give back the level they started from.
pub proof fn lemma_toggle_twice(l: Level)
    ensures
        inverted(inverted(l)) == l,
{
}

/// After any two consecutive transitions the pin is back at the level it
/// had before them, whatever level it started at.
pub proof fn lemma_period_two(b: Blinker)
    ensures
        b.next().next().level_spec() == b.level_spec(),
        b.next().level_spec() != b.level_spec(),
{
    lemma_next(b);
    lemma_next(b.next());
}

/// After `k` transitions the pin is at its starting level when `k` is even
/// and at the other level when `k` is odd; the polarity, the counting mode
/// and the interval never change, and the count never falls and grows by at
/// most one per transition.
pub proof fn lemma_run(b: Blinker, k: nat)
    ensures
        run(b, k).level_spec() == if k % 2 == 0 {
            b.level_spec()
        } else {
            inverted(b.level_spec())
        },
        run(b, k).on_level_spec() == b.on_level_spec(),
        run(b, k).counting_spec() == b.counting_spec(),
        run(b, k).interval_spec() == b.interval_spec(),
        b.counting_spec() && b.on_phases_spec() + k <= u32::MAX ==> b.on_phases_spec()
            <= run(b, k).on_phases_spec() <= b.on_phases_spec() + k,
        !b.counting_spec() ==> run(b, k).on_phases_spec() == b.on_phases_spec(),
    decreases k,
{
    if k > 0 {
        lemma_run(b, (k - 1) as nat);
        lemma_next(run(b, (k - 1) as nat));
    }
}

/// The loop has no final state: from any state, every transition of the
/// first `k + 1` can be taken. Where on phases are counted, this holds while
/// the counter has room for them.
pub proof fn lemma_never_halts(b: Blinker, k: nat)
    requires
        b.counting_spec() ==> b.on_phases_spec() + k < u32::MAX,
    ensures
        forall|i: nat| i <= k ==> #[trigger] run(b, i).can_step(),
{
    assert forall|i: nat| i <= k implies #[trigger] run(b, i).can_step() by {
        lemma_run(b, i);
    }
}

/// Where on phases are counted, every two transitions hold exactly one on
/// phase: after `2 * n` transitions the count has grown by exactly `n`,
/// while the counter has room.
pub proof fn lemma_counts_on_phases(b: Blinker, n: nat)
    requires
        b.counting_spec(),
        b.on_phases_spec() + n <= u32::MAX,
    ensures
        run(b, 2 * n).on_phases_spec() == b.on_phases_spec() + n,
        run(b, 2 * n).level_spec() == b.level_spec(),
    decreases n,
{
    if n > 0 {
        let m = (n - 1) as nat;
        lemma_counts_on_phases(b, m);
        let c = run(b, 2 * m);
        lemma_run(b, 2 * m);
        lemma_next(c);
        lemma_next(c.next());
        assert(run(b, 2 * m + 1) == c.next());
        assert(run(b, 2 * m + 2) == c.next().next());
        assert(2 * n == 2 * m + 2);
    }
}

} // verus!
