//! Counters and measurements that the other core can ask for.

use vstd::prelude::*;

verus! {

/// Messages processed.
pub const MSGS: u32 = 0;

/// Messages found after an interrupt woke the core.
pub const D1_IRQ_WAKE: u32 = 1;

/// Messages found while spinning.
pub const D2_SPIN_HIT: u32 = 2;

/// Messages found right after others.
pub const D3_BATCH_APPEND: u32 = 3;

/// Messages found in the last check before sleeping.
pub const D4_RACE_CLOSE: u32 = 4;

/// Spinning windows in which a doorbell rang.
pub const REDUNDANT_IRQ: u32 = 5;

/// Responses that could not be sent.
pub const RESP_FAIL: u32 = 6;

/// Times that the shared window was set up again.
pub const HEALS: u32 = 7;

/// Length of the last spinning window, in nanoseconds.
pub const WIN_LAST_NS: u32 = 8;

/// Length of the shortest spinning window; all ones before the first.
pub const WIN_MIN_NS: u32 = 9;

/// Length of the longest spinning window.
pub const WIN_MAX_NS: u32 = 10;

/// Spinning windows that ran out.
pub const WINDOWS: u32 = 11;

/// Time taken by the last message, in nanoseconds.
pub const SVC_LAST_NS: u32 = 12;

/// Shortest time taken by a message; all ones before the first.
pub const SVC_MIN_NS: u32 = 13;

/// Longest time taken by a message.
pub const SVC_MAX_NS: u32 = 14;

/// The clock.
pub const T_NOW: u32 = 15;

/// The frequency of the clock.
pub const FREQ_HZ: u32 = 16;

/// Violations seen by an ordering experiment.
pub const LIT_VIOL: u32 = 17;

/// Rounds of an ordering experiment.
pub const LIT_ROUNDS: u32 = 18;

/// State of an ordering experiment: 0 idle, 1 running, 2 done, 3 out of time.
pub const LIT_STATE: u32 = 19;

/// First of the four time stamps of the last dispatch.
pub const T_CH_ENTER: u32 = 20;

/// Time stamp: message taken.
pub const T_RECV_DONE: u32 = 21;

/// Time stamp: handler finished.
pub const T_HANDLE_DONE: u32 = 22;

/// Time stamp: response written.
pub const T_RESP_DONE: u32 = 23;

/// Number of counters with the measuring probes.
pub const COUNT_PROBE: u32 = 24;

/// Number of counters without the measuring probes.
pub const COUNT_PLAIN: u32 = 17;

/// The counters.
pub struct Stats {
    probe: bool,
    c: [u64; 24],
}

/// What the counters start with: zero, but all ones where a minimum is kept.
pub open spec fn initial() -> Seq<u64> {
    Seq::new(
        24,
        |i: int|
            if i == WIN_MIN_NS || i == SVC_MIN_NS {
                u64::MAX
            } else {
                0u64
            },
    )
}

impl View for Stats {
    type V = Seq<u64>;

    closed spec fn view(&self) -> Seq<u64> {
        self.c@
    }
}

/// What counters are read from besides the counters themselves.
#[derive(Clone, Copy)]
pub struct Readings {
    /// Responses that could not be sent.
    pub resp_fails: u64,
    /// The clock.
    pub now: u64,
    /// The frequency of the clock.
    pub freq_hz: u64,
    /// The four time stamps of the last dispatch.
    pub stamps: [u64; 4],
}

impl Stats {
    /// Whether the measuring probes are there.
    pub closed spec fn probes(&self) -> bool {
        self.probe
    }

    /// The number of counters that can be asked for.
    pub open spec fn spec_count(&self) -> u32 {
        if self.probes() {
            COUNT_PROBE
        } else {
            COUNT_PLAIN
        }
    }

    /// There are 24 counters.
    pub broadcast proof fn lemma_len(&self)
        ensures
            #[trigger] self@.len() == 24,
    {
    }

    /// The counters before anything happened.
    pub fn new(probe: bool) -> (r: Stats)
        ensures
            r.probes() == probe,
            r@ == initial(),
    {
        let mut c: [u64; 24] = [0u64; 24];
        c[9] = u64::MAX;
        c[13] = u64::MAX;
        proof {
            assert(c@ =~= initial());
        }
        Stats { probe, c }
    }

    /// The number of counters that can be asked for.
    pub fn count(&self) -> (r: u32)
        ensures
            r == self.spec_count(),
            r <= 24,
    {
        if self.probe {
            COUNT_PROBE
        } else {
            COUNT_PLAIN
        }
    }

    /// Adds one to counter `i`, modulo 2^64.
    pub fn bump(&mut self, i: u32)
        ensures
            final(self).probes() == old(self).probes(),
            final(self)@ == (if i < old(self).spec_count() {
                old(self)@.update(
                    i as int,
                    if old(self)@[i as int] == u64::MAX {
                        0
                    } else {
                        (old(self)@[i as int] + 1) as u64
                    },
                )
            } else {
                old(self)@
            }),
    {
        if i < self.count() {
            let v: u64 = self.c[i as usize];
            self.c[i as usize] = v.wrapping_add(1);
        }
    }

    /// Sets counter `i`.
    pub fn set(&mut self, i: u32, v: u64)
        ensures
            final(self).probes() == old(self).probes(),
            final(self)@ == (if i < old(self).spec_count() {
                old(self)@.update(i as int, v)
            } else {
                old(self)@
            }),
    {
        if i < self.count() {
            self.c[i as usize] = v;
        }
    }

    /// Lowers counter `i` to `v` where it is greater.
    pub fn min(&mut self, i: u32, v: u64)
        ensures
            final(self).probes() == old(self).probes(),
            final(self)@ == (if i < old(self).spec_count() && v < old(self)@[i as int] {
                old(self)@.update(i as int, v)
            } else {
                old(self)@
            }),
    {
        if i < self.count() {
            if v < self.c[i as usize] {
                self.c[i as usize] = v;
            }
        }
    }

    /// Raises counter `i` to `v` where it is less.
    pub fn max(&mut self, i: u32, v: u64)
        ensures
            final(self).probes() == old(self).probes(),
            final(self)@ == (if i < old(self).spec_count() && v > old(self)@[i as int] {
                old(self)@.update(i as int, v)
            } else {
                old(self)@
            }),
    {
        if i < self.count() {
            if v > self.c[i as usize] {
                self.c[i as usize] = v;
            }
        }
    }

    /// What counter `i` shows.
    pub open spec fn shown(&self, i: u32, from: Readings) -> u64 {
        if i >= self.spec_count() {
            0
        } else if i == RESP_FAIL {
            from.resp_fails
        } else if i == T_NOW {
            from.now
        } else if i == FREQ_HZ {
            from.freq_hz
        } else if i >= T_CH_ENTER {
            from.stamps@[i - T_CH_ENTER]
        } else {
            self@[i as int]
        }
    }

    /// What counter `i` shows; zero where there is no such counter. Failed
    /// responses, the clock, its frequency and the time stamps are kept
    /// elsewhere.
    pub fn get(&self, i: u32, from: &Readings) -> (r: u64)
        ensures
            r == self.shown(i, *from),
    {
        if i >= self.count() {
            0
        } else if i == RESP_FAIL {
            from.resp_fails
        } else if i == T_NOW {
            from.now
        } else if i == FREQ_HZ {
            from.freq_hz
        } else if i >= T_CH_ENTER {
            from.stamps[(i - T_CH_ENTER) as usize]
        } else {
            self.c[i as usize]
        }
    }

    /// Keeps the last, the shortest and the longest of a measurement in the
    /// three counters from `first` on.
    pub fn sample(&mut self, first: u32, v: u64)
        requires
            first + 2 < COUNT_PLAIN,
        ensures
            final(self).probes() == old(self).probes(),
            final(self)@ == sampled(old(self)@, first as int, v),
    {
        self.set(first, v);
        self.min(first + 1, v);
        self.max(first + 2, v);
        proof {
            assert(self@ =~= sampled(old(self)@, first as int, v));
        }
    }
}

/// The counters after a measurement `v` whose last, shortest and longest value
/// are kept from `first` on.
pub open spec fn sampled(c: Seq<u64>, first: int, v: u64) -> Seq<u64> {
    c.update(first, v).update(
        first + 1,
        if v < c[first + 1] {
            v
        } else {
            c[first + 1]
        },
    ).update(
        first + 2,
        if v > c[first + 2] {
            v
        } else {
            c[first + 2]
        },
    )
}

/// After any measurement the last lies between the shortest and the longest,
/// and no bound is ever loosened.
pub proof fn law_sample_bounds(c: Seq<u64>, first: int, v: u64)
    requires
        0 <= first,
        first + 2 < c.len(),
    ensures
        ({
            let d = sampled(c, first, v);
            &&& d[first] == v
            &&& d[first + 1] <= v <= d[first + 2]
            &&& d[first + 1] <= c[first + 1]
            &&& d[first + 2] >= c[first + 2]
        }),
{
}

} // verus!
