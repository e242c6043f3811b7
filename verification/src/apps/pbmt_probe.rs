//! A companion for measurements of the other side: it answers a flag and keeps
//! a counter moving, without any protocol.

use vstd::prelude::*;

verus! {

/// Where the cells start in the window.
pub const SHM_SCRATCH_OFF: usize = 0x1_8700;

/// The flag that the other side raises.
pub const FLAG_OFF: usize = 0x600;

/// The answer: a mark, then the flag.
pub const ACK_OFF: usize = 0x680;

/// The counter: a number, then the time.
pub const CNT_OFF: usize = 0x6c0;

/// High half of a flag: "PBMT".
pub const REQ_PREFIX: u64 = 0x5042_4d54;

/// The mark of an answer: "PBMT_ACK".
pub const ACK_MAGIC: u64 = 0x5042_4d54_5f41_434b;

/// Nothing is written in this many milliseconds after the start.
pub const WRITE_GATE_MS: u64 = 3000;

/// Microseconds between two steps of the counter.
pub const PERIOD_US: u64 = 100;

/// A 64-bit store into a cell.
#[derive(Debug, Clone, Copy, PartialEq, Eq, Structural)]
pub struct Store {
    /// Offset from the start of the cells.
    pub off: usize,
    /// The value.
    pub value: u64,
}

/// Whether the first stores still have to wait, `elapsed` ticks after the
/// start.
pub fn gated(elapsed: u64, freq: u32) -> (r: bool)
    ensures
        r == (elapsed < 3000 * freq / 1000),
{
    elapsed < WRITE_GATE_MS * freq as u64 / 1000
}

/// The stores that clear what an earlier run left.
pub fn reset() -> (r: Vec<Store>)
    ensures
        r@ == seq![
            Store { off: FLAG_OFF, value: 0 },
            Store { off: ACK_OFF, value: 0 },
            Store { off: (ACK_OFF + 8) as usize, value: 0 },
        ],
{
    let r = vec![
        Store { off: FLAG_OFF, value: 0 },
        Store { off: ACK_OFF, value: 0 },
        Store { off: ACK_OFF + 8, value: 0 },
    ];
    assert(r@ =~= seq![r@[0], r@[1], r@[2]]);
    r
}

/// The probe.
#[derive(Debug, Clone, Copy, PartialEq, Eq, Structural)]
pub struct Probe {
    /// Number of the last step.
    pub seq: u64,
    /// When the next step is due.
    pub next: u64,
    /// Ticks between two steps.
    pub period: u64,
    /// When the last line was logged.
    pub last_log: u64,
    /// Ticks between two lines.
    pub log_every: u64,
}

/// A flag asks for an answer.
pub open spec fn asks(flag: u64) -> bool {
    flag / 0x1_0000_0000 == REQ_PREFIX
}

impl Probe {
    /// The probe, with a clock of `freq` Hz.
    pub fn new(now: u64, freq: u32) -> (r: Self)
        ensures
            r == (Probe {
                seq: 0,
                next: now,
                period: (100 * freq / 1_000_000) as u64,
                last_log: now,
                log_every: (10 * freq) as u64,
            }),
    {
        Probe {
            seq: 0,
            next: now,
            period: PERIOD_US * freq as u64 / 1_000_000,
            last_log: now,
            log_every: 10 * freq as u64,
        }
    }

    /// A step starts: the counter moves on. The flag is read after the stores.
    pub fn step(&mut self, now: u64) -> (r: Vec<Store>)
        requires
            old(self).seq < u64::MAX,
        ensures
            *final(self) == (Probe { seq: (old(self).seq + 1) as u64, ..*old(self) }),
            r@ == seq![
                Store { off: CNT_OFF, value: (old(self).seq + 1) as u64 },
                Store { off: (CNT_OFF + 8) as usize, value: now },
            ],
    {
        self.seq = self.seq + 1;
        let r = vec![
            Store { off: CNT_OFF, value: self.seq },
            Store { off: CNT_OFF + 8, value: now },
        ];
        assert(r@ =~= seq![r@[0], r@[1]]);
        r
    }

    /// The stores for a flag: where it asks, the mark, the flag itself, and then
    /// the flag is cleared.
    pub fn reply(&self, flag: u64) -> (r: Vec<Store>)
        ensures
            r@ == if asks(flag) {
                seq![
                    Store { off: ACK_OFF, value: ACK_MAGIC },
                    Store { off: (ACK_OFF + 8) as usize, value: flag },
                    Store { off: FLAG_OFF, value: 0 },
                ]
            } else {
                seq![]
            },
    {
        let mut r: Vec<Store> = Vec::new();
        if flag / 0x1_0000_0000 == REQ_PREFIX {
            r.push(Store { off: ACK_OFF, value: ACK_MAGIC });
            r.push(Store { off: ACK_OFF + 8, value: flag });
            r.push(Store { off: FLAG_OFF, value: 0 });
            assert(r@ =~= seq![r@[0], r@[1], r@[2]]);
        } else {
            assert(r@ =~= seq![]);
        }
        r
    }

    /// The step is over: the next one is due a period after this one was.
    pub fn due(&mut self) -> (r: u64)
        ensures
            r == (old(self).next + old(self).period) % 0x1_0000_0000_0000_0000,
            *final(self) == (Probe { next: r, ..*old(self) }),
    {
        self.next = self.next.wrapping_add(self.period);
        self.next
    }

    /// Whether a line is logged now: ten seconds after the last one.
    pub fn log_due(&mut self, now: u64) -> (r: bool)
        ensures
            r == ((now - old(self).last_log) % 0x1_0000_0000_0000_0000 >= old(self).log_every),
            *final(self) == (Probe {
                last_log: if r {
                    now
                } else {
                    old(self).last_log
                },
                ..*old(self)
            }),
    {
        if now.wrapping_sub(self.last_log) >= self.log_every {
            self.last_log = now;
            true
        } else {
            false
        }
    }
}

/// The cells after some stores.
pub open spec fn stored(cells: Map<usize, u64>, stores: Seq<Store>) -> Map<usize, u64>
    decreases stores.len(),
{
    if stores.len() == 0 {
        cells
    } else {
        stored(cells, stores.drop_last()).insert(stores.last().off, stores.last().value)
    }
}

/// An answered flag is consumed: after the stores the flag asks no more, and the
/// answer holds the flag that was asked with, so that a late answer to another
/// one is told apart.
pub proof fn law_answered_once(cells: Map<usize, u64>, flag: u64)
    requires
        asks(flag),
    ensures
        ({
            let after = stored(
                cells,
                seq![
                    Store { off: ACK_OFF, value: ACK_MAGIC },
                    Store { off: (ACK_OFF + 8) as usize, value: flag },
                    Store { off: FLAG_OFF, value: 0 },
                ],
            );
            &&& after[ACK_OFF] == ACK_MAGIC
            &&& after[(ACK_OFF + 8) as usize] == flag
            &&& !asks(after[FLAG_OFF])
        }),
{
    let s = seq![
        Store { off: ACK_OFF, value: ACK_MAGIC },
        Store { off: (ACK_OFF + 8) as usize, value: flag },
        Store { off: FLAG_OFF, value: 0 },
    ];
    reveal_with_fuel(stored, 4);
    assert(s.drop_last().drop_last().drop_last() =~= seq![]);
    assert(s.drop_last().last() == s[1]);
    assert(s.drop_last().drop_last().last() == s[0]);
}

} // verus!
