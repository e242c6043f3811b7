//! Received bytes, and waiting for one.

use vstd::prelude::*;

verus! {

/// Slots of the buffer; at most one less are filled.
pub const BUF_SIZE: usize = 256;

/// A ring of received bytes.
pub struct RxRing {
    buf: [u8; 256],
    head: u16,
    tail: u16,
    has_waker: bool,
}

impl View for RxRing {
    type V = Seq<u8>;

    /// The bytes, oldest first.
    closed spec fn view(&self) -> Seq<u8> {
        let len = if self.head >= self.tail {
            self.head - self.tail
        } else {
            256 - self.tail + self.head
        };
        Seq::new(
            len as nat,
            |i: int|
                self.buf@[if self.tail + i < 256 {
                    self.tail + i
                } else {
                    self.tail + i - 256
                }],
        )
    }
}

/// A task that waits for a byte.
#[derive(Debug, Clone, Copy, PartialEq, Eq, Structural)]
pub enum WaitForByte {
    /// A byte is there.
    Ready(u8),
    /// The task waits with its waker stored; the flag says that one stored
    /// before is to be dropped first.
    Pending(bool),
}

impl RxRing {
    /// Both positions are slots.
    pub closed spec fn wf(&self) -> bool {
        self.head < 256 && self.tail < 256
    }

    /// A waker is stored.
    pub closed spec fn waiting(&self) -> bool {
        self.has_waker
    }

    /// An empty ring.
    pub fn new() -> (r: RxRing)
        ensures
            r.wf(),
            r@ == Seq::<u8>::empty(),
            !r.waiting(),
    {
        let r = RxRing { buf: [0u8; 256], head: 0, tail: 0, has_waker: false };
        proof {
            assert(r@ =~= Seq::<u8>::empty());
        }
        r
    }

    /// The number of bytes.
    pub fn rx_len(&self) -> (r: usize)
        requires
            self.wf(),
        ensures
            r == self@.len(),
            r < 256,
    {
        if self.head >= self.tail {
            (self.head - self.tail) as usize
        } else {
            (256 - self.tail + self.head) as usize
        }
    }

    /// Whether a byte is there.
    pub fn has_byte(&self) -> (r: bool)
        requires
            self.wf(),
        ensures
            r == (self@.len() > 0),
    {
        self.rx_len() > 0
    }

    /// Takes the oldest byte.
    pub fn pop_byte(&mut self) -> (r: Option<u8>)
        requires
            old(self).wf(),
        ensures
            final(self).wf(),
            final(self).waiting() == old(self).waiting(),
            match r {
                Some(b) => old(self)@.len() > 0 && b == old(self)@[0] && final(self)@ == old(
                    self,
                )@.skip(1),
                None => old(self)@.len() == 0 && final(self)@ == old(self)@,
            },
    {
        if self.tail == self.head {
            return None;
        }
        let b: u8 = self.buf[self.tail as usize];
        self.tail = if self.tail == 255 {
            0
        } else {
            self.tail + 1
        };
        proof {
            assert(self@ =~= old(self)@.skip(1));
        }
        Some(b)
    }

    /// Adds a byte; one that does not fit is dropped.
    pub fn push_byte(&mut self, byte: u8)
        requires
            old(self).wf(),
        ensures
            final(self).wf(),
            final(self).waiting() == old(self).waiting(),
            final(self)@ == (if old(self)@.len() < 255 {
                old(self)@.push(byte)
            } else {
                old(self)@
            }),
    {
        let next: u16 = if self.head == 255 {
            0
        } else {
            self.head + 1
        };
        if next == self.tail {
            return;
        }
        self.buf[self.head as usize] = byte;
        self.head = next;
        proof {
            assert(self@ =~= old(self)@.push(byte));
        }
    }

    /// The waiting task is polled: a byte is taken, or the waker is stored.
    pub fn poll(&mut self) -> (r: WaitForByte)
        requires
            old(self).wf(),
        ensures
            final(self).wf(),
            if old(self)@.len() > 0 {
                &&& r == WaitForByte::Ready(old(self)@[0])
                &&& final(self)@ == old(self)@.skip(1)
                &&& final(self).waiting() == old(self).waiting()
            } else {
                &&& r == WaitForByte::Pending(old(self).waiting())
                &&& final(self)@ == old(self)@
                &&& final(self).waiting()
            },
    {
        match self.pop_byte() {
            Some(b) => WaitForByte::Ready(b),
            None => {
                let stale = self.has_waker;
                self.has_waker = true;
                WaitForByte::Pending(stale)
            },
        }
    }

    /// A byte came after the waker was stored: it is taken instead, and the
    /// waker is to be dropped.
    pub fn poll_again(&mut self) -> (r: Option<u8>)
        requires
            old(self).wf(),
            old(self).waiting(),
        ensures
            final(self).wf(),
            match r {
                Some(b) => old(self)@.len() > 0 && b == old(self)@[0] && final(self)@ == old(
                    self,
                )@.skip(1) && !final(self).waiting(),
                None => old(self)@.len() == 0 && final(self)@ == old(self)@ && final(self).waiting(),
            },
    {
        match self.pop_byte() {
            Some(b) => {
                self.has_waker = false;
                Some(b)
            },
            None => None,
        }
    }

    /// Bytes came: `true` when the stored waker is to be woken, which takes it.
    pub fn notify_from_isr(&mut self) -> (r: bool)
        requires
            old(self).wf(),
        ensures
            final(self).wf(),
            final(self)@ == old(self)@,
            r == old(self).waiting(),
            !final(self).waiting(),
    {
        let woken = self.has_waker;
        self.has_waker = false;
        woken
    }
}

} // verus!
