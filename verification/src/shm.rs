//! The shared window: a busy flag and a fixed number of channels.

use crate::channel::{Chan, Channel, ChannelId, InvalidChannelId, Receiver, Sender, MAGIC, VERSION};
use crate::message::Message;
use vstd::prelude::*;

verus! {

/// The shared window as a mathematical value.
#[verifier::ext_equal]
pub struct Window {
    /// The server is awake and looks at the channels by itself.
    pub busy: bool,
    /// The channels.
    pub channels: Seq<Chan>,
}

impl Window {
    /// The window with channel `i` replaced.
    pub open spec fn with(self, i: int, c: Chan) -> Window {
        Window { busy: self.busy, channels: self.channels.update(i, c) }
    }
}

/// The first `n` channels of a window have been set up.
pub open spec fn set_up(w: Window, n: int) -> bool {
    forall|i: int| 0 <= i < n ==> (#[trigger] w.channels[i]).valid()
}

/// The shared window with `N` channels.
pub struct SharedMemory<const N: usize> {
    busy: bool,
    channels: Vec<Channel>,
}

impl<const N: usize> View for SharedMemory<N> {
    type V = Window;

    closed spec fn view(&self) -> Window {
        Window {
            busy: self.busy,
            channels: Seq::new(self.channels@.len(), |i: int| self.channels@[i]@),
        }
    }
}

impl<const N: usize> SharedMemory<N> {
    /// There are `N` channels, each well formed.
    pub closed spec fn wf(&self) -> bool {
        &&& self.channels@.len() == N
        &&& forall|i: int| 0 <= i < N ==> (#[trigger] self.channels@[i]).wf()
    }

    /// The number of channels is the window's size.
    pub proof fn lemma_count(&self)
        requires
            self.wf(),
        ensures
            self@.channels.len() == N,
            forall|i: int|
                0 <= i < N ==> (#[trigger] self@.channels[i]).queue.len()
                    <= crate::channel::CHANNEL_CAPACITY - 1,
    {
        assert forall|i: int| 0 <= i < N implies (#[trigger] self@.channels[i]).queue.len()
            <= crate::channel::CHANNEL_CAPACITY - 1 by {
            self.channels@[i].lemma_bound();
        }
    }

    /// A window of empty channels, not busy.
    pub fn new() -> (r: Self)
        ensures
            r.wf(),
            !r@.busy,
            r@.channels == Seq::new(
                N as nat,
                |i: int| Chan { magic: MAGIC, version: VERSION, queue: Seq::empty() },
            ),
    {
        let mut channels: Vec<Channel> = Vec::new();
        let mut i: usize = 0;
        while i < N
            invariant
                i <= N,
                channels@.len() == i,
                forall|j: int|
                    0 <= j < i ==> (#[trigger] channels@[j]).wf() && channels@[j]@ == (Chan {
                        magic: MAGIC,
                        version: VERSION,
                        queue: Seq::empty(),
                    }),
            decreases N - i,
        {
            channels.push(Channel::new());
            i = i + 1;
        }
        let r = SharedMemory { busy: false, channels };
        proof {
            assert(r@.channels =~= Seq::new(
                N as nat,
                |i: int| Chan { magic: MAGIC, version: VERSION, queue: Seq::empty() },
            ));
        }
        r
    }

    /// Whether every channel has been set up.
    pub fn is_valid(&self) -> (r: bool)
        requires
            self.wf(),
        ensures
            r == (forall|i: int| 0 <= i < N ==> (#[trigger] self@.channels[i]).valid()),
            r == set_up(self@, N as int),
    {
        let mut i: usize = 0;
        while i < N
            invariant
                i <= N,
                self.channels@.len() == N,
                forall|j: int| 0 <= j < i ==> (#[trigger] self@.channels[j]).valid(),
            decreases N - i,
        {
            if !self.channels[i].is_valid() {
                proof {
                    assert(!self@.channels[i as int].valid());
                }
                return false;
            }
            i = i + 1;
        }
        true
    }

    /// Sets every channel up, drops every queued message and clears the busy
    /// flag.
    pub fn init(&mut self)
        requires
            old(self).wf(),
        ensures
            final(self).wf(),
            !final(self)@.busy,
            final(self)@.channels == Seq::new(
                N as nat,
                |i: int| Chan { magic: MAGIC, version: VERSION, queue: Seq::empty() },
            ),
    {
        self.busy = false;
        let mut i: usize = 0;
        while i < N
            invariant
                i <= N,
                !self.busy,
                self.wf(),
                forall|j: int|
                    0 <= j < i ==> (#[trigger] self.channels@[j])@ == (Chan {
                        magic: MAGIC,
                        version: VERSION,
                        queue: Seq::empty(),
                    }),
            decreases N - i,
        {
            let ghost before = self.channels@;
            self.channels[i].init();
            proof {
                assert forall|j: int| 0 <= j < N implies (#[trigger] self.channels@[j]).wf() by {
                    assert(before[j].wf());
                }
            }
            i = i + 1;
        }
        proof {
            assert(self@.channels =~= Seq::new(
                N as nat,
                |i: int| Chan { magic: MAGIC, version: VERSION, queue: Seq::empty() },
            ));
        }
    }

    /// The number of channels.
    pub fn channel_count(&self) -> (r: usize)
        ensures
            r == N,
    {
        N
    }

    /// Says that the server is awake.
    pub fn set_busy(&mut self)
        ensures
            old(self).wf() ==> final(self).wf(),
            final(self)@ == (Window { busy: true, ..old(self)@ }),
    {
        self.busy = true;
    }

    /// Says that the server may be asleep.
    pub fn clear_busy(&mut self)
        ensures
            old(self).wf() ==> final(self).wf(),
            final(self)@ == (Window { busy: false, ..old(self)@ }),
    {
        self.busy = false;
    }

    /// Whether the server is awake.
    pub fn is_busy(&self) -> (r: bool)
        ensures
            r == self@.busy,
    {
        self.busy
    }

    /// The sending end of channel `id`.
    pub fn sender(&mut self, id: ChannelId) -> (r: Result<Sender<'_>, InvalidChannelId>)
        requires
            old(self).wf(),
        ensures
            match r {
                Ok(tx) => {
                    &&& id.spec_get() < N
                    &&& tx.target().wf()
                    &&& tx.target()@ == old(self)@.channels[id.spec_get() as int]
                    &&& final(self)@ == old(self)@.with(
                        id.spec_get() as int,
                        final(tx.target())@,
                    )
                    &&& final(tx.target()).wf() ==> final(self).wf()
                },
                Err(e) => id.spec_get() >= N && *final(self) == *old(self),
            },
    {
        let i: usize = id.get() as usize;
        if i < N {
            let ghost before = *self;
            let tx = Sender::new(&mut self.channels[i]);
            proof {
                assert(before.channels@[i as int].wf());
                assert(Seq::new(
                    before.channels@.len(),
                    |j: int| before.channels@.update(i as int, *final(tx.target()))[j]@,
                ) =~= before@.channels.update(i as int, final(tx.target())@));
                assert forall|j: int| 0 <= j < N && final(tx.target()).wf() implies (
                #[trigger] before.channels@.update(i as int, *final(tx.target()))[j]).wf() by {
                    assert(before.channels@[j].wf());
                }
            }
            Ok(tx)
        } else {
            Err(InvalidChannelId)
        }
    }

    /// The receiving end of channel `id`.
    pub fn receiver(&mut self, id: ChannelId) -> (r: Result<Receiver<'_>, InvalidChannelId>)
        requires
            old(self).wf(),
        ensures
            match r {
                Ok(rx) => {
                    &&& id.spec_get() < N
                    &&& rx.target().wf()
                    &&& rx.target()@ == old(self)@.channels[id.spec_get() as int]
                    &&& final(self)@ == old(self)@.with(
                        id.spec_get() as int,
                        final(rx.target())@,
                    )
                    &&& final(rx.target()).wf() ==> final(self).wf()
                },
                Err(e) => id.spec_get() >= N && *final(self) == *old(self),
            },
    {
        let i: usize = id.get() as usize;
        if i < N {
            let ghost before = *self;
            let rx = Receiver::new(&mut self.channels[i]);
            proof {
                assert(before.channels@[i as int].wf());
                assert(Seq::new(
                    before.channels@.len(),
                    |j: int| before.channels@.update(i as int, *final(rx.target()))[j]@,
                ) =~= before@.channels.update(i as int, final(rx.target())@));
                assert forall|j: int| 0 <= j < N && final(rx.target()).wf() implies (
                #[trigger] before.channels@.update(i as int, *final(rx.target()))[j]).wf() by {
                    assert(before.channels@[j].wf());
                }
            }
            Ok(rx)
        } else {
            Err(InvalidChannelId)
        }
    }

    /// Channel `id`.
    pub fn channel_unchecked(&self, id: ChannelId) -> (r: &Channel)
        requires
            self.wf(),
            id.spec_get() < N,
        ensures
            r.wf(),
            r@ == self@.channels[id.spec_get() as int],
    {
        let i: usize = id.get() as usize;
        proof {
            assert(self.channels@[i as int].wf());
        }
        &self.channels[i]
    }

    /// Replaces channel `id`.
    pub fn put_channel(&mut self, id: ChannelId, channel: Channel)
        requires
            old(self).wf(),
            id.spec_get() < N,
            channel.wf(),
        ensures
            final(self).wf(),
            final(self)@ == old(self)@.with(id.spec_get() as int, channel@),
    {
        let i: usize = id.get() as usize;
        let ghost before = *self;
        self.channels[i] = channel;
        proof {
            assert(self@.channels =~= before@.channels.update(i as int, channel@));
            assert forall|j: int| 0 <= j < N implies (#[trigger] self.channels@[j]).wf() by {
                assert(before.channels@[j].wf());
            }
        }
    }
}

/// Takes the oldest message of channel `id`, as an interrupt handler does.
pub fn recv_from_interrupt<const N: usize>(shm: &mut SharedMemory<N>, id: ChannelId) -> (r: Option<
    Message,
>)
    requires
        old(shm).wf(),
        id.spec_get() < N,
    ensures
        final(shm).wf(),
        ({
            let c = old(shm)@.channels[id.spec_get() as int];
            match r {
                Some(m) => c.valid() && c.queue.len() > 0 && m@ == c.queue[0] && final(shm)@ == old(
                    shm,
                )@.with(id.spec_get() as int, c.with(c.queue.skip(1))),
                None => (!c.valid() || c.queue.len() == 0) && final(shm)@ == old(shm)@,
            }
        }),
{
    proof {
        shm.lemma_count();
        let i = id.spec_get() as int;
        assert(shm@.channels.update(i, shm@.channels[i]) =~= shm@.channels);
    }
    match shm.receiver(id) {
        Ok(mut rx) => rx.try_recv(),
        Err(_) => None,
    }
}

/// Whether channel `id` has a message, as an interrupt handler asks.
pub fn has_pending_interrupt<const N: usize>(shm: &SharedMemory<N>, id: ChannelId) -> (r: bool)
    requires
        shm.wf(),
        id.spec_get() < N,
    ensures
        r == (shm@.channels[id.spec_get() as int].valid()
            && shm@.channels[id.spec_get() as int].queue.len() > 0),
{
    shm.channel_unchecked(id).has_pending()
}

} // verus!
