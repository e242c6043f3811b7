//! How the other core is woken.

use crate::chip::reg::RegWrite;
use vstd::prelude::*;

verus! {

/// A way to wake the other core. What was written to the shared window has to
/// be visible before the writes are made.
pub trait PeerNotifier {
    /// The device is there.
    spec fn ready(&self) -> bool;

    /// The writes that wake the other core.
    spec fn wake(&self) -> Seq<RegWrite>;

    /// The writes that wake the other core.
    fn notify(&self) -> (r: Vec<RegWrite>)
        requires
            self.ready(),
        ensures
            r@ == self.wake(),
    ;
}

/// A software interrupt of the other core.
pub struct ClintMsipNotifier {
    addr: u64,
}

impl ClintMsipNotifier {
    /// The register; 0 until it was found.
    pub closed spec fn at(&self) -> u64 {
        self.addr
    }

    /// A device that was not found yet.
    pub fn new() -> (r: Self)
        ensures
            r.at() == 0,
    {
        ClintMsipNotifier { addr: 0 }
    }

    /// The device that the driver serves.
    pub fn compatible(&self) -> (r: &'static str)
        ensures
            r@ == "ov,clint-msip-notifier"@,
    {
        "ov,clint-msip-notifier"
    }

    /// The device was found.
    pub fn probe(&mut self, addr: u64)
        ensures
            final(self).at() == addr,
    {
        self.addr = addr;
    }

    /// Whether the device was found.
    pub fn is_found(&self) -> (r: bool)
        ensures
            r == self.ready(),
    {
        self.addr != 0
    }
}

impl PeerNotifier for ClintMsipNotifier {
    open spec fn ready(&self) -> bool {
        self.at() != 0
    }

    open spec fn wake(&self) -> Seq<RegWrite> {
        seq![RegWrite { addr: self.at(), value: 1 }]
    }

    fn notify(&self) -> (r: Vec<RegWrite>) {
        let r = vec![RegWrite { addr: self.addr, value: 1 }];
        assert(r@ =~= self.wake());
        r
    }
}

/// The device that is used, once one was found.
pub struct NotifierSlot<N: PeerNotifier> {
    device: Option<N>,
}

impl<N: PeerNotifier> NotifierSlot<N> {
    /// The device.
    pub closed spec fn held(&self) -> Option<N> {
        self.device
    }

    /// No device.
    pub fn new() -> (r: Self)
        ensures
            r.held() is None,
    {
        NotifierSlot { device: None }
    }

    /// A device was found.
    pub fn set(&mut self, device: N)
        requires
            old(self).held() is None,
        ensures
            final(self).held() == Some(device),
    {
        self.device = Some(device);
    }

    /// The device, if one was found.
    pub fn try_notifier(&self) -> (r: Option<&N>)
        ensures
            match r {
                Some(n) => self.held() == Some(*n),
                None => self.held() is None,
            },
    {
        match &self.device {
            Some(n) => Some(n),
            None => None,
        }
    }

    /// The device, where one was found.
    pub fn notifier(&self) -> (r: &N)
        requires
            self.held() is Some,
        ensures
            self.held() == Some(*r),
    {
        self.device.as_ref().unwrap()
    }
}

} // verus!
