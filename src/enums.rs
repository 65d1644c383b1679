use vstd::prelude::*;

verus! {

/// The receive FIFO a driver reads from and routes its filters to.
#[derive(Clone, Copy, Debug, PartialEq, Eq)]
pub enum CanFifo {
    Fifo0,
    Fifo1,
}

impl CanFifo {
    pub open spec fn index(self) -> int {
        match self {
            CanFifo::Fifo0 => 0,
            CanFifo::Fifo1 => 1,
        }
    }

    /// The FIFO's number.
    pub fn val(&self) -> (r: usize)
        ensures
            r == self.index(),
    {
        match self {
            CanFifo::Fifo0 => 0,
            CanFifo::Fifo1 => 1,
        }
    }

    /// The FIFO's bit in a filter-assignment register.
    pub fn val_bool(&self) -> (r: bool)
        ensures
            r == (*self is Fifo1),
    {
        match self {
            CanFifo::Fifo0 => false,
            CanFifo::Fifo1 => true,
        }
    }
}

/// Operating mode of the bus interface.
#[derive(Clone, Copy, Debug, PartialEq, Eq)]
pub enum CanMode {
    Normal,
    Silent,
    Loopback,
    SilentLoopback,
}

impl CanMode {
    pub open spec fn loopback(self) -> bool {
        self is Loopback || self is SilentLoopback
    }

    pub open spec fn silent(self) -> bool {
        self is Silent || self is SilentLoopback
    }
}

/// Outcome of the last transmission request.
#[derive(Clone, Copy, Debug, PartialEq, Eq)]
pub enum TxStatus {
    Pending,
    Sent,
    ArbitrationLost,
    TransmitError,
    OtherError,
}

/// Errors the bus reports.
#[derive(Clone, Copy, Debug, PartialEq, Eq)]
pub enum CanError {
    Stuff,
    Form,
    Acknowledge,
    BitRecessive,
    BitDominant,
    Crc,
    Other,
}

} // verus!
