use vstd::prelude::*;
use crate::enums::{CanMode, TxStatus};
use crate::frame::{CanFrame, dlc_of, id_word, lemma_frame_round_trip, payload_of, stid_of, word_of};
use crate::timing::BitTiming;

verus! {

/// Transmit mailboxes of the peripheral.
pub const TX_MAILBOXES: usize = 3;

/// Receive FIFOs of the peripheral.
pub const RX_FIFOS: usize = 2;

/// Frames a receive FIFO holds before it overruns.
pub const RX_FIFO_DEPTH: usize = 3;

/// Acceptance-filter banks of the peripheral.
pub const FILTER_BANKS: usize = 28;

/// Transmit-request bit of a mailbox identifier register.
pub const TXRQ: u32 = 1;

/// Loopback-mode bit of the bit-timing register.
pub const LBKM_BIT: u32 = 30;

/// Silent-mode bit of the bit-timing register.
pub const SILM_BIT: u32 = 31;

/// One transmit mailbox: its identifier, length and data registers and its status flags.
#[derive(Clone, Copy, Debug)]
pub struct TxMailbox {
    pub tir: u32,
    pub tdtr: u32,
    pub tdlr: u32,
    pub tdhr: u32,
    /// The mailbox can take a frame.
    pub empty: bool,
    /// The last request placed in it has completed.
    pub request_complete: bool,
    pub tx_ok: bool,
    pub arbitration_lost: bool,
    pub tx_error: bool,
}

/// The head of a receive FIFO as seen through its registers.
#[derive(Clone, Copy, Debug)]
pub struct RxSlot {
    pub rir: u32,
    pub rdtr: u32,
    pub rdlr: u32,
    pub rdhr: u32,
}

/// A receive FIFO: the frames it holds, oldest first.
#[derive(Clone, Debug)]
pub struct RxFifo {
    pub slots: Vec<RxSlot>,
    pub overrun: bool,
}

/// The registers of one acceptance-filter bank.
#[derive(Clone, Copy, Debug)]
pub struct FilterBank {
    /// One 32-bit filter rather than two 16-bit ones.
    pub scale_32: bool,
    /// Identifier-list mode rather than mask mode.
    pub list_mode: bool,
    /// Matching frames go to FIFO 1 rather than FIFO 0.
    pub to_fifo1: bool,
    pub active: bool,
    pub r1: u32,
    pub r2: u32,
}

/// Operating mode of the peripheral.
#[derive(Clone, Copy, Debug, PartialEq, Eq)]
pub enum ModeState {
    Normal,
    Initialization,
}

/// The register file of one CAN peripheral.
#[derive(Clone, Debug)]
pub struct Registers {
    pub mode: ModeState,
    pub btimr: u32,
    /// Filter banks suspended for programming.
    pub filter_init: bool,
    pub banks: Vec<FilterBank>,
    pub mailboxes: Vec<TxMailbox>,
    pub fifo0: RxFifo,
    pub fifo1: RxFifo,
}

/// An idle, empty mailbox.
pub open spec fn empty_mailbox() -> TxMailbox {
    TxMailbox {
        tir: 0,
        tdtr: 0,
        tdlr: 0,
        tdhr: 0,
        empty: true,
        request_complete: false,
        tx_ok: false,
        arbitration_lost: false,
        tx_error: false,
    }
}

/// A mailbox holding `f` with its transmission requested.
pub open spec fn loaded_mailbox(f: CanFrame) -> TxMailbox {
    TxMailbox {
        tir: id_word(f.id) | TXRQ,
        tdtr: f.data@.len() as u32,
        tdlr: word_of(f.data@, 0),
        tdhr: word_of(f.data@, 4),
        empty: false,
        request_complete: false,
        tx_ok: false,
        arbitration_lost: false,
        tx_error: false,
    }
}

/// Mailbox `i` is the first one that is empty.
pub open spec fn is_first_empty(m: Seq<TxMailbox>, i: int) -> bool {
    &&& 0 <= i < m.len()
    &&& m[i].empty
    &&& forall|j: int| 0 <= j < i ==> !#[trigger] m[j].empty
}

/// No mailbox is empty.
pub open spec fn all_busy(m: Seq<TxMailbox>) -> bool {
    forall|j: int| 0 <= j < m.len() ==> !#[trigger] m[j].empty
}

impl Registers {
    /// As many banks, mailboxes and FIFOs as the peripheral has, no FIFO over its depth.
    pub open spec fn wf(&self) -> bool {
        &&& self.banks@.len() == FILTER_BANKS
        &&& self.mailboxes@.len() == TX_MAILBOXES
        &&& self.fifo0.slots@.len() <= RX_FIFO_DEPTH
        &&& self.fifo1.slots@.len() <= RX_FIFO_DEPTH
    }

    /// Receive FIFO `i`.
    pub open spec fn fifo(&self, i: int) -> RxFifo {
        if i == 0 { self.fifo0 } else { self.fifo1 }
    }

    /// The state after reset: initialization mode, filters suspended, every
    /// filter bank cleared, every mailbox empty and both FIFOs empty.
    pub fn reset() -> (r: Registers)
        ensures
            r.wf(),
            r.mode == ModeState::Initialization,
            r.filter_init,
            forall|i: int| 0 <= i < TX_MAILBOXES ==> #[trigger] r.mailboxes@[i] == empty_mailbox(),
            r.fifo0.slots@.len() == 0,
            r.fifo1.slots@.len() == 0,
            forall|i: int| 0 <= i < FILTER_BANKS ==> !(#[trigger] r.banks@[i]).active,
    {
        let mut banks: Vec<FilterBank> = Vec::new();
        let mut i: usize = 0;
        while i < FILTER_BANKS
            invariant
                i <= FILTER_BANKS,
                banks@.len() == i,
                forall|j: int| 0 <= j < i ==> !(#[trigger] banks@[j]).active,
            decreases FILTER_BANKS - i,
        {
            banks.push(FilterBank { scale_32: false, list_mode: false, to_fifo1: false, active: false, r1: 0, r2: 0 });
            i = i + 1;
        }
        let mb = TxMailbox {
            tir: 0,
            tdtr: 0,
            tdlr: 0,
            tdhr: 0,
            empty: true,
            request_complete: false,
            tx_ok: false,
            arbitration_lost: false,
            tx_error: false,
        };
        let mailboxes = vec![mb, mb, mb];
        Registers {
            mode: ModeState::Initialization,
            btimr: 0,
            filter_init: true,
            banks,
            mailboxes,
            fifo0: RxFifo { slots: Vec::new(), overrun: false },
            fifo1: RxFifo { slots: Vec::new(), overrun: false },
        }
    }

    /// Requests initialization mode; the peripheral acknowledges it.
    pub fn enter_init_mode(&mut self)
        ensures
            *final(self) == (Registers { mode: ModeState::Initialization, ..*old(self) }),
    {
        self.mode = ModeState::Initialization;
    }

    /// Leaves initialization mode; the peripheral acknowledges it.
    pub fn leave_init_mode(&mut self)
        ensures
            *final(self) == (Registers { mode: ModeState::Normal, ..*old(self) }),
    {
        self.mode = ModeState::Normal;
    }

    /// The first empty mailbox, if any.
    pub fn find_free_mailbox(&self) -> (r: Option<usize>)
        requires
            self.wf(),
        ensures
            match r {
                Some(i) => is_first_empty(self.mailboxes@, i as int),
                None => all_busy(self.mailboxes@),
            },
    {
        let mut i: usize = 0;
        while i < TX_MAILBOXES
            invariant
                i <= TX_MAILBOXES,
                self.mailboxes@.len() == TX_MAILBOXES,
                forall|j: int| 0 <= j < i ==> !#[trigger] self.mailboxes@[j].empty,
            decreases TX_MAILBOXES - i,
        {
            if self.mailboxes[i].empty {
                return Some(i);
            }
            i = i + 1;
        }
        None
    }

    /// Loads `frame` into mailbox `n` and requests its transmission.
    pub fn write_frame_mailbox(&mut self, n: usize, frame: &CanFrame)
        requires
            old(self).wf(),
            n < TX_MAILBOXES,
            frame.wf(),
        ensures
            *final(self) == (Registers {
                mailboxes: final(self).mailboxes,
                ..*old(self)
            }),
            final(self).mailboxes@ == old(self).mailboxes@.update(n as int, loaded_mailbox(*frame)),
            final(self).wf(),
    {
        let mb = TxMailbox {
            tir: frame.id_word() | TXRQ,
            tdtr: frame.dlc() as u32,
            tdlr: frame.data_word(0),
            tdhr: frame.data_word(4),
            empty: false,
            request_complete: false,
            tx_ok: false,
            arbitration_lost: false,
            tx_error: false,
        };
        self.mailboxes.set(n, mb);
    }
}

/// The bit-timing register value for timing `t` and operating mode `mode`:
/// each timing field less one, at bits 0, 16, 20 and 24, then the loopback
/// and silent bits.
pub open spec fn btimr_value(t: BitTiming, mode: CanMode) -> u32 {
    ((t.prescaler - 1) as u32)
        | (((t.seg1 - 1) as u32) << 16u32)
        | (((t.seg2 - 1) as u32) << 20u32)
        | (((t.sjw - 1) as u32) << 24u32)
        | ((if mode.loopback() { 1u32 } else { 0u32 }) << LBKM_BIT)
        | ((if mode.silent() { 1u32 } else { 0u32 }) << SILM_BIT)
}

/// The status a mailbox reports for its last request.
pub open spec fn status_of(m: TxMailbox) -> TxStatus {
    if !m.request_complete {
        TxStatus::Pending
    } else if m.tx_ok {
        TxStatus::Sent
    } else if m.arbitration_lost {
        TxStatus::ArbitrationLost
    } else if m.tx_error {
        TxStatus::TransmitError
    } else {
        TxStatus::OtherError
    }
}

/// Bank `b` after its configuration registers are written; its active bit is kept.
pub open spec fn configured_bank(b: FilterBank, scale_32: bool, list_mode: bool, to_fifo1: bool, r1: u32, r2: u32) -> FilterBank {
    FilterBank { scale_32, list_mode, to_fifo1, active: b.active, r1, r2 }
}

/// A mailbox whose request has completed, with the outcome flags the bus reported.
pub open spec fn completed_mailbox(m: TxMailbox, tx_ok: bool, arbitration_lost: bool, tx_error: bool) -> TxMailbox {
    TxMailbox { empty: true, request_complete: true, tx_ok, arbitration_lost, tx_error, ..m }
}

impl Registers {
    /// Writes the bit timing and the operating mode; the register only takes
    /// writes in initialization mode.
    pub fn set_bit_timing_and_mode(&mut self, t: BitTiming, mode: CanMode)
        requires
            old(self).mode == ModeState::Initialization,
            t.in_range(),
        ensures
            *final(self) == (Registers { btimr: btimr_value(t, mode), ..*old(self) }),
    {
        let lbkm: u32 = match mode {
            CanMode::Loopback | CanMode::SilentLoopback => 1,
            _ => 0,
        };
        let silm: u32 = match mode {
            CanMode::Silent | CanMode::SilentLoopback => 1,
            _ => 0,
        };
        self.btimr = ((t.prescaler - 1) as u32)
            | (((t.seg1 - 1) as u32) << 16u32)
            | (((t.seg2 - 1) as u32) << 20u32)
            | (((t.sjw - 1) as u32) << 24u32)
            | (lbkm << LBKM_BIT)
            | (silm << SILM_BIT);
    }

    /// The status mailbox `n` reports.
    pub fn transmit_status(&self, n: usize) -> (r: TxStatus)
        requires
            self.wf(),
            n < TX_MAILBOXES,
        ensures
            r == status_of(self.mailboxes@[n as int]),
    {
        let m = self.mailboxes[n];
        if !m.request_complete {
            TxStatus::Pending
        } else if m.tx_ok {
            TxStatus::Sent
        } else if m.arbitration_lost {
            TxStatus::ArbitrationLost
        } else if m.tx_error {
            TxStatus::TransmitError
        } else {
            TxStatus::OtherError
        }
    }

    /// Suspends (`true`) or resumes (`false`) the filter banks.
    pub fn set_filter_init(&mut self, on: bool)
        ensures
            *final(self) == (Registers { filter_init: on, ..*old(self) }),
    {
        self.filter_init = on;
    }

    /// Writes scale, match mode, FIFO assignment and the two filter registers of bank `bank`.
    pub fn configure_filter_bank(
        &mut self,
        bank: usize,
        scale_32: bool,
        list_mode: bool,
        to_fifo1: bool,
        r1: u32,
        r2: u32,
    )
        requires
            old(self).wf(),
            old(self).filter_init,
            bank < FILTER_BANKS,
        ensures
            *final(self) == (Registers { banks: final(self).banks, ..*old(self) }),
            final(self).banks@ == old(self).banks@.update(
                bank as int,
                configured_bank(old(self).banks@[bank as int], scale_32, list_mode, to_fifo1, r1, r2),
            ),
    {
        let old_bank = self.banks[bank];
        self.banks.set(bank, FilterBank { scale_32, list_mode, to_fifo1, active: old_bank.active, r1, r2 });
    }

    /// Sets the active bit of bank `bank`, with the banks suspended.
    pub fn activate_filter_bank(&mut self, bank: usize)
        requires
            old(self).wf(),
            old(self).filter_init,
            bank < FILTER_BANKS,
        ensures
            *final(self) == (Registers { banks: final(self).banks, ..*old(self) }),
            final(self).banks@ == old(self).banks@.update(
                bank as int,
                FilterBank { active: true, ..old(self).banks@[bank as int] },
            ),
    {
        let b = self.banks[bank];
        self.banks.set(bank, FilterBank { active: true, ..b });
    }

    /// Frames waiting in FIFO `i`.
    pub fn pending(&self, i: usize) -> (r: usize)
        requires
            i < RX_FIFOS,
        ensures
            r == self.fifo(i as int).slots@.len(),
    {
        if i == 0 {
            self.fifo0.slots.len()
        } else {
            self.fifo1.slots.len()
        }
    }

    /// The oldest frame in FIFO `i`.
    pub fn head(&self, i: usize) -> (r: RxSlot)
        requires
            i < RX_FIFOS,
            self.fifo(i as int).slots@.len() > 0,
        ensures
            r == self.fifo(i as int).slots@[0],
    {
        if i == 0 {
            self.fifo0.slots[0]
        } else {
            self.fifo1.slots[0]
        }
    }

    /// Releases the oldest frame of FIFO `i`, exposing the next one.
    pub fn release(&mut self, i: usize)
        requires
            old(self).wf(),
            i < RX_FIFOS,
            old(self).fifo(i as int).slots@.len() > 0,
        ensures
            final(self).wf(),
            final(self).fifo(i as int).slots@ == old(self).fifo(i as int).slots@.subrange(
                1,
                old(self).fifo(i as int).slots@.len() as int,
            ),
            final(self).fifo(i as int).overrun == old(self).fifo(i as int).overrun,
            final(self).fifo(1 - i as int) == old(self).fifo(1 - i as int),
            final(self).mode == old(self).mode,
            final(self).btimr == old(self).btimr,
            final(self).filter_init == old(self).filter_init,
            final(self).banks == old(self).banks,
            final(self).mailboxes == old(self).mailboxes,
    {
        if i == 0 {
            self.fifo0.slots.remove(0);
        } else {
            self.fifo1.slots.remove(0);
        }
    }

    /// The bus side: a frame arrives for FIFO `i`. It is queued, or, with the
    /// FIFO full, dropped and the overrun flag set.
    pub fn deliver(&mut self, i: usize, slot: RxSlot)
        requires
            old(self).wf(),
            i < RX_FIFOS,
        ensures
            final(self).wf(),
            old(self).fifo(i as int).slots@.len() < RX_FIFO_DEPTH ==> final(self).fifo(i as int)
                == (RxFifo { slots: final(self).fifo(i as int).slots, ..old(self).fifo(i as int) })
                && final(self).fifo(i as int).slots@ == old(self).fifo(i as int).slots@.push(slot),
            old(self).fifo(i as int).slots@.len() >= RX_FIFO_DEPTH ==> final(self).fifo(i as int)
                == (RxFifo { overrun: true, ..old(self).fifo(i as int) }),
            final(self).fifo(1 - i as int) == old(self).fifo(1 - i as int),
            final(self).mailboxes == old(self).mailboxes,
            final(self).banks == old(self).banks,
    {
        if i == 0 {
            if self.fifo0.slots.len() < RX_FIFO_DEPTH {
                self.fifo0.slots.push(slot);
            } else {
                self.fifo0.overrun = true;
            }
        } else {
            if self.fifo1.slots.len() < RX_FIFO_DEPTH {
                self.fifo1.slots.push(slot);
            } else {
                self.fifo1.overrun = true;
            }
        }
    }

    /// The bus side: the request in mailbox `n` completes with the given outcome
    /// flags and the mailbox becomes empty.
    pub fn complete(&mut self, n: usize, tx_ok: bool, arbitration_lost: bool, tx_error: bool)
        requires
            old(self).wf(),
            n < TX_MAILBOXES,
        ensures
            final(self).wf(),
            *final(self) == (Registers { mailboxes: final(self).mailboxes, ..*old(self) }),
            final(self).mailboxes@ == old(self).mailboxes@.update(
                n as int,
                completed_mailbox(old(self).mailboxes@[n as int], tx_ok, arbitration_lost, tx_error),
            ),
    {
        let m = self.mailboxes[n];
        self.mailboxes.set(n, TxMailbox { empty: true, request_complete: true, tx_ok, arbitration_lost, tx_error, ..m });
    }
}

/// A frame loaded into a mailbox by the transmit path, read back through the
/// receive path's decoding of identifier, length and data registers, gives its
/// identifier, its length and its payload.
pub proof fn lemma_mailbox_round_trip(f: CanFrame)
    requires
        f.wf(),
    ensures
        ({
            let m = loaded_mailbox(f);
            &&& stid_of(m.tir) == f.id
            &&& dlc_of(m.tdtr) == f.data@.len()
            &&& payload_of(m.tdtr, m.tdlr, m.tdhr) == f.data@
        }),
{
    lemma_frame_round_trip(f);
    let w = id_word(f.id);
    assert(((w | 1u32) >> 21u32) & 0x7ff == (w >> 21u32) & 0x7ff) by (bit_vector);
}

/// Each field of the bit-timing register reads back as written: prescaler,
/// segments and jump width less one, and the two mode bits.
pub proof fn lemma_btimr_fields(t: BitTiming, mode: CanMode)
    requires
        t.in_range(),
    ensures
        ({
            let v = btimr_value(t, mode);
            &&& (v & 0x3ff) + 1 == t.prescaler as u32
            &&& ((v >> 16u32) & 0xf) + 1 == t.seg1 as u32
            &&& ((v >> 20u32) & 0x7) + 1 == t.seg2 as u32
            &&& ((v >> 24u32) & 0x3) + 1 == t.sjw as u32
            &&& ((v >> LBKM_BIT) & 1 == 1) == mode.loopback()
            &&& ((v >> SILM_BIT) & 1 == 1) == mode.silent()
        }),
{
    let p = (t.prescaler - 1) as u32;
    let s1 = (t.seg1 - 1) as u32;
    let s2 = (t.seg2 - 1) as u32;
    let j = (t.sjw - 1) as u32;
    let l: u32 = if mode.loopback() { 1 } else { 0 };
    let s: u32 = if mode.silent() { 1 } else { 0 };
    let v = btimr_value(t, mode);
    assert(v == p | (s1 << 16u32) | (s2 << 20u32) | (j << 24u32) | (l << 30u32) | (s << 31u32));
    assert({
        &&& v & 0x3ff == p
        &&& (v >> 16u32) & 0xf == s1
        &&& (v >> 20u32) & 0x7 == s2
        &&& (v >> 24u32) & 0x3 == j
        &&& (v >> 30u32) & 1 == l
        &&& (v >> 31u32) & 1 == s
    }) by (bit_vector)
        requires
            p < 1024, s1 < 16, s2 < 8, j < 4, l < 2, s < 2,
            v == p | (s1 << 16u32) | (s2 << 20u32) | (j << 24u32) | (l << 30u32) | (s << 31u32);
}

} // verus!
