use vstd::prelude::*;
use crate::enums::{CanError, CanFifo, CanMode, TxStatus};
use crate::filter::CanFilter;
use crate::frame::CanFrame;
use crate::registers::{
    FilterBank, ModeState, Registers, TX_MAILBOXES, all_busy, btimr_value, configured_bank,
    empty_mailbox, is_first_empty, loaded_mailbox, status_of,
};
use crate::timing::{BitTiming, calc_can_timings, is_best_solution, is_solution};

verus! {

#[verifier::external_type_specification]
#[verifier::reject_recursive_types(E)]
pub struct ExNbError<E>(nb::Error<E>);

/// Marks a type that stands for one CAN peripheral instance.
pub trait SealedInstance {
}

/// A CAN peripheral instance a driver can own.
pub trait Instance: SealedInstance {
}

/// The first CAN peripheral.
pub struct Can1;

/// The second CAN peripheral.
pub struct Can2;

impl SealedInstance for Can1 {
}

impl Instance for Can1 {
}

impl SealedInstance for Can2 {
}

impl Instance for Can2 {
}

/// Why a driver could not be set up.
#[derive(Clone, Copy, Debug, PartialEq, Eq)]
pub enum CanInitError {
    /// No admissible bit timing gives the bit rate from the peripheral clock.
    InvalidTimings,
}

/// The driver of one CAN peripheral: it owns the instance and its registers.
pub struct Can<T: Instance> {
    /// The peripheral instance this driver owns.
    pub instance: T,
    pub regs: Registers,
    /// The FIFO this driver reads and routes its filters to.
    pub fifo: CanFifo,
    /// The mailbox of the last frame queued; out of range before the first.
    pub last_mailbox_used: usize,
}

impl<T: Instance> Can<T> {
    pub open spec fn wf(&self) -> bool {
        self.regs.wf()
    }

    /// Sets up the peripheral `peri`, clocked at `clock_hz`, for `bitrate` in
    /// operating mode `mode`, reading from `fifo`: from reset it enters
    /// initialization mode, writes the chosen bit timing and the mode, and
    /// returns to normal mode. Fails with `InvalidTimings` exactly when no
    /// admissible timing exists.
    pub fn new(peri: T, fifo: CanFifo, mode: CanMode, clock_hz: u32, bitrate: u32) -> (r: Result<
        Self,
        CanInitError,
    >)
        ensures
            r is Err <==> forall|u: BitTiming| !#[trigger] is_solution(clock_hz, bitrate, u),
            r is Err ==> r == Err::<Self, CanInitError>(CanInitError::InvalidTimings),
            r matches Ok(can) ==> {
                &&& can.wf()
                &&& can.fifo == fifo
                &&& can.last_mailbox_used == usize::MAX
                &&& can.regs.mode == ModeState::Normal
                &&& exists|t: BitTiming| #[trigger]
                    is_best_solution(clock_hz, bitrate, t) && can.regs.btimr == btimr_value(t, mode)
                &&& forall|i: int| 0 <= i < TX_MAILBOXES ==> #[trigger] can.regs.mailboxes@[i] == empty_mailbox()
                &&& can.regs.fifo0.slots@.len() == 0
                &&& can.regs.fifo1.slots@.len() == 0
            },
    {
        let mut regs = Registers::reset();
        regs.enter_init_mode();
        let timing = match calc_can_timings(clock_hz, bitrate) {
            Some(t) => t,
            None => return Err(CanInitError::InvalidTimings),
        };
        regs.set_bit_timing_and_mode(timing, mode);
        regs.leave_init_mode();
        assert(is_best_solution(clock_hz, bitrate, timing));
        Ok(Can { instance: peri, regs, fifo, last_mailbox_used: usize::MAX })
    }

    /// Installs `filter` in its bank, routed to this driver's FIFO: with the
    /// banks suspended it writes scale, registers, match mode and FIFO, then
    /// activates the bank and resumes the banks.
    pub fn add_filter(&mut self, filter: CanFilter)
        requires
            old(self).wf(),
            filter.wf(),
        ensures
            final(self).wf(),
            !final(self).regs.filter_init,
            final(self).regs.banks@ == old(self).regs.banks@.update(
                filter.bank as int,
                FilterBank {
                    scale_32: filter.bit_mode is Bit32,
                    list_mode: filter.mode is List,
                    to_fifo1: old(self).fifo is Fifo1,
                    active: true,
                    r1: filter.id_value,
                    r2: filter.id_mask,
                },
            ),
            final(self).regs == (Registers {
                banks: final(self).regs.banks,
                filter_init: false,
                ..old(self).regs
            }),
            final(self).fifo == old(self).fifo,
            final(self).last_mailbox_used == old(self).last_mailbox_used,
    {
        let to_fifo1 = self.fifo.val_bool();
        self.regs.set_filter_init(true);
        self.regs.configure_filter_bank(
            filter.bank,
            filter.scale_bit(),
            filter.mode_bit(),
            to_fifo1,
            filter.id_value,
            filter.id_mask,
        );
        self.regs.activate_filter_bank(filter.bank);
        self.regs.set_filter_init(false);
        assert(self.regs.banks@ =~= old(self).regs.banks@.update(
            filter.bank as int,
            FilterBank {
                scale_32: filter.bit_mode is Bit32,
                list_mode: filter.mode is List,
                to_fifo1: old(self).fifo is Fifo1,
                active: true,
                r1: filter.id_value,
                r2: filter.id_mask,
            },
        ));
    }

    /// Queues `frame` in the first empty mailbox and returns `Ok(None)`: no
    /// pending frame is displaced. With every mailbox busy nothing changes and
    /// the result is `WouldBlock`.
    pub fn transmit(&mut self, frame: &CanFrame) -> (r: nb::Result<Option<CanFrame>, CanError>)
        requires
            old(self).wf(),
            frame.wf(),
        ensures
            final(self).wf(),
            final(self).fifo == old(self).fifo,
            all_busy(old(self).regs.mailboxes@) ==> r == Err::<Option<CanFrame>, nb::Error<CanError>>(
                nb::Error::WouldBlock,
            ) && final(self).regs == old(self).regs && final(self).last_mailbox_used
                == old(self).last_mailbox_used,
            !all_busy(old(self).regs.mailboxes@) ==> r == Ok::<Option<CanFrame>, nb::Error<CanError>>(
                None,
            ) && is_first_empty(old(self).regs.mailboxes@, final(self).last_mailbox_used as int)
                && final(self).regs == (Registers {
                mailboxes: final(self).regs.mailboxes,
                ..old(self).regs
            }) && final(self).regs.mailboxes@ == old(self).regs.mailboxes@.update(
                final(self).last_mailbox_used as int,
                loaded_mailbox(*frame),
            ),
    {
        let n = match self.regs.find_free_mailbox() {
            Some(n) => n,
            None => return Err(nb::Error::WouldBlock),
        };
        self.regs.write_frame_mailbox(n, frame);
        self.last_mailbox_used = n;
        Ok(None)
    }

    /// The status of the last frame queued; `OtherError` before any was.
    pub fn transmit_status(&self) -> (r: TxStatus)
        requires
            self.wf(),
        ensures
            self.last_mailbox_used < TX_MAILBOXES ==> r == status_of(
                self.regs.mailboxes@[self.last_mailbox_used as int],
            ),
            self.last_mailbox_used >= TX_MAILBOXES ==> r == TxStatus::OtherError,
    {
        if self.last_mailbox_used >= TX_MAILBOXES {
            return TxStatus::OtherError;
        }
        self.regs.transmit_status(self.last_mailbox_used)
    }

    /// Takes the oldest frame of this driver's FIFO: the frame its registers
    /// hold, after which the slot is released once. `WouldBlock`, with nothing
    /// changed, when the FIFO is empty.
    pub fn try_recv(&mut self) -> (r: nb::Result<CanFrame, CanError>)
        requires
            old(self).wf(),
        ensures
            final(self).wf(),
            final(self).fifo == old(self).fifo,
            final(self).last_mailbox_used == old(self).last_mailbox_used,
            ({
                let i = old(self).fifo.index();
                let q = old(self).regs.fifo(i).slots@;
                &&& q.len() == 0 ==> r == Err::<CanFrame, nb::Error<CanError>>(nb::Error::WouldBlock)
                    && final(self).regs == old(self).regs
                &&& q.len() > 0 ==> {
                    &&& r matches Ok(f) && f.wf() && f.id == crate::frame::stid_of(q[0].rir)
                        && f.data@ == crate::frame::payload_of(q[0].rdtr, q[0].rdlr, q[0].rdhr)
                    &&& final(self).regs.fifo(i).slots@ == q.subrange(1, q.len() as int)
                    &&& final(self).regs.fifo(i).overrun == old(self).regs.fifo(i).overrun
                    &&& final(self).regs.fifo(1 - i) == old(self).regs.fifo(1 - i)
                    &&& final(self).regs.mailboxes == old(self).regs.mailboxes
                    &&& final(self).regs.banks == old(self).regs.banks
                    &&& final(self).regs.mode == old(self).regs.mode
                    &&& final(self).regs.btimr == old(self).regs.btimr
                }
            }),
    {
        let i = self.fifo.val();
        if self.regs.pending(i) == 0 {
            return Err(nb::Error::WouldBlock);
        }
        let slot = self.regs.head(i);
        let frame = CanFrame::from_registers(slot.rir, slot.rdtr, slot.rdlr, slot.rdhr);
        self.regs.release(i);
        Ok(frame)
    }
}

} // verus!
