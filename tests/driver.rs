use ch32_can::can::{Can, Can1, Can2, CanInitError};
use ch32_can::enums::{CanError, CanFifo, CanMode, TxStatus};
use ch32_can::filter::{BitMode, CanFilter, FilterMode};
use ch32_can::frame::CanFrame;
use ch32_can::registers::{ModeState, RxSlot, FILTER_BANKS, TX_MAILBOXES};
use ch32_can::timing::{calc_can_timings, BitTiming};

fn driver() -> Can<Can1> {
    match Can::new(Can1, CanFifo::Fifo0, CanMode::Normal, 8_000_000, 500_000) {
        Ok(can) => can,
        Err(_) => panic!("8 MHz gives 500 kbit/s"),
    }
}

fn frame(id: u16, data: &[u8]) -> CanFrame {
    CanFrame::new(id, data).expect("valid frame")
}

fn slot_of(can: &Can<Can1>, n: usize) -> RxSlot {
    let m = can.regs.mailboxes[n];
    RxSlot { rir: m.tir, rdtr: m.tdtr, rdlr: m.tdlr, rdhr: m.tdhr }
}

#[test]
fn timing_for_500k_from_8mhz() {
    let t = calc_can_timings(8_000_000, 500_000).expect("a timing exists");
    assert_eq!(t, BitTiming { prescaler: 2, seg1: 6, seg2: 1, sjw: 1 });
    let quanta = 1 + t.seg1 as u32 + t.seg2 as u32;
    assert_eq!(500_000 * t.prescaler as u32 * quanta, 8_000_000);
    // sample point (1 + seg1) / quanta within 75%..=87.5%
    assert!(4 * (1 + t.seg1 as u32) >= 3 * quanta);
    assert!(8 * (1 + t.seg1 as u32) <= 7 * quanta);
}

#[test]
fn timing_for_1_bit_per_second_is_invalid() {
    assert_eq!(calc_can_timings(8_000_000, 1), None);
    assert!(matches!(
        Can::new(Can1, CanFifo::Fifo0, CanMode::Normal, 8_000_000, 1),
        Err(CanInitError::InvalidTimings)
    ));
}

#[test]
fn timing_zero_bitrate_is_invalid() {
    assert_eq!(calc_can_timings(8_000_000, 0), None);
}

#[test]
fn timing_ties_prefer_fewest_quanta() {
    // 36 MHz / 1 Mbit/s: 6, 12 and 18 quanta sample equally close to 87.5%.
    let t = calc_can_timings(36_000_000, 1_000_000).expect("a timing exists");
    assert_eq!(t, BitTiming { prescaler: 6, seg1: 4, seg2: 1, sjw: 1 });
}

#[test]
fn timing_sjw_capped() {
    // 72 MHz / 125 kbit/s: 576 = 24 * 24, 24 quanta with seg2 = 3.
    let t = calc_can_timings(72_000_000, 125_000).expect("a timing exists");
    assert_eq!(72_000_000, 125_000 * t.prescaler as u32 * (1 + t.seg1 as u32 + t.seg2 as u32));
    assert_eq!(t.sjw, t.seg2.min(4));
}

#[test]
fn timing_solutions_are_exact_and_in_band() {
    let clocks = [8_000_000u32, 16_000_000, 24_000_000, 36_000_000, 48_000_000, 72_000_000, 144_000_000];
    let rates = [10_000u32, 20_000, 50_000, 83_333, 100_000, 125_000, 250_000, 500_000, 800_000, 1_000_000];
    for &c in clocks.iter() {
        for &b in rates.iter() {
            if let Some(t) = calc_can_timings(c, b) {
                let q = 1 + t.seg1 as u64 + t.seg2 as u64;
                assert_eq!(c as u64, b as u64 * t.prescaler as u64 * q);
                assert!(4 * (1 + t.seg1 as u64) >= 3 * q);
                assert!(8 * (1 + t.seg1 as u64) <= 7 * q);
                assert!(t.prescaler >= 1 && t.prescaler <= 1024);
                assert!(t.seg1 >= 1 && t.seg1 <= 16 && t.seg2 >= 1 && t.seg2 <= 8);
            }
        }
    }
}

#[test]
fn new_leaves_init_mode_with_timing_written() {
    let can = driver();
    assert_eq!(can.regs.mode, ModeState::Normal);
    // prescaler 2, seg1 6, seg2 1, sjw 1, each less one
    assert_eq!(can.regs.btimr, 1 | (5 << 16));
    let looped = Can::new(Can2, CanFifo::Fifo1, CanMode::SilentLoopback, 8_000_000, 500_000).expect("valid");
    assert_eq!(looped.regs.btimr, 1 | (5 << 16) | (1 << 30) | (1 << 31));
}

#[test]
fn frame_rejects_long_id_and_payload() {
    assert!(CanFrame::new(0x800, &[1]).is_none());
    assert!(CanFrame::new(0x7FF, &[0; 9]).is_none());
    let f = frame(0x7FF, &[1, 2, 3, 4, 5, 6, 7, 8]);
    assert_eq!(f.id, 0x7FF);
    assert_eq!(f.dlc(), 8);
}

#[test]
fn frame_data_words_are_little_endian() {
    let f = frame(0x123, &[0x11, 0x22, 0x33, 0x44, 0x55]);
    assert_eq!(f.id_word(), 0x123 << 21);
    assert_eq!(f.data_word(0), 0x4433_2211);
    assert_eq!(f.data_word(4), 0x0000_0055);
}

#[test]
fn frame_from_registers_clamps_length() {
    let f = CanFrame::from_registers(0x7FF << 21, 15, 0x0403_0201, 0x0807_0605);
    assert_eq!(f.id, 0x7FF);
    assert_eq!(f.data, vec![1, 2, 3, 4, 5, 6, 7, 8]);
}

#[test]
fn transmit_fills_mailboxes_then_blocks() {
    let mut can = driver();
    let f = frame(0x100, &[9]);
    for n in 0..TX_MAILBOXES {
        assert!(matches!(can.transmit(&f), Ok(None)));
        assert_eq!(can.last_mailbox_used, n);
        assert_eq!(can.transmit_status(), TxStatus::Pending);
    }
    assert!(matches!(can.transmit(&f), Err(nb::Error::WouldBlock)));
    assert_eq!(can.last_mailbox_used, 2);
}

#[test]
fn transmit_reuses_completed_mailbox() {
    let mut can = driver();
    let f = frame(0x100, &[]);
    for _ in 0..TX_MAILBOXES {
        assert!(matches!(can.transmit(&f), Ok(None)));
    }
    can.regs.complete(1, true, false, false);
    assert!(matches!(can.transmit(&f), Ok(None)));
    assert_eq!(can.last_mailbox_used, 1);
}

#[test]
fn transmit_status_reports_outcomes() {
    let mut can = driver();
    assert_eq!(can.transmit_status(), TxStatus::OtherError);
    let f = frame(0x42, &[1, 2]);
    assert!(matches!(can.transmit(&f), Ok(None)));
    assert_eq!(can.transmit_status(), TxStatus::Pending);
    can.regs.complete(0, true, false, false);
    assert_eq!(can.transmit_status(), TxStatus::Sent);
    can.regs.complete(0, false, true, false);
    assert_eq!(can.transmit_status(), TxStatus::ArbitrationLost);
    can.regs.complete(0, false, false, true);
    assert_eq!(can.transmit_status(), TxStatus::TransmitError);
    can.regs.complete(0, false, false, false);
    assert_eq!(can.transmit_status(), TxStatus::OtherError);
}

#[test]
fn try_recv_empty_would_block() {
    let mut can = driver();
    assert!(matches!(can.try_recv(), Err(nb::Error::WouldBlock)));
}

#[test]
fn try_recv_decodes_and_releases_once() {
    let mut can = driver();
    can.regs.deliver(0, RxSlot { rir: (0x321 << 21) | 4, rdtr: 3, rdlr: 0x00CC_BBAA, rdhr: 0 });
    can.regs.deliver(0, RxSlot { rir: 0x5 << 21, rdtr: 0, rdlr: 0, rdhr: 0 });
    assert_eq!(can.regs.fifo0.slots.len(), 2);
    match can.try_recv() {
        Ok(f) => {
            assert_eq!(f.id, 0x321);
            assert_eq!(f.data, vec![0xAA, 0xBB, 0xCC]);
        }
        Err(_) => panic!("a frame is pending"),
    }
    assert_eq!(can.regs.fifo0.slots.len(), 1);
    match can.try_recv() {
        Ok(f) => {
            assert_eq!(f.id, 0x5);
            assert!(f.data.is_empty());
        }
        Err(_) => panic!("a frame is pending"),
    }
    assert_eq!(can.regs.fifo0.slots.len(), 0);
    assert!(matches!(can.try_recv(), Err(nb::Error::WouldBlock)));
}

#[test]
fn try_recv_reads_only_its_fifo() {
    let mut can = driver();
    can.regs.deliver(1, RxSlot { rir: 0x10 << 21, rdtr: 1, rdlr: 7, rdhr: 0 });
    assert!(matches!(can.try_recv(), Err(nb::Error::<CanError>::WouldBlock)));
    assert_eq!(can.regs.fifo1.slots.len(), 1);
}

#[test]
fn fifo_overruns_past_depth() {
    let mut can = driver();
    for k in 0..4u32 {
        can.regs.deliver(0, RxSlot { rir: k << 21, rdtr: 0, rdlr: 0, rdhr: 0 });
    }
    assert_eq!(can.regs.fifo0.slots.len(), 3);
    assert!(can.regs.fifo0.overrun);
}

#[test]
fn round_trip_through_mailbox_and_fifo() {
    let payloads: [&[u8]; 4] = [&[], &[0xDE], &[1, 2, 3, 4], &[8, 7, 6, 5, 4, 3, 2, 1]];
    for (k, p) in payloads.iter().enumerate() {
        let mut can = driver();
        let id = 0x7F0 + k as u16;
        assert!(matches!(can.transmit(&frame(id, p)), Ok(None)));
        let slot = slot_of(&can, 0);
        can.regs.deliver(0, slot);
        match can.try_recv() {
            Ok(f) => {
                assert_eq!(f.id, id);
                assert_eq!(f.dlc(), p.len());
                assert_eq!(&f.data[..], *p);
            }
            Err(_) => panic!("frame delivered"),
        }
    }
}

#[test]
fn add_filter_clears_filter_init_for_every_mode() {
    let modes = [
        (BitMode::Bit32, FilterMode::Mask),
        (BitMode::Bit32, FilterMode::List),
        (BitMode::Bit16, FilterMode::Mask),
        (BitMode::Bit16, FilterMode::List),
    ];
    let mut can = Can::new(Can1, CanFifo::Fifo1, CanMode::Normal, 8_000_000, 500_000).expect("valid");
    for (bank, (bit_mode, mode)) in modes.iter().enumerate() {
        let f = CanFilter { bank, bit_mode: *bit_mode, mode: *mode, id_value: 0x100 + bank as u32, id_mask: 0xFFE0 };
        can.add_filter(f);
        assert!(!can.regs.filter_init);
        let b = can.regs.banks[bank];
        assert!(b.active);
        assert!(b.to_fifo1);
        assert_eq!(b.scale_32, *bit_mode == BitMode::Bit32);
        assert_eq!(b.list_mode, *mode == FilterMode::List);
        assert_eq!(b.r1, 0x100 + bank as u32);
        assert_eq!(b.r2, 0xFFE0);
    }
    assert!(!can.regs.banks[4].active);
}

#[test]
fn add_filter_accept_all_in_last_bank() {
    let mut can = driver();
    can.add_filter(CanFilter::accept_all(FILTER_BANKS - 1));
    let b = can.regs.banks[FILTER_BANKS - 1];
    assert!(b.active && b.scale_32 && !b.list_mode && !b.to_fifo1);
    assert_eq!((b.r1, b.r2), (0, 0));
    assert!(!can.regs.filter_init);
}
