use vstd::prelude::*;

verus! {

/// Largest standard (11-bit) identifier.
pub const STANDARD_ID_MAX: u16 = 0x7FF;

/// Most data bytes a classic CAN frame carries.
pub const DATA_LEN_MAX: usize = 8;

/// Bit position of the standard identifier in a mailbox identifier register.
pub const STID_SHIFT: u32 = 21;

/// Relies on `embedded_can::StandardId::new`, which accepts exactly the raw
/// values up to 0x7FF, and on `StandardId::as_raw`, which hands the value back.
#[verifier::external_body]
fn standard_id(raw: u16) -> (r: Option<u16>)
    ensures
        r == (if raw <= STANDARD_ID_MAX { Some(raw) } else { None::<u16> }),
{
    match embedded_can::StandardId::new(raw) {
        Some(id) => Some(id.as_raw()),
        None => None,
    }
}

/// A classic CAN data frame with a standard identifier.
#[derive(Clone, Debug)]
pub struct CanFrame {
    pub id: u16,
    pub data: Vec<u8>,
}

/// The standard identifier held in bits 21..=31 of an identifier register.
pub open spec fn stid_of(mir: u32) -> u16 {
    ((mir >> STID_SHIFT) & 0x7ff) as u16
}

/// The data length a length register announces: its low four bits, at most eight.
pub open spec fn dlc_of(mdtr: u32) -> nat {
    let raw = (mdtr & 0xf) as nat;
    if raw > 8 { 8 } else { raw }
}

/// Byte `i` (0..8) of the payload held little-endian in the low and high data words.
pub open spec fn byte_of(lo: u32, hi: u32, i: int) -> u8 {
    let w = if i < 4 { lo } else { hi };
    let k = if i < 4 { i } else { i - 4 };
    if k == 0 {
        (w & 0xff) as u8
    } else if k == 1 {
        ((w >> 8u32) & 0xff) as u8
    } else if k == 2 {
        ((w >> 16u32) & 0xff) as u8
    } else {
        ((w >> 24u32) & 0xff) as u8
    }
}

/// The payload a receive slot holds: the first `dlc` bytes of its data words.
pub open spec fn payload_of(mdtr: u32, lo: u32, hi: u32) -> Seq<u8> {
    Seq::new(dlc_of(mdtr), |i: int| byte_of(lo, hi, i))
}

/// Byte `i` of `b`, or zero past its end.
pub open spec fn byte_or_zero(b: Seq<u8>, i: int) -> u8 {
    if 0 <= i < b.len() { b[i] } else { 0 }
}

/// Four bytes of `b` from `start` on, little-endian, zero past the end of `b`.
pub open spec fn word_of(b: Seq<u8>, start: int) -> u32 {
    (byte_or_zero(b, start) as u32)
        | ((byte_or_zero(b, start + 1) as u32) << 8u32)
        | ((byte_or_zero(b, start + 2) as u32) << 16u32)
        | ((byte_or_zero(b, start + 3) as u32) << 24u32)
}

/// The identifier register value that carries `id`.
pub open spec fn id_word(id: u16) -> u32 {
    (id as u32) << STID_SHIFT
}

impl CanFrame {
    /// Identifier within 11 bits and at most eight data bytes.
    pub open spec fn wf(&self) -> bool {
        &&& self.id <= STANDARD_ID_MAX
        &&& self.data@.len() <= DATA_LEN_MAX
    }

    /// A frame with identifier `id` and payload `data`; `None` when `id` does not
    /// fit in 11 bits or `data` holds more than eight bytes.
    pub fn new(id: u16, data: &[u8]) -> (r: Option<CanFrame>)
        ensures
            r is Some <==> (id <= STANDARD_ID_MAX && data@.len() <= DATA_LEN_MAX),
            r matches Some(f) ==> f.wf() && f.id == id && f.data@ == data@,
    {
        if data.len() > DATA_LEN_MAX {
            return None;
        }
        let id = match standard_id(id) {
            Some(id) => id,
            None => return None,
        };
        let mut bytes: Vec<u8> = Vec::new();
        let mut i: usize = 0;
        while i < data.len()
            invariant
                i <= data@.len(),
                bytes@ == data@.subrange(0, i as int),
            decreases data@.len() - i,
        {
            bytes.push(data[i]);
            i = i + 1;
        }
        assert(bytes@ == data@);
        Some(CanFrame { id, data: bytes })
    }

    /// Number of data bytes.
    pub fn dlc(&self) -> (r: usize)
        ensures
            r == self.data@.len(),
    {
        self.data.len()
    }

    /// The identifier register value for this frame, without the request bit.
    pub fn id_word(&self) -> (r: u32)
        requires
            self.wf(),
        ensures
            r == id_word(self.id),
    {
        (self.id as u32) << STID_SHIFT
    }

    /// The data word holding bytes `start..start + 4`, little-endian, zero past the payload.
    pub fn data_word(&self, start: usize) -> (r: u32)
        requires
            start <= 4,
        ensures
            r == word_of(self.data@, start as int),
    {
        let b0 = self.byte_or_zero(start) as u32;
        let b1 = self.byte_or_zero(start + 1) as u32;
        let b2 = self.byte_or_zero(start + 2) as u32;
        let b3 = self.byte_or_zero(start + 3) as u32;
        b0 | (b1 << 8u32) | (b2 << 16u32) | (b3 << 24u32)
    }

    fn byte_or_zero(&self, i: usize) -> (r: u8)
        ensures
            r == byte_or_zero(self.data@, i as int),
    {
        if i < self.data.len() {
            self.data[i]
        } else {
            0
        }
    }

    /// Rebuilds a frame from the raw fields of a receive slot: identifier,
    /// length and the two data words.
    pub fn from_registers(mir: u32, mdtr: u32, lo: u32, hi: u32) -> (r: CanFrame)
        ensures
            r.wf(),
            r.id == stid_of(mir),
            r.data@ == payload_of(mdtr, lo, hi),
    {
        let raw_id = ((mir >> STID_SHIFT) & 0x7ff) as u16;
        assert(((mir >> STID_SHIFT) & 0x7ff) <= 0x7ff) by (bit_vector);
        let id = match standard_id(raw_id) {
            Some(id) => id,
            None => raw_id,
        };
        let raw_dlc = mdtr & 0xf;
        let dlc: usize = if raw_dlc > 8 { 8 } else { raw_dlc as usize };
        let mut data: Vec<u8> = Vec::new();
        let mut i: usize = 0;
        while i < dlc
            invariant
                dlc == dlc_of(mdtr),
                i <= dlc,
                data@ == payload_of(mdtr, lo, hi).subrange(0, i as int),
            decreases dlc - i,
        {
            data.push(data_byte(lo, hi, i));
            i = i + 1;
        }
        assert(data@ == payload_of(mdtr, lo, hi));
        CanFrame { id, data }
    }
}

/// Byte `i` of the payload held in the two data words.
fn data_byte(lo: u32, hi: u32, i: usize) -> (r: u8)
    requires
        i < 8,
    ensures
        r == byte_of(lo, hi, i as int),
{
    let w = if i < 4 { lo } else { hi };
    let k = if i < 4 { i } else { i - 4 };
    if k == 0 {
        (w & 0xff) as u8
    } else if k == 1 {
        ((w >> 8u32) & 0xff) as u8
    } else if k == 2 {
        ((w >> 16u32) & 0xff) as u8
    } else {
        ((w >> 24u32) & 0xff) as u8
    }
}

proof fn lemma_word_bytes(b0: u8, b1: u8, b2: u8, b3: u8)
    ensures
        ({
            let w = (b0 as u32) | ((b1 as u32) << 8u32) | ((b2 as u32) << 16u32) | ((b3 as u32) << 24u32);
            &&& (w & 0xff) as u8 == b0
            &&& ((w >> 8u32) & 0xff) as u8 == b1
            &&& ((w >> 16u32) & 0xff) as u8 == b2
            &&& ((w >> 24u32) & 0xff) as u8 == b3
        }),
{
    let (x0, x1, x2, x3) = (b0 as u32, b1 as u32, b2 as u32, b3 as u32);
    assert(x0 <= 0xff && x1 <= 0xff && x2 <= 0xff && x3 <= 0xff);
    let w = x0 | (x1 << 8u32) | (x2 << 16u32) | (x3 << 24u32);
    assert((w & 0xff) == x0) by (bit_vector)
        requires x0 <= 0xff, x1 <= 0xff, x2 <= 0xff, x3 <= 0xff,
            w == x0 | (x1 << 8u32) | (x2 << 16u32) | (x3 << 24u32);
    assert(((w >> 8u32) & 0xff) == x1) by (bit_vector)
        requires x0 <= 0xff, x1 <= 0xff, x2 <= 0xff, x3 <= 0xff,
            w == x0 | (x1 << 8u32) | (x2 << 16u32) | (x3 << 24u32);
    assert(((w >> 16u32) & 0xff) == x2) by (bit_vector)
        requires x0 <= 0xff, x1 <= 0xff, x2 <= 0xff, x3 <= 0xff,
            w == x0 | (x1 << 8u32) | (x2 << 16u32) | (x3 << 24u32);
    assert(((w >> 24u32) & 0xff) == x3) by (bit_vector)
        requires x0 <= 0xff, x1 <= 0xff, x2 <= 0xff, x3 <= 0xff,
            w == x0 | (x1 << 8u32) | (x2 << 16u32) | (x3 << 24u32);
}

/// Encoding a well-formed frame into the identifier, length and data registers
/// of a slot and decoding those registers gives back its identifier, its length
/// and its payload.
pub proof fn lemma_frame_round_trip(f: CanFrame)
    requires
        f.wf(),
    ensures
        stid_of(id_word(f.id)) == f.id,
        dlc_of(f.data@.len() as u32) == f.data@.len(),
        payload_of(f.data@.len() as u32, word_of(f.data@, 0), word_of(f.data@, 4)) == f.data@,
{
    let id = f.id as u32;
    assert(((id << 21u32) >> 21u32) & 0x7ff == id) by (bit_vector)
        requires id <= 0x7ff;
    let n = f.data@.len() as u32;
    assert(n & 0xf == n) by (bit_vector)
        requires n <= 8;
    let b = f.data@;
    lemma_word_bytes(byte_or_zero(b, 0), byte_or_zero(b, 1), byte_or_zero(b, 2), byte_or_zero(b, 3));
    lemma_word_bytes(byte_or_zero(b, 4), byte_or_zero(b, 5), byte_or_zero(b, 6), byte_or_zero(b, 7));
    let p = payload_of(f.data@.len() as u32, word_of(b, 0), word_of(b, 4));
    assert forall|i: int| 0 <= i < b.len() implies p[i] == b[i] by {
        assert(b[i] == byte_or_zero(b, i));
    }
    assert(p =~= b);
}

} // verus!
