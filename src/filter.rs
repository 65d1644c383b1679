use vstd::prelude::*;
use crate::registers::FILTER_BANKS;

verus! {

/// Width of a filter bank's filters.
#[derive(Clone, Copy, Debug, PartialEq, Eq)]
pub enum BitMode {
    /// One 32-bit filter.
    Bit32,
    /// Two 16-bit filters.
    Bit16,
}

/// How a filter bank matches identifiers.
#[derive(Clone, Copy, Debug, PartialEq, Eq)]
pub enum FilterMode {
    /// An identifier and a mask of the bits that must match.
    Mask,
    /// A list of identifiers that match exactly.
    List,
}

/// One acceptance filter: the bank it occupies, its width and match mode, and
/// the values of its two filter registers.
#[derive(Clone, Copy, Debug)]
pub struct CanFilter {
    pub bank: usize,
    pub bit_mode: BitMode,
    pub mode: FilterMode,
    /// First filter register: the identifier to match.
    pub id_value: u32,
    /// Second filter register: the mask, or in list mode a second identifier.
    pub id_mask: u32,
}

impl CanFilter {
    /// A 32-bit mask filter in bank `bank` that lets every frame through.
    pub fn accept_all(bank: usize) -> (r: CanFilter)
        requires
            bank < FILTER_BANKS,
        ensures
            r.wf(),
            r.bank == bank,
            r.bit_mode == BitMode::Bit32,
            r.mode == FilterMode::Mask,
            r.id_value == 0,
            r.id_mask == 0,
    {
        CanFilter { bank, bit_mode: BitMode::Bit32, mode: FilterMode::Mask, id_value: 0, id_mask: 0 }
    }

    /// The bank exists.
    pub open spec fn wf(&self) -> bool {
        self.bank < FILTER_BANKS
    }

    /// The scale bit for this filter's bank.
    pub fn scale_bit(&self) -> (r: bool)
        ensures
            r == (self.bit_mode is Bit32),
    {
        match self.bit_mode {
            BitMode::Bit32 => true,
            BitMode::Bit16 => false,
        }
    }

    /// The match-mode bit for this filter's bank.
    pub fn mode_bit(&self) -> (r: bool)
        ensures
            r == (self.mode is List),
    {
        match self.mode {
            FilterMode::Mask => false,
            FilterMode::List => true,
        }
    }
}

} // verus!
