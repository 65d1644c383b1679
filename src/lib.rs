//! Driver logic for a bxCAN-style CAN controller: bit-timing selection,
//! the initialization-mode bracket, acceptance-filter programming, transmit
//! mailbox allocation and receive-FIFO draining, all over a register model
//! of the peripheral.
pub mod can;
pub mod enums;
pub mod filter;
pub mod frame;
pub mod registers;
pub mod timing;
