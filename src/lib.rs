//! Interrupt-synchronised polling core for STM32F3 peripheral checks.
//!
//! The library holds the decisions that firmware makes while it waits on
//! hardware: bounded polling, wraparound detection on free-running counters,
//! state shared between an interrupt handler and the main flow, bounds-checked
//! register addressing, pass/fail bookkeeping and the text of the serial report.
//! The hardware itself (registers, interrupt masking, busy-wait cycles) is
//! driven by the caller.
pub mod harness;
pub mod poll;
pub mod register;
pub mod report;
pub mod shared;
pub mod wrap;
