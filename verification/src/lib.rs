//! The operating-system layer under a Bluetooth Low Energy engine, verified:
//! event queues drawn from a fixed pool, one-shot callouts, nestable critical
//! sections, interrupt redirection, and the single-slot HCI transport between
//! the link layer and an HCI host stack.
//!
//! Every operation works on state that the caller owns exclusively, so each
//! contract describes one atomic step of the layer. Whatever suspends, reads
//! the hardware or calls the engine is left to the caller: an operation that
//! needs it returns the action to take and is entered again with the outcome.
#![allow(non_camel_case_types)]
#![allow(non_snake_case)]

pub mod error;
pub mod hci;
pub mod chan;
pub mod mbuf;
pub mod transport;
pub mod controller;
pub mod npl;
pub mod time;
pub mod driver;
pub mod linkage;
