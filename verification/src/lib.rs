//! The tick pipeline of a latency benchmark, with a contract on every function.
//!
//! Ticks arrive in packets (`network`), cross a bounded ring (`buffer`, whose protocol between
//! two threads is `protocol`), and are taken by the engine (`engine`): the order book
//! (`orderbook`), the strategy (`strategy`) and the risk check (`risk`) see each tick, and the
//! time they took goes into the histogram (`histogram`). A second ring feeds the log
//! (`logging`). A tick is a record of forty bytes (`tick`) and carries its price as the bits
//! of a double (`float`).
//!
//! The library holds no socket, file, clock or thread. The caller owns those, hands bytes and
//! elapsed times in, and gives each call on a ring exclusive access to it.

pub mod buffer;
pub mod engine;
pub mod float;
pub mod histogram;
pub mod logging;
pub mod network;
pub mod orderbook;
pub mod protocol;
pub mod risk;
pub mod strategy;
pub mod tick;
