//! Decoding of ARM Cortex-M trace streams.
//!
//! Three layers turn an unreliable byte stream into typed trace events:
//! a COBS framer ([`cobs`]), the OrbFlow stream multiplexer ([`oflow`]) and
//! the ITM packet decoder ([`itm`]). The [`collector`] glues them together and
//! hands each decoded event to a caller supplied handler.
pub mod cobs;
pub mod collector;
pub mod itm;
pub mod oflow;
