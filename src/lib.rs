//! Maps OSC messages to key taps: key names resolve to logical keys, the
//! configured mappings form a table from OSC address to key and guard, and
//! each received packet is decided on against that table.

pub mod config;
pub mod dispatch;
pub mod keys;
pub mod packet;
pub mod table;
