//! Decision core of a learning packet switch for an instrument network that
//! carries NMEA 0183 sentences in UDP datagrams.

pub mod checksum;
pub mod frame;
pub mod text;
pub mod nmea;
pub mod switch_table;
pub mod policy;
pub mod engine;
