//! Decoding of tabular aviation weather observations (METAR rows) into
//! typed records with dual-unit values and derived labels.

pub mod text;
pub mod units;
pub mod wind;
pub mod cloud;
pub mod remarks;
pub mod time;
pub mod metar;
pub mod feed;
