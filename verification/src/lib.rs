//! Verified decision logic of the PEA smart-grid assessment pipeline:
//! feeder keys, zone factors, meter phases, page parameters, and the
//! once-loaded data tables.

pub mod cache;
pub mod engine;
pub mod feeder;
pub mod meter;
pub mod names;
pub mod scurve;
pub mod text;
pub mod watch;
pub mod web;
pub mod zone;
