//! Decision logic of the thermal control daemon: the records that describe
//! fans, fan drawers and thermal sensors, the order in which one update pass
//! writes them, and the scheduling of the monitor and policy loops.

pub mod clock;
pub mod fan;
pub mod monitor;
pub mod policy;
pub mod record;
pub mod schedule;
pub mod text;
pub mod thermal;
