//! Background data pipeline of a metrics dashboard: the source scheduler, the
//! value extractor, the sliding-window point cache and the storage command planner.
pub mod actions;
pub mod color;
pub mod editing;
pub mod extract;
pub mod model;
pub mod window;
pub mod state;
pub mod surveyor;
