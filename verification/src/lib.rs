//! Civil-alert relay core: feed classification, alert normalization,
//! zone resolution and dispatch planning, all with verified contracts.
//! Network and process I/O live outside this crate; everything here is
//! a decision or a computation on plain values.

pub mod alert;
pub mod category;
pub mod dispatch;
pub mod feed;
pub mod normalize;
pub mod pipeline;
pub mod probe;
pub mod text;
pub mod zones;
