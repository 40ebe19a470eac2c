//! Text rendering of columns (`Series`) and tables (`DataFrame`) for logs and
//! interactive inspection.
//!
//! Every public rendering function appends to a caller-supplied `String` sink
//! and states, over the spec functions of its module, exactly which characters
//! it appends and that it appends nothing else. Appending to a `String` cannot
//! fail, so no rendering reports an error.
pub mod text;
pub mod value;
pub mod series;
pub mod frame;
