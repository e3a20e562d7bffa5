//! Layout support: text measurement and the computed-layout record.

pub mod text_measure;
pub mod computed;
pub mod titan;
