//! Helpers shared by the normalizers and the table classifier.

pub mod char_map;
pub mod clock;
pub mod data_processor;
pub mod json;
pub mod pair_set;
pub mod text;
pub mod unicode_utils;
