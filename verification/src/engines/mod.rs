//! Parts that the engines share.
pub mod test_utils;
