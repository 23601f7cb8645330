//! A codec between fixed-length sequences of trytes (base-27 digits, three
//! trits each) and a denser byte representation that stores every group of
//! three trytes in two bytes.

pub mod arrays;
pub mod entropy;
pub mod layout;
pub mod packer;
pub mod trits243;
pub mod trits27;
pub mod trits721;
pub mod trits81;
