pub mod archive;
pub mod codec;
pub mod extraction;
pub mod key_name;
pub mod tree;
