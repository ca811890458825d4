//! The class file as bytes: reading it and writing it.

pub mod attributes;
pub mod bytes;
pub mod class;
pub mod constant_pool;
pub mod framed;
pub mod frames;
pub mod list;
pub mod method;
