pub mod bits;
pub mod blob;
pub mod bitset;
pub mod bundle;
pub mod byte_blob;
pub mod component;
pub mod config;
pub mod device;
pub mod entity;
pub mod events;
pub mod hash;
pub mod layout;
pub mod sparse;
pub mod storage;
pub mod type_key;
pub mod world;
