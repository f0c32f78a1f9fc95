pub mod deserialized;
pub mod token;
pub mod xml;
