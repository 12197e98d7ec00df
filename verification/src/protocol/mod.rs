pub mod codec;
pub mod command;
pub mod response;
pub mod wire;
