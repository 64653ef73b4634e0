pub mod bytes;
pub mod client;
pub mod protocal;
