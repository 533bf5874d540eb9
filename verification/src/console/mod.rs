pub mod calibrate;
pub mod programs;
pub mod rpc;
pub mod server;
