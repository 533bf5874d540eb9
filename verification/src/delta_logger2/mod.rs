pub mod bitslice_io;
pub mod bitvec_serialize_traits;
pub mod delta_logger;
