//! Shared firmware building blocks: write buffers, bit-level serialization,
//! delta encoding of sensor readings and the log formats built on them, the
//! bookkeeping of rings of log files, the console's programs and wire
//! format, CAN bus frames, radio settings and device modes.

pub mod bits;
pub mod buffer;
pub mod can_bus;
pub mod checksum;
pub mod config_structs;
pub mod console;
pub mod debounced_signal;
pub mod debug2defmt_wrapper;
pub mod delta_factory;
pub mod delta_logger;
pub mod delta_logger2;
pub mod device_mode;
pub mod either;
pub mod gps;
pub mod indicator;
pub mod io_traits;
pub mod pvlp;
pub mod ring_logger;
