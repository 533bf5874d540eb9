pub mod delta_factory;
pub mod delta_logger;
pub mod merged_logger;
pub mod ring;
pub mod timestamp;
