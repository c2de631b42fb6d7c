pub mod data_center;
pub mod task;
pub mod virtual_machine;
pub mod workload;
