//! Laws of what the tests ask the device: which requests a test makes in a run that passes, and
//! what each of them is about.

pub mod address_space_first;
pub mod address_space_second;
pub mod async_pipeline_first;
pub mod async_pipeline_second;
pub mod async_pipeline_third;
pub mod atomics_first;
pub mod atomics_fourth;
pub mod atomics_second;
pub mod atomics_third;
pub mod block_grid_first;
pub mod block_grid_second;
pub mod caching_first;
pub mod caching_second;
pub mod caching_third;
pub mod control_flow_first;
pub mod control_flow_second;
pub mod control_flow_third;
pub mod determinism_first;
pub mod determinism_fourth;
pub mod determinism_second;
pub mod determinism_third;
pub mod floating_point_first;
pub mod floating_point_second;
pub mod global_memory_first;
pub mod global_memory_second;
pub mod hardware_first;
pub mod hardware_second;
pub mod host_device_first;
pub mod host_device_second;
pub mod integer_first;
pub mod integer_second;
pub mod launch_config_first;
pub mod launch_config_second;
pub mod launch_config_third;
pub mod local_memory_first;
pub mod local_memory_second;
pub mod multi_gpu;
pub mod multi_stream_first;
pub mod multi_stream_fourth;
pub mod multi_stream_second;
pub mod multi_stream_third;
pub mod pointer_bounds_first;
pub mod pointer_bounds_second;
pub mod shared_memory_first;
pub mod shared_memory_second;
pub mod synchronization_first;
pub mod synchronization_fourth;
pub mod synchronization_second;
pub mod synchronization_third;
pub mod toolchain_first;
pub mod toolchain_second;
pub mod warp_level_first;
pub mod warp_level_second;
