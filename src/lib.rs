//! Reading and editing the power and clock control files that the amdgpu kernel
//! driver exposes in sysfs.
pub mod text;
pub mod error;
pub mod gpu_handle;
pub mod sysfs;
pub mod hw_mon;
