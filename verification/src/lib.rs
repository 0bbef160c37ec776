//! Parts of a virtual machine monitor: CPU profiles for live migration, the i8042
//! keyboard controller, and the VNC server that shows the guest's framebuffer.

pub mod arch;
pub mod bytes;
pub mod devices;
pub mod display;
