//! Host-side logic of a real-time hydrogen-orbital viewer that draws with Vulkan.

pub mod commands;
pub mod controls;
pub mod device;
pub mod floats;
pub mod font;
pub mod frame;
pub mod gpu;
pub mod icosphere;
pub mod lifetime;
pub mod numbers;
pub mod overlay;
pub mod pipeline;
pub mod presets;
pub mod renderer;
pub mod rendering;
pub mod resources;
pub mod shader;
pub mod swapchain;
pub mod text;
pub mod upload;
pub mod utf16;
pub mod waves;
pub mod win32;
