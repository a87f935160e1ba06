//! A CHIP-8 virtual machine: a verified instruction interpreter (memory,
//! registers, stack, timers, framebuffer) behind a small driver-facing API.

pub mod chip;
pub mod clock;
pub mod entropy;
pub mod input;
pub mod laws;
pub mod machine;
pub mod ops;
pub mod screen;

pub use chip::Chip8;
pub use clock::get_current_millis;
pub use input::InputAction;
pub use ops::get_X;
pub use ops::get_Y;
pub use ops::u16_from_u8;
pub use ops::u16_from_usize;
pub use ops::u8_from_u16;
pub use ops::usize_from_u16;
