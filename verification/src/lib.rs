//! A small compositing window manager: windows, a taskbar, desktop icons,
//! pointer input and an agent command queue, with their behaviour proved.
pub mod types;
pub mod input;
pub mod window;
pub mod seqs;
pub mod text;
pub mod display;
pub mod taskbar;
pub mod desktop;
pub mod agent;
pub mod ipc;
pub mod compositor;
pub mod invariants;
pub mod render;
pub mod laws;
