//! bootupd's logic: where component updates live, what the rpm database says
//! of them, the commands that install them, and the daemon's decisions.
pub mod bios;
pub mod component;
pub mod daemon;
pub mod efi;
pub mod grub;
pub mod ipc;
pub mod model;
pub mod packages;
pub mod path;
pub mod rpm;
pub mod text;
