//! Kernel-side logic of a small hobby operating system: pixel writers over a
//! linear frame buffer, glyph and text rendering, a scrolling text console,
//! the mouse cursor, and PCI configuration-space decoding and bus scanning.

pub mod console;
pub mod desktop;
pub mod font;
pub mod graphics;
pub mod mouse;
pub mod pci;
pub mod pci_scan;
pub mod usb;
