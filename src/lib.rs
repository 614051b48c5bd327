//! Firmware building blocks for a blinking board: the application descriptor
//! that a loader reads from the image, and the decisions of the blink loop.
pub mod blink;
pub mod descriptor;
