//! The core of an interactive serial terminal: the escape sequence that
//! ends a session, the framing of file uploads and the sentinel runs by
//! which a device asks for one, the decisions of the loop that bridges the
//! console and the serial line, and the validation of the line's settings.
pub mod bridge;
pub mod escape;
pub mod settings;
pub mod upload;
