//! Host-side driver library for Ajazz / Mirabox button-and-dial panels.
//!
//! The library holds the device catalog, the wire framing of commands and
//! chunked image transfers, the image conversion pipeline, the decoding of
//! input reports and the session and event-diff state machines. Transport
//! I/O is done by the caller, who hands raw reports in and sends the reports
//! that the library builds.

pub mod info;
pub mod error;
pub mod input;
pub mod util;
pub mod protocol;
pub mod session;
pub mod reader;
pub mod images;
pub mod discovery;
