//! A grammar-driven matcher for small XML-shaped telemetry messages.
//!
//! A hardware energy monitor emits a continuous stream of structural
//! events (element start, element end, character data, plus ignorable
//! noise).  This library holds the verified core of the collector that
//! reads that stream: the significant-event filter, the declarative
//! grammar of the one message shape the device emits, the tag-matcher
//! interpreter that turns events into a flat field record, the numeric
//! extraction of the captured readings, and the session policy that
//! decides, for every matcher outcome, whether to keep reading, skip a
//! bad message, publish readings, or restart the transport session.
//!
//! Everything that touches the outside world (the serial port, the
//! byte-level tokenizer, the downstream sink) lives outside this
//! library and hands it plain values.

pub mod events;
pub mod grammar;
pub mod record;
pub mod matcher;
pub mod message;
pub mod session;
