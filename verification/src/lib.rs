//! A macro recorder's model and decision logic: the macro schema, the
//! library's storage rules, text and path matching, semantic target scoring
//! and the recorder and playback state machines.
pub mod model;
pub mod text;
pub mod semantic;
pub mod storage;
pub mod recorder;
pub mod automation;
pub mod playback;
pub mod clicks;
pub mod processes;
