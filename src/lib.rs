//! Per-guild playback queues and the rules that advance them.
pub mod track;
pub mod guild;
pub mod player;
