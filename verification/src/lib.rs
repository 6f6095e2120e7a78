//! Tap tempo: a sliding-window estimator that turns a stream of timestamped
//! taps into a tempo, together with the pure parts of its presentation.

pub mod bar_graph_display;
pub mod clock;
pub mod input;
pub mod tap_sequences;
pub mod tap_tempo;
