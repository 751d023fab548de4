//! The core of RadioFuzz: detection, fuzzing, recording and scheduling of radio transmissions,
//! without the radios.
pub mod arith;
pub mod arith_laws;
pub mod autotest;
pub mod autotest_laws;
pub mod config;
pub mod config_laws;
pub mod decimals;
pub mod detector;
pub mod detector_laws;
pub mod device;
pub mod device_laws;
pub mod file_laws;
pub mod fuzzer;
pub mod fuzzer_laws;
pub mod pipeline;
pub mod pipeline_laws;
pub mod plan;
pub mod plan_laws;
pub mod recording;
pub mod recording_laws;
pub mod replay;
pub mod replay_laws;
pub mod session;
pub mod signal;
pub mod signal_laws;
pub mod span;
pub mod stats;
pub mod stats_laws;
pub mod strategy_laws;
pub mod stream_laws;
pub mod strategy_text;
pub mod strategy_text_laws;
pub mod text;
pub mod text_laws;
pub mod transmit;
pub mod transmit_laws;
