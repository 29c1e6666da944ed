//! Operations core of Scripture, a durable journal.
//!
//! The library holds what the Scripture tools decide and compute: the producer spool and
//! its frames, the Producer Wire client, the serving-authority register, configuration
//! and its checks, start-up and activation plans, the capability report, the consumers
//! and the load producer. It performs no input or output: it takes what was read and
//! gives back what to do or to write.
pub mod activation;
pub mod admin_http;
pub mod args;
pub mod authority;
pub mod buffers;
pub mod campaign;
pub mod capability;
pub mod cell;
pub mod commands;
pub mod commands_laws;
pub mod config;
pub mod config_laws;
pub mod connection;
pub mod consume;
pub mod consume_laws;
pub mod consume_lab;
pub mod continuity;
pub mod crd;
pub mod directory;
pub mod directory_laws;
pub mod doctor;
pub mod doctor_laws;
pub mod file;
pub mod frame;
pub mod frame_laws;
pub mod frame_layout;
pub mod http;
pub mod http_laws;
pub mod id_map;
pub mod ids;
pub mod lifecycle;
pub mod load;
pub mod load_laws;
pub mod model;
pub mod numbers;
pub mod policy;
pub mod preflight;
pub mod produce_lab;
pub mod produce_lab_laws;
pub mod scribe;
pub mod serving;
pub mod storage;
pub mod text;
pub mod text_laws;
pub mod wire;
pub mod wire_laws;
