//! Core of a server that collects Wi-Fi channel state information (CSI) from ESP32
//! boards.
//!
//! The boards run the `esp-csi-cli-rs` firmware and hang on USB serial ports. The
//! server finds them, verifies their firmware, passes configuration commands on to
//! them, streams their CSI frames to WebSocket clients and writes them to session
//! files. This library holds what the server decides and computes; reading and
//! writing ports, sockets and files is up to the executable around it.
//!
//! - [`serial`] finds boards and keeps the device registry, and handles one link per
//!   board,
//! - [`csi`] decodes frames,
//! - [`parquet_sink`] and [`table`] turn decoded frames into the batches of a session
//!   file,
//! - [`routes`] answers requests,
//! - [`state`] is what the server knows of each device,
//! - [`models`] are the request bodies and the command lines that they stand for,
//! - [`flash`] checks the arguments of the command line,
//! - [`text`] is what all of these say about strings.

pub mod csi;
pub mod flash;
pub mod models;
pub mod parquet_sink;
pub mod routes;
pub mod serial;
pub mod state;
pub mod table;
pub mod text;
