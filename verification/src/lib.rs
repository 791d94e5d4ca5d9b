//! Verified core of the WaveCrux SigRok bridge.
//!
//! The bridge splits a GPL protocol-decoder engine from the WaveCrux
//! process with a subprocess boundary; the two sides talk through
//! length-prefixed JSON frames.  This crate holds the logic of both
//! sides that does not itself touch a pipe, a process or a C pointer:
//!
//!   * [`frame`] — the `<u32 LE length><body>` framing codec;
//!   * [`schema`] — the wire-format data types;
//!   * [`dispatch`] — the subprocess's request handler;
//!   * [`mock`] — the scripted five-decoder backend;
//!   * [`replay`] — turning sparse transitions into dense sample rows;
//!   * [`manifest`] — the WaveCrux-side manifest for a bridged decoder;
//!   * [`registry`] — the shim's per-instance bookkeeping;
//!   * [`supervisor`] — request/response correlation on the shim side;
//!   * [`abi`] — the decisions behind the plugin's C entry points;
//!   * [`text`] — small verified string helpers.

pub mod frame;
pub mod schema;
pub mod replay;
pub mod text;
pub mod mock;
pub mod dispatch;
pub mod registry;
pub mod supervisor;
pub mod manifest;
pub mod engine;
pub mod abi;

