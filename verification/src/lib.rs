//! The verified core of a toolchain for building Java projects.
//!
//! The heart of it is the host side of a multiplexed task-dispatch protocol:
//! a host drives a long-lived worker, the task dispatcher, over one pair of
//! byte streams. [`structs`], [`wire`] and [`protocol`] fix the messages and
//! their bytes, [`streams`] holds the virtual pipes that carry the standard
//! streams of tasks, [`fncall`] decides what the host sends and how it
//! reacts to what the worker sends, and [`jvm`] is the facade that callers
//! launch tasks through.
//!
//! Around it stands what the resolver and the build tool decide: the
//! deduplicating compute cache in [`cache`], the lock of a workspace in
//! [`lockfile`], indexing in [`indexer`], Maven coordinates in [`maven`],
//! and the command lines of the compiler in [`common_args`] and [`plugin`].
//!
//! The library computes and never waits: sending, receiving, waking and
//! everything that touches files, processes or the network is its caller's
//! part.

pub mod cache;
pub mod common_args;
pub mod config;
pub mod fncall;
pub mod indexer;
pub mod javacli;
pub mod jvm;
pub mod list;
pub mod lockfile;
pub mod maven;
pub mod pathdep;
pub mod plugin;
pub mod protocol;
pub mod streams;
pub mod structs;
pub mod text;
pub mod vercmp;
pub mod wire;
