//! A resumable single-file HTTP downloader, with its decisions verified.
//!
//! The library decides; the program around it performs. A
//! [`transfer::Transfer`] asks for every piece of work that touches the
//! network, the disk or the terminal as a [`transfer::Action`], and takes in
//! what came of it as a [`transfer::Event`]. What a download comes to when
//! its driver does as asked is proved in [`run`].

pub mod decimal;
pub mod downloader;
pub mod errors;
pub mod header;
pub mod progress;
pub mod run;
pub mod transfer;
