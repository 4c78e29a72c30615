//! The decisions of a Google Drive downloader, with what they promise proved.
//!
//! The library decides and computes; the program around it talks to the service, to the file
//! system and to the user. Where the two take turns, the library is a machine that tells what to
//! do next and is told what came of it: [`save::BodySave`] for one file,
//! [`directory::DirectoryDownload`] for a directory, which is made of a [`walk::Walk`] and of one
//! [`shortcut::ShortcutJob`] for each shortcut.

#![allow(unused_imports)]

pub mod config;
pub mod digest;
pub mod directory;
pub mod drive;
pub mod error;
pub mod filename;
pub mod paths;
pub mod report;
pub mod save;
pub mod scan;
pub mod shortcut;
pub mod stats;
pub mod steps;
pub mod text;
pub mod tree;
pub mod walk;
pub mod ways;
