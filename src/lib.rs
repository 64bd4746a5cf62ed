//! Verified core of a game-instance launcher: descriptor resolution and
//! merging, platform rules, classpath and launch-argument assembly,
//! download planning with integrity checks and bounded retry, and the
//! lifecycle of the game process.

pub mod text;
pub mod platform;
pub mod rules;

pub mod models;
pub mod descriptor;
pub mod maven;
pub mod args;
pub mod classpath;
pub mod launch;

pub mod download;
pub mod plan;
pub mod versions;
pub mod progress;

pub mod session;
pub mod supervisor;
pub mod crash;
pub mod paths;
pub mod names;

pub mod account;
pub mod auth;
pub mod profile;
pub mod modpack;
pub mod catalog;
pub mod fabric;
pub mod quilt;
