//! Decisions of a remote file transfer: what is to be done, in which order and with which commands,
//! and what is told of it.
//!
//! A transfer is a [`transfer::Session`]. It hands out [`action::Action`]s, and each
//! [`action::Answer`] to the last of them takes it further, until it is over. The session touches no
//! file, program or connection itself.

pub mod accounts;
pub mod action;
pub mod askpass;
pub mod cancellation;
pub mod cleanup;
pub mod command;
pub mod connecting;
pub mod delete;
pub mod grammar;
pub mod legs;
pub mod lines;
pub mod message;
pub mod order;
pub mod profile;
pub mod progress;
pub mod protocol;
pub mod removal;
pub mod reports;
pub mod routes;
pub mod rsync;
pub mod run;
pub mod same_server;
pub mod shell;
pub mod sources;
pub mod ssh;
pub mod story;
pub mod telling;
pub mod text;
pub mod transfer;
pub mod verdict;
pub mod watchdog;
