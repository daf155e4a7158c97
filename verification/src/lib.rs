//! The verified core of a music player: its queue, its radios, its sign-in and its listening
//! sessions.
//!
//! [`order`], [`shuffle`], [`queue`] and [`edit`] are the play queue. [`state`], [`commands`],
//! [`load`], [`radio`], [`progress`], [`snapshot`] and [`listen`] are the playback manager above
//! it, which answers every command and event with the actions to perform. [`identity`] and
//! [`auth`] are the account. [`text`], [`duration`], [`song`], [`settings`], [`playback`] and
//! [`json`] are what they are all made of.

pub mod auth;
pub mod commands;
pub mod duration;
pub mod edit;
pub mod identity;
pub mod json;
pub mod listen;
pub mod load;
pub mod order;
pub mod playback;
pub mod progress;
pub mod queue;
pub mod radio;
pub mod settings;
pub mod shuffle;
pub mod snapshot;
pub mod song;
pub mod state;
pub mod text;
