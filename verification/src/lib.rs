//! Credit balance monitoring, verified.
//!
//! The library reads one credit balance out of whatever an unreliable
//! backend hands over, keeps the readings as a time series that derives
//! usage from each decrease, turns the series into rates, remaining time,
//! a trend and alerts, and gates the alerts by a cooldown.
//!
//! - [`scraper`] decides the steps of an extraction and searches a page;
//!   [`portal`], [`page`], [`json`] and [`patterns`] read the answers,
//!   [`number`] and [`text`] the numbers in them.
//! - [`database`] is the time-series store.
//! - [`analytics`] computes over a window of the store, in exact fractions
//!   ([`ratio`]).
//! - [`notifications`] is the alert engine; [`display`] writes the balance
//!   in short; [`monitor`] is the cycle that brings them together.
//! - [`config`] holds the settings, [`augment_client`] reads the
//!   session-based backend, [`error`] names what can go wrong.
//!
//! The library performs no request and shows no notification: it says what
//! to do, and takes what came of it.

pub mod error;
pub mod ratio;
pub mod text;
pub mod number;
pub mod patterns;
pub mod page;
pub mod json;
pub mod portal;
pub mod scraper;
pub mod database;
pub mod analytics;
pub mod notifications;
pub mod display;
pub mod monitor;
pub mod config;
pub mod augment_client;
