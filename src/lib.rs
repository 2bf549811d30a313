//! Generates XKCD-style passwords: dictionary words joined by one separator, with
//! optional digit and symbol padding, shaped by a declarative configuration.
//!
//! `generate_password` draws the words and the random choices and hands them to
//! `generator::build_password`, whose result is stated exactly by
//! `generator::password_of`. The module `laws` proves what every password obeys.

pub mod configuration;
pub mod generator;
pub mod laws;
mod random;
pub mod text;
pub mod word_list;

pub use configuration::Configuration;
pub use generator::generate_password;
pub use word_list::SimpleEnglish;
