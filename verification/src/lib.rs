//! Verified core of an X-to-Telegram relay: text handling, post selection,
//! message layout and the decision logic of the polling service.

pub mod desktop;
pub mod latest;
pub mod media;
pub mod model;
pub mod order;
pub mod paths;
pub mod round;
pub mod pipeline;
pub mod service;
pub mod settings;
pub mod store;
pub mod telegram;
pub mod text;
pub mod translate;
pub mod x_api;
