//! A tie-aware ranking cache: rankings of players by a numeric attribution,
//! one per time range, refreshed as a whole and read by page or by player.

pub mod app_models;
pub mod config;
pub mod handler;
pub mod handlers;
pub mod key_sort;
pub mod model;
pub mod models;
pub mod ranking_laws;
pub mod ranking_spec;
pub mod text;
