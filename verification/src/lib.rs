//! Verified core of a solar system n-body simulation: the integer and
//! text logic behind sub-stepping, loading progress, selection, input
//! handling and the scenario body hierarchy.

pub mod asset;
pub mod body;
pub mod constants;
pub mod editor;
pub mod input;
pub mod integration;
pub mod loading;
pub mod menu;
pub mod reset;
pub mod save;
pub mod scenario;
pub mod selection;
pub mod state;
pub mod text;
pub mod ui;
