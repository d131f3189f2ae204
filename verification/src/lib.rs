//! Scene Mode state, actions, compose transcript and asset-mask logic for the
//! GameTerm visual layer, with their contracts.

pub mod scene_model;
pub mod schema;
pub mod text;
pub mod scene_errors;
pub mod validation;
pub mod scene_validate;
pub mod scene_check;
pub mod conditions;
pub mod model;
pub mod render;
pub mod compose;
pub mod runtime;
pub mod resolve;
pub mod scene_messages;
pub mod actions;
pub mod patch;
pub mod debug;
pub mod mask;
pub mod summary;
pub mod demo;
pub mod input;
pub mod asset;
pub mod raster;
pub mod asset_io;
pub mod pipeline_args;
pub mod asset_paths;
pub mod components;
pub mod paint;
pub mod sample;
pub mod regions;
pub mod states;
pub mod pipeline;
