use vstd::prelude::*;

pub mod assoc;
pub mod box_model;
pub mod bulma;
pub mod cascade;
pub mod color;
pub mod custom;
pub mod edges;
pub mod element;
pub mod engine;
pub mod events;
pub mod flex;
pub mod geometry;
pub mod invalidation;
pub mod keywords;
pub mod order;
pub mod property;
pub mod resolution;
pub mod restyle;
pub mod selector;
pub mod sheet;
pub mod state;
pub mod strings;
pub mod style;
pub mod text;
pub mod unresolved;
pub mod value_parser;
