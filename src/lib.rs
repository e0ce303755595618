pub mod binding;
pub mod controller;
pub mod graph;
