pub mod configuration;
pub mod state;
pub mod heuristics;
pub mod node;
pub mod path;
pub mod frontier;
pub mod a_star;
pub mod parity;
