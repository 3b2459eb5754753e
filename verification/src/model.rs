//! The traffic model: stream families, fitted distribution parameters, and
//! the descriptor of one experiment cell.

pub mod class;
pub mod sim_class;
pub mod system;
pub mod utils;
