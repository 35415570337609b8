//! The table commands, one module per command.

pub mod action;
pub mod create_table;
pub mod distribute_pot;
pub mod join_table;
pub mod leave_table;
pub mod showdown;
pub mod start_game;
