//! The logic behind each of the program's commands.

pub mod bench;
pub mod list;
pub mod login;
pub mod ps;
pub mod pull;
pub mod readline;
pub mod readline_laws;
pub mod run;
pub mod serve;
pub mod table;
pub mod transfer;
