//! Translates Unix `ls` invocations into Windows `dir` and PowerShell commands.

pub mod alias;
pub mod args;
pub mod execute;
pub mod text;
pub mod translate;
