//! Build child-process invocations from small shell-like templates, with
//! injection-safe quoting of the interpolated values.

mod text;
pub mod lexer;
pub mod quote;
pub mod ansi;
pub mod arg;
pub mod script;
pub mod process;

pub use arg::{command_arg, render_argument, CommandArg};
pub use script::{parse_script, ParseError, ScriptSpec};
