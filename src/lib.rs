//! Wire codec for the `SUB` command of a text-line publish/subscribe protocol.
mod bindings;
pub mod laws;
mod command;
pub mod sub_cmd;
pub mod text;

pub use bindings::{bytes_view, is_alphanumeric};
pub use command::{Command, CommandError};
pub use sub_cmd::{SubCommand, SubCommandBuilder, SubCommandBuilderError, SubCommandView};
pub use text::{is_whitespace, split_whitespace, valid_arg};
