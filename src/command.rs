use vstd::prelude::*;

use bytes::Bytes;

verus! {

/// Why a frame could not be read as a command.
#[derive(Debug, Clone, Copy, PartialEq, Eq, Structural)]
pub enum CommandError {
    /// The buffer does not end in `\r\n`: more bytes are needed.
    IncompleteCommandError,
    /// The frame is terminated but its tag, subject or id is missing or wrong.
    CommandMalformed,
    /// The frame, without its terminator, is not valid UTF-8.
    Utf8Error,
}

/// A command of the wire protocol: turned into one frame and read back from one.
pub trait Command: Sized {
    /// The tag that opens every frame of this command, as ASCII text.
    const CMD_NAME: &'static str;

    /// The frame for this value, terminator included.
    fn into_vec(self) -> Result<Bytes, CommandError>;

    /// Reads one complete, `\r\n`-terminated frame.
    fn try_parse(buf: &[u8]) -> Result<Self, CommandError>;
}

} // verus!
