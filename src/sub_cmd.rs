use vstd::prelude::*;
use vstd::slice::slice_subrange;
use vstd::string::*;
use vstd::utf8::*;

use bytes::Bytes;

use crate::bindings::{
    bytes_from_vec, bytes_view, decode_text, is_alphanumeric, push_char, random_alphanumeric,
};
use crate::command::{Command, CommandError};
use crate::text::{is_arg, is_ws, split_whitespace, tokens, valid_arg};

verus! {

broadcast use group_utf8_lib;

/// SUB initiates a subscription to a subject, optionally joining a distributed queue group.
#[derive(Debug, Clone, PartialEq)]
pub struct SubCommand {
    /// The subject name to subscribe to
    pub subject: String,
    /// If specified, the subscriber will join this queue group
    pub queue_group: Option<String>,
    /// A unique alphanumeric subscription ID, generated by the client
    pub sid: String,
}

/// The fields of a `SubCommand` as character sequences.
pub ghost struct SubCommandView {
    pub subject: Seq<char>,
    pub queue_group: Option<Seq<char>>,
    pub sid: Seq<char>,
}

pub open spec fn opt_view(o: Option<String>) -> Option<Seq<char>> {
    match o {
        Some(s) => Some(s@),
        None => None,
    }
}

impl View for SubCommand {
    type V = SubCommandView;

    open spec fn view(&self) -> SubCommandView {
        SubCommandView { subject: self.subject@, queue_group: opt_view(self.queue_group), sid: self.sid@ }
    }
}

impl SubCommandView {
    /// Every field is non-empty and free of whitespace.
    pub open spec fn wf(self) -> bool {
        &&& is_arg(self.subject)
        &&& (self.queue_group matches Some(g) ==> is_arg(g))
        &&& is_arg(self.sid)
    }
}

/// The command's tag, as it opens every frame.
pub open spec fn sub_tag() -> Seq<char> {
    seq!['S', 'U', 'B']
}

/// `SUB<TAB>subject[<TAB>queue_group]<TAB>sid`, the frame without its terminator.
pub open spec fn wire_line(v: SubCommandView) -> Seq<char> {
    sub_tag() + seq!['\t'] + v.subject + match v.queue_group {
        Some(g) => seq!['\t'] + g,
        None => Seq::empty(),
    } + seq!['\t'] + v.sid
}

/// The bytes of the frame: the line in UTF-8, then `\r\n`.
pub open spec fn wire(v: SubCommandView) -> Seq<u8> {
    encode_utf8(wire_line(v)) + seq![13u8, 10u8]
}

pub open spec fn ends_in_crlf(b: Seq<u8>) -> bool {
    b.len() >= 2 && b[b.len() - 2] == 13u8 && b[b.len() - 1] == 10u8
}

/// What reading `b` as a frame gives.
pub open spec fn parse_spec(b: Seq<u8>) -> Result<SubCommandView, CommandError> {
    if !ends_in_crlf(b) {
        Err(CommandError::IncompleteCommandError)
    } else {
        let body = b.subrange(0, b.len() - 2);
        if !valid_utf8(body) {
            Err(CommandError::Utf8Error)
        } else {
            let t = tokens(decode_utf8(body));
            if t.len() == 0 || t[0] != sub_tag() || t.len() < 3 {
                Err(CommandError::CommandMalformed)
            } else {
                Ok(
                    SubCommandView {
                        subject: t[1],
                        queue_group: if t.len() >= 4 {
                            Some(t[2])
                        } else {
                            None
                        },
                        sid: t.last(),
                    },
                )
            }
        }
    }
}

fn is_sub_tag(s: &str) -> (r: bool)
    ensures
        r == (s@ == sub_tag()),
{
    if s.unicode_len() != 3 {
        return false;
    }
    let r = s.get_char(0) == 'S' && s.get_char(1) == 'U' && s.get_char(2) == 'B';
    if r {
        assert(s@ =~= sub_tag());
    }
    r
}

/// What an id made by `SubCommand::generate_sid` looks like: 12 alphanumeric characters.
pub open spec fn is_generated_sid(s: Seq<char>) -> bool {
    s.len() == 12 && forall|i: int| 0 <= i < s.len() ==> is_alphanumeric(#[trigger] s[i])
}

impl SubCommand {
    /// A builder with no field set.
    pub fn builder() -> (r: SubCommandBuilder)
        ensures
            r.subject is None,
            r.queue_group is None,
            r.sid is None,
    {
        SubCommandBuilder::default()
    }

    /// Generates a random `sid` `String`
    pub fn generate_sid() -> (r: String)
        ensures
            is_generated_sid(r@),
    {
        let mut s = String::new();
        let mut i: usize = 0;
        while i < 12
            invariant
                i <= 12,
                s@.len() == i,
                forall|j: int| 0 <= j < i ==> is_alphanumeric(#[trigger] s@[j]),
            decreases 12 - i,
        {
            let c = random_alphanumeric();
            push_char(&mut s, c);
            i += 1;
        }
        s
    }

    /// The frame for this command, as bytes.
    pub fn encode(&self) -> (r: Vec<u8>)
        ensures
            r@ == wire(self@),
    {
        let mut line = String::new();
        line.append("SUB\t");
        proof {
            reveal_strlit("SUB\t");
            reveal_strlit("\t");
        }
        line.append(self.subject.as_str());
        if let Some(g) = &self.queue_group {
            line.append("\t");
            line.append(g.as_str());
        }
        line.append("\t");
        line.append(self.sid.as_str());
        assert(line@ =~= wire_line(self@));
        let mut out = line.as_str().as_bytes_vec();
        out.push(13u8);
        out.push(10u8);
        assert(out@ =~= wire(self@));
        out
    }

    /// The frame for this command, as a `Bytes` buffer.
    pub fn into_vec(self) -> (r: Result<Bytes, CommandError>)
        ensures
            r matches Ok(b) && bytes_view(b) == wire(self@),
    {
        Ok(bytes_from_vec(self.encode()))
    }

    /// Reads one frame: `SUB`, the subject, an optional queue group and the id,
    /// separated by whitespace and terminated by `\r\n`.
    pub fn try_parse(buf: &[u8]) -> (r: Result<SubCommand, CommandError>)
        ensures
            match parse_spec(buf@) {
                Ok(m) => r matches Ok(c) && c@ == m,
                Err(e) => r matches Err(e2) && e2 == e,
            },
    {
        let len = buf.len();
        if len < 2 || buf[len - 2] != 13u8 || buf[len - 1] != 10u8 {
            return Err(CommandError::IncompleteCommandError);
        }
        let body = slice_subrange(buf, 0, len - 2);
        let text = match decode_text(body) {
            Some(t) => t,
            None => return Err(CommandError::Utf8Error),
        };
        let toks = split_whitespace(text);
        let ghost t = toks@.map_values(|t: String| t@);
        assert(t.len() == toks@.len());
        if toks.len() == 0 {
            return Err(CommandError::CommandMalformed);
        }
        assert(t[0] == toks@[0]@);
        if !is_sub_tag(toks[0].as_str()) || toks.len() < 3 {
            return Err(CommandError::CommandMalformed);
        }
        let n = toks.len();
        let subject = toks[1].clone();
        let sid = toks[n - 1].clone();
        let queue_group = if n >= 4 {
            Some(toks[2].clone())
        } else {
            None
        };
        assert(t[1] == toks@[1]@ && t[2] == toks@[2]@ && t.last() == toks@[n - 1]@);
        Ok(SubCommand { subject, queue_group, sid })
    }
}

impl Command for SubCommand {
    const CMD_NAME: &'static str = "SUB";

    fn into_vec(self) -> Result<Bytes, CommandError> {
        SubCommand::into_vec(self)
    }

    fn try_parse(buf: &[u8]) -> Result<SubCommand, CommandError> {
        SubCommand::try_parse(buf)
    }
}

/// Why a `SubCommandBuilder` could not build a command.
#[derive(Debug, Clone)]
pub enum SubCommandBuilderError {
    /// A required field was never set; carries its name.
    UninitializedField(String),
    /// A field is empty or holds whitespace; carries its name.
    ValidationError(String),
}

/// Assembles a `SubCommand` field by field and checks it when built.
#[derive(Debug, Clone)]
pub struct SubCommandBuilder {
    pub subject: Option<String>,
    pub queue_group: Option<Option<String>>,
    pub sid: Option<String>,
}

impl Default for SubCommandBuilder {
    fn default() -> (r: SubCommandBuilder)
        ensures
            r.subject is None,
            r.queue_group is None,
            r.sid is None,
    {
        SubCommandBuilder { subject: None, queue_group: None, sid: None }
    }
}

pub open spec fn subject_invalid(b: SubCommandBuilder) -> bool {
    b.subject matches Some(s) && !is_arg(s@)
}

pub open spec fn queue_group_invalid(b: SubCommandBuilder) -> bool {
    b.queue_group matches Some(Some(g)) && !is_arg(g@)
}

pub open spec fn sid_invalid(b: SubCommandBuilder) -> bool {
    b.sid matches Some(s) && !is_arg(s@)
}

pub open spec fn opt_opt_view(o: Option<Option<String>>) -> Option<Seq<char>> {
    match o {
        Some(Some(g)) => Some(g@),
        _ => None,
    }
}

/// What a successful build holds: the fields that were set, an id made by
/// `SubCommand::generate_sid` where none was, and every field well-formed.
pub open spec fn built_from(c: SubCommand, b: SubCommandBuilder) -> bool {
    &&& c@.wf()
    &&& b.subject matches Some(s) && c.subject == s
    &&& c@.queue_group == opt_opt_view(b.queue_group)
    &&& (b.sid matches Some(s) ==> c.sid == s)
    &&& (b.sid is None ==> is_generated_sid(c.sid@))
}

impl SubCommandBuilder {
    /// Sets the subject.
    pub fn subject(self, value: &str) -> (r: SubCommandBuilder)
        ensures
            r.subject matches Some(s) && s@ == value@,
            r.queue_group == self.queue_group,
            r.sid == self.sid,
    {
        SubCommandBuilder { subject: Some(value.to_owned()), ..self }
    }

    /// Sets the queue group, or explicitly none.
    pub fn queue_group(self, value: Option<String>) -> (r: SubCommandBuilder)
        ensures
            r.subject == self.subject,
            r.queue_group == Some(value),
            r.sid == self.sid,
    {
        SubCommandBuilder { queue_group: Some(value), ..self }
    }

    /// Sets the subscription id; when unset, `build` generates one.
    pub fn sid(self, value: &str) -> (r: SubCommandBuilder)
        ensures
            r.subject == self.subject,
            r.queue_group == self.queue_group,
            r.sid matches Some(s) && s@ == value@,
    {
        SubCommandBuilder { sid: Some(value.to_owned()), ..self }
    }

    /// Checks each field that was set: it must be non-empty and free of whitespace.
    fn validate(&self) -> (r: Result<(), SubCommandBuilderError>)
        ensures
            subject_invalid(*self) ==> (r matches Err(
                SubCommandBuilderError::ValidationError(f),
            ) && f@ == "subject"@),
            !subject_invalid(*self) && queue_group_invalid(*self) ==> (r matches Err(
                SubCommandBuilderError::ValidationError(f),
            ) && f@ == "queue group"@),
            !subject_invalid(*self) && !queue_group_invalid(*self) && sid_invalid(*self) ==> (r matches Err(
                SubCommandBuilderError::ValidationError(f),
            ) && f@ == "sid"@),
            !subject_invalid(*self) && !queue_group_invalid(*self) && !sid_invalid(*self) ==> r is Ok,
    {
        if let Some(subj) = &self.subject {
            if !valid_arg(subj.as_str()) {
                return Err(SubCommandBuilderError::ValidationError("subject".to_owned()));
            }
        }
        if let Some(Some(qg)) = &self.queue_group {
            if !valid_arg(qg.as_str()) {
                return Err(SubCommandBuilderError::ValidationError("queue group".to_owned()));
            }
        }
        if let Some(sid) = &self.sid {
            if !valid_arg(sid.as_str()) {
                return Err(SubCommandBuilderError::ValidationError("sid".to_owned()));
            }
        }
        Ok(())
    }

    /// Builds the command: validation errors first, in field order, then a
    /// missing subject; an unset id is generated.
    pub fn build(&self) -> (r: Result<SubCommand, SubCommandBuilderError>)
        ensures
            subject_invalid(*self) ==> (r matches Err(
                SubCommandBuilderError::ValidationError(f),
            ) && f@ == "subject"@),
            !subject_invalid(*self) && queue_group_invalid(*self) ==> (r matches Err(
                SubCommandBuilderError::ValidationError(f),
            ) && f@ == "queue group"@),
            !subject_invalid(*self) && !queue_group_invalid(*self) && sid_invalid(*self) ==> (r matches Err(
                SubCommandBuilderError::ValidationError(f),
            ) && f@ == "sid"@),
            !subject_invalid(*self) && !queue_group_invalid(*self) && !sid_invalid(*self)
                && self.subject is None ==> (r matches Err(
                SubCommandBuilderError::UninitializedField(f),
            ) && f@ == "subject"@),
            !subject_invalid(*self) && !queue_group_invalid(*self) && !sid_invalid(*self)
                && self.subject is Some ==> (r matches Ok(c) && built_from(c, *self)),
    {
        match self.validate() {
            Err(e) => return Err(e),
            Ok(()) => {},
        }
        let subject = match &self.subject {
            Some(s) => s.clone(),
            None => return Err(SubCommandBuilderError::UninitializedField("subject".to_owned())),
        };
        let queue_group = match &self.queue_group {
            Some(Some(g)) => Some(g.clone()),
            _ => None,
        };
        let sid = match &self.sid {
            Some(s) => s.clone(),
            None => SubCommand::generate_sid(),
        };
        let r = SubCommand { subject, queue_group, sid };
        proof {
            if self.sid is None {
                assert forall|i: int| 0 <= i < r.sid@.len() implies !is_ws(#[trigger] r.sid@[i]) by {
                    assert(is_alphanumeric(r.sid@[i]));
                }
            }
        }
        Ok(r)
    }
}

} // verus!
