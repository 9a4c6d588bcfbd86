use vstd::prelude::*;
use vstd::utf8::*;

use crate::command::CommandError;
use crate::sub_cmd::{ends_in_crlf, parse_spec, sub_tag, wire, wire_line, SubCommandView};
use crate::text::{is_ws, lemma_scan_sep, lemma_scan_word, scan, tokens};

verus! {

broadcast use group_utf8_lib;

proof fn lemma_tag_is_word()
    ensures
        forall|i: int| 0 <= i < sub_tag().len() ==> !is_ws(#[trigger] sub_tag()[i]),
{
    assert forall|i: int| 0 <= i < sub_tag().len() implies !is_ws(#[trigger] sub_tag()[i]) by {
        assert(sub_tag()[0] == 'S' && sub_tag()[1] == 'U' && sub_tag()[2] == 'B');
    }
}

/// The tokens of a frame's line are the tag, the subject, the queue group if
/// any, and the id.
pub proof fn lemma_wire_line_tokens(v: SubCommandView)
    requires
        v.wf(),
    ensures
        tokens(wire_line(v)) == match v.queue_group {
            Some(g) => seq![sub_tag(), v.subject, g, v.sid],
            None => seq![sub_tag(), v.subject, v.sid],
        },
{
    lemma_tag_is_word();
    let e = Seq::<char>::empty();
    assert(e + sub_tag() =~= sub_tag());
    lemma_scan_word(e, sub_tag());
    let p1 = sub_tag();
    assert(scan(p1) == (Seq::<Seq<char>>::empty(), sub_tag()));
    let p2 = p1.push('\t');
    lemma_scan_sep(p1, '\t');
    let p3 = p2 + v.subject;
    lemma_scan_word(p2, v.subject);
    assert(Seq::<char>::empty() + v.subject =~= v.subject);
    match v.queue_group {
        Some(g) => {
            let p4 = p3.push('\t');
            lemma_scan_sep(p3, '\t');
            let p5 = p4 + g;
            lemma_scan_word(p4, g);
            assert(Seq::<char>::empty() + g =~= g);
            let p6 = p5.push('\t');
            lemma_scan_sep(p5, '\t');
            let p7 = p6 + v.sid;
            lemma_scan_word(p6, v.sid);
            assert(Seq::<char>::empty() + v.sid =~= v.sid);
            assert(wire_line(v) =~= p7);
            assert(tokens(p7) =~= seq![sub_tag(), v.subject, g, v.sid]);
        },
        None => {
            let p4 = p3.push('\t');
            lemma_scan_sep(p3, '\t');
            let p5 = p4 + v.sid;
            lemma_scan_word(p4, v.sid);
            assert(Seq::<char>::empty() + v.sid =~= v.sid);
            assert(wire_line(v) =~= p5);
            assert(tokens(p5) =~= seq![sub_tag(), v.subject, v.sid]);
        },
    }
}

/// Reading back the frame of a well-formed command gives that command.
pub proof fn lemma_round_trip(v: SubCommandView)
    requires
        v.wf(),
    ensures
        parse_spec(wire(v)) == Ok::<SubCommandView, CommandError>(v),
{
    let b = wire(v);
    let line = wire_line(v);
    assert(b.subrange(0, b.len() - 2) =~= encode_utf8(line));
    lemma_wire_line_tokens(v);
}

/// A terminated, valid-UTF-8 frame whose first token is not `SUB` is malformed,
/// whatever follows.
pub proof fn lemma_tag_guard(b: Seq<u8>)
    requires
        ends_in_crlf(b),
        valid_utf8(b.subrange(0, b.len() - 2)),
        tokens(decode_utf8(b.subrange(0, b.len() - 2))).len() > 0,
        tokens(decode_utf8(b.subrange(0, b.len() - 2)))[0] != sub_tag(),
    ensures
        parse_spec(b) == Err::<SubCommandView, CommandError>(CommandError::CommandMalformed),
{
}

/// A buffer that does not end in `\r\n` is incomplete.
pub proof fn lemma_terminator_guard(b: Seq<u8>)
    requires
        !ends_in_crlf(b),
    ensures
        parse_spec(b) == Err::<SubCommandView, CommandError>(CommandError::IncompleteCommandError),
{
}

/// Without a queue group, the line of a frame never holds two tabs in a row.
pub proof fn lemma_no_empty_field(v: SubCommandView)
    requires
        v.wf(),
        v.queue_group is None,
    ensures
        forall|i: int|
            0 <= i < wire_line(v).len() - 1 ==> !(#[trigger] wire_line(v)[i] == '\t' && wire_line(
                v,
            )[i + 1] == '\t'),
{
    lemma_tag_is_word();
    let line = wire_line(v);
    let s = v.subject;
    let n = s.len() as int;
    assert(line =~= sub_tag() + seq!['\t'] + s + seq!['\t'] + v.sid);
    assert forall|i: int| 0 <= i < line.len() - 1 implies !(#[trigger] line[i] == '\t' && line[i
        + 1] == '\t') by {
        if i < 3 {
            assert(!is_ws(sub_tag()[i]));
        } else if i == 3 {
            assert(line[i + 1] == s[0]);
        } else if i < 4 + n {
            assert(line[i] == s[i - 4]);
        } else if i == 4 + n {
            assert(line[i + 1] == v.sid[0]);
        } else {
            assert(line[i] == v.sid[i - 5 - n]);
        }
    }
}

/// A queue group that was encoded is read back unchanged.
pub proof fn lemma_queue_group_kept(v: SubCommandView)
    requires
        v.wf(),
        v.queue_group is Some,
    ensures
        parse_spec(wire(v)) matches Ok(m) && m.queue_group == v.queue_group,
{
    lemma_round_trip(v);
}

} // verus!
