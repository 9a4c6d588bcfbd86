use vstd::prelude::*;

verus! {

/// The characters that Unicode marks `White_Space`, which is what
/// `char::is_whitespace` accepts and what separates the fields of a frame.
pub open spec fn is_ws(c: char) -> bool {
    let u = c as u32;
    (0x09 <= u && u <= 0x0D) || u == 0x20 || u == 0x85 || u == 0xA0 || u == 0x1680 || (0x2000
        <= u && u <= 0x200A) || u == 0x2028 || u == 0x2029 || u == 0x202F || u == 0x205F || u
        == 0x3000
}

/// A well-formed argument: non-empty and free of whitespace.
pub open spec fn is_arg(s: Seq<char>) -> bool {
    s.len() > 0 && forall|i: int| 0 <= i < s.len() ==> !is_ws(#[trigger] s[i])
}

/// One character of a left-to-right scan that splits on runs of whitespace:
/// the tokens finished so far, and the token being read.
pub open spec fn scan_step(st: (Seq<Seq<char>>, Seq<char>), c: char) -> (Seq<Seq<char>>, Seq<char>) {
    if is_ws(c) {
        if st.1.len() > 0 {
            (st.0.push(st.1), Seq::empty())
        } else {
            (st.0, Seq::empty())
        }
    } else {
        (st.0, st.1.push(c))
    }
}

pub open spec fn scan(s: Seq<char>) -> (Seq<Seq<char>>, Seq<char>)
    decreases s.len(),
{
    if s.len() == 0 {
        (Seq::empty(), Seq::empty())
    } else {
        scan_step(scan(s.drop_last()), s.last())
    }
}

/// The maximal runs of non-whitespace characters of `s`, in order.
pub open spec fn tokens(s: Seq<char>) -> Seq<Seq<char>> {
    let st = scan(s);
    if st.1.len() > 0 {
        st.0.push(st.1)
    } else {
        st.0
    }
}

/// Reading a word of non-whitespace characters extends the current token.
pub proof fn lemma_scan_word(p: Seq<char>, w: Seq<char>)
    requires
        forall|i: int| 0 <= i < w.len() ==> !is_ws(#[trigger] w[i]),
    ensures
        scan(p + w) == (scan(p).0, scan(p).1 + w),
    decreases w.len(),
{
    if w.len() == 0 {
        assert(p + w =~= p);
        assert(scan(p).1 + w =~= scan(p).1);
    } else {
        let w0 = w.drop_last();
        assert((p + w).drop_last() =~= p + w0);
        lemma_scan_word(p, w0);
        assert(scan(p).1 + w =~= (scan(p).1 + w0).push(w.last()));
    }
}

/// A whitespace character closes the current token.
pub proof fn lemma_scan_sep(p: Seq<char>, c: char)
    requires
        is_ws(c),
        scan(p).1.len() > 0,
    ensures
        scan(p.push(c)) == (scan(p).0.push(scan(p).1), Seq::<char>::empty()),
{
    assert(p.push(c).drop_last() =~= p);
}

/// Whether `c` is whitespace, as `char::is_whitespace` decides it.
pub fn is_whitespace(c: char) -> (r: bool)
    ensures
        r == is_ws(c),
{
    let u = c as u32;
    (0x09 <= u && u <= 0x0D) || u == 0x20 || u == 0x85 || u == 0xA0 || u == 0x1680 || (0x2000
        <= u && u <= 0x200A) || u == 0x2028 || u == 0x2029 || u == 0x202F || u == 0x205F || u
        == 0x3000
}

/// Whether `s` is non-empty and holds no whitespace.
pub fn valid_arg(s: &str) -> (r: bool)
    ensures
        r == is_arg(s@),
{
    let n = s.unicode_len();
    if n == 0 {
        return false;
    }
    let mut i: usize = 0;
    while i < n
        invariant
            n == s@.len(),
            i <= n,
            forall|j: int| 0 <= j < i ==> !is_ws(#[trigger] s@[j]),
        decreases n - i,
    {
        if is_whitespace(s.get_char(i)) {
            return false;
        }
        i += 1;
    }
    true
}

/// Splits `s` on runs of whitespace, keeping the tokens in order.
pub fn split_whitespace(s: &str) -> (r: Vec<String>)
    ensures
        r@.map_values(|t: String| t@) == tokens(s@),
{
    let n = s.unicode_len();
    let mut toks: Vec<String> = Vec::new();
    let mut start: usize = 0;
    let mut i: usize = 0;
    while i < n
        invariant
            n == s@.len(),
            start <= i <= n,
            scan(s@.subrange(0, i as int)) == (
            toks@.map_values(|t: String| t@),
            s@.subrange(start as int, i as int),
            ),
        decreases n - i,
    {
        let c = s.get_char(i);
        assert(s@.subrange(0, i + 1).drop_last() =~= s@.subrange(0, i as int));
        if is_whitespace(c) {
            if start < i {
                let t = s.substring_char(start, i).to_owned();
                let ghost before = toks@;
                toks.push(t);
                assert(toks@.map_values(|t: String| t@) =~= before.map_values(|t: String| t@).push(
                    s@.subrange(start as int, i as int),
                ));
            }
            start = i + 1;
            assert(s@.subrange(start as int, i + 1) =~= Seq::<char>::empty());
        } else {
            assert(s@.subrange(start as int, i + 1) =~= s@.subrange(start as int, i as int).push(
                c,
            ));
        }
        i += 1;
    }
    assert(s@.subrange(0, n as int) =~= s@);
    if start < n {
        let t = s.substring_char(start, n).to_owned();
        let ghost before = toks@;
        toks.push(t);
        assert(toks@.map_values(|t: String| t@) =~= before.map_values(|t: String| t@).push(
            s@.subrange(start as int, n as int),
        ));
    }
    toks
}

} // verus!
