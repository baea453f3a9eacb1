//! A second message family, carried as one JSON text per line. The line
//! framing is here; the JSON text of each message is written and read by
//! the caller.
use vstd::prelude::*;

verus! {

/// A request of the line-framed family.
#[derive(Debug)]
pub enum Request {
    ListMacros { dylib_path: String },
    ExpandMacro(u8),
}

/// The byte that ends a line.
pub const NEWLINE: u8 = 10;

/// The byte that every JSON message line starts with: `{`.
pub const OPEN_BRACE: u8 = 123;

/// The number of bytes before the first newline of `s`, or all of them.
pub open spec fn line_len(s: Seq<u8>) -> nat
    decreases s.len(),
{
    if s.len() == 0 || s[0] == NEWLINE {
        0
    } else {
        1 + line_len(s.drop_first())
    }
}

/// `o` with `k` more bytes used.
pub open spec fn shifted(o: Option<(Seq<u8>, nat)>, k: nat) -> Option<(Seq<u8>, nat)> {
    match o {
        Some((l, u)) => Some((l, u + k)),
        None => None,
    }
}

/// The first line of `s` that starts with `{`, without its newline, and the
/// number of bytes up to and with that newline. Lines that start otherwise
/// are stray output and are passed over. An empty line, or the end of the
/// stream before such a line, gives `None`.
pub open spec fn json_line(s: Seq<u8>) -> Option<(Seq<u8>, nat)>
    decreases s.len(),
{
    let n = line_len(s);
    if n == 0 {
        None
    } else if s[0] == OPEN_BRACE {
        Some((s.take(n as int), if n < s.len() { n + 1 } else { n }))
    } else if n < s.len() {
        shifted(json_line(s.skip(n + 1 as int)), n + 1)
    } else {
        None
    }
}

proof fn lemma_line_len_bound(s: Seq<u8>)
    ensures
        line_len(s) <= s.len(),
        line_len(s) < s.len() ==> s[line_len(s) as int] == NEWLINE,
        forall|k: int| 0 <= k < line_len(s) ==> s[k] != NEWLINE,
    decreases s.len(),
{
    if s.len() > 0 && s[0] != NEWLINE {
        lemma_line_len_bound(s.drop_first());
        assert forall|k: int| 0 <= k < line_len(s) implies s[k] != NEWLINE by {
            if k > 0 {
                assert(s[k] == s.drop_first()[k - 1]);
            }
        }
    }
}

fn line_length(s: &[u8], pos: usize) -> (n: usize)
    requires
        pos <= s@.len(),
    ensures
        n == line_len(s@.skip(pos as int)),
        pos + n <= s@.len(),
{
    let mut i: usize = pos;
    while i < s.len() && s[i] != NEWLINE
        invariant
            pos <= i <= s@.len(),
            line_len(s@.skip(pos as int)) == (i - pos) + line_len(s@.skip(i as int)),
        decreases s.len() - i,
    {
        assert(s@.skip(i as int).drop_first() =~= s@.skip(i + 1));
        i = i + 1;
    }
    i - pos
}

/// Finds the message line at the start of `s`, as `json_line` says: its
/// bytes, and the number of bytes read up to and with its newline.
pub fn next_json_line(s: &[u8]) -> (r: Option<(Vec<u8>, usize)>)
    ensures
        match json_line(s@) {
            None => r is None,
            Some((l, u)) => r is Some && r.unwrap().0@ == l && r.unwrap().1 == u,
        },
{
    let mut pos: usize = 0;
    assert(s@.skip(0) =~= s@);
    loop
        invariant
            pos <= s@.len(),
            json_line(s@) == shifted(json_line(s@.skip(pos as int)), pos as nat),
        decreases s@.len() - pos,
    {
        let ghost rest = s@.skip(pos as int);
        let n = line_length(s, pos);
        proof {
            lemma_line_len_bound(rest);
        }
        if n == 0 {
            return None;
        }
        if s[pos] == OPEN_BRACE {
            let mut line: Vec<u8> = Vec::new();
            let end: usize = pos + n;
            let mut i: usize = pos;
            while i < end
                invariant
                    end == pos + n,
                    pos <= i <= pos + n <= s@.len(),
                    line@ == s@.subrange(pos as int, i as int),
                decreases end - i,
            {
                line.push(s[i]);
                i = i + 1;
                assert(line@ =~= s@.subrange(pos as int, i as int));
            }
            assert(line@ =~= rest.take(n as int));
            let used: usize = if pos + n < s.len() {
                pos + n + 1
            } else {
                pos + n
            };
            return Some((line, used));
        }
        if pos + n >= s.len() {
            return None;
        }
        assert(rest.skip(n + 1) =~= s@.skip(pos + n + 1));
        pos = pos + n + 1;
    }
}

/// How a line that was read (without its newline) is taken.
#[derive(Debug, PartialEq, Eq, Structural)]
pub enum LineKind {
    /// Nothing: the stream is over or out of step.
    Empty,
    /// Output of something else that shares the stream: pass it over.
    Stray,
    /// A message's JSON text.
    Message,
}

/// How the line `line` (without its newline) is taken.
pub fn line_kind(line: &[u8]) -> (r: LineKind)
    ensures
        r == LineKind::Empty <==> line@.len() == 0,
        r == LineKind::Message <==> line@.len() > 0 && line@[0] == OPEN_BRACE,
{
    if line.len() == 0 {
        LineKind::Empty
    } else if line[0] == OPEN_BRACE {
        LineKind::Message
    } else {
        LineKind::Stray
    }
}

} // verus!
