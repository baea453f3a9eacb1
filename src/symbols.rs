//! The symbols of an expression, and the text that results once each symbol
//! is replaced by its value.
use vstd::prelude::*;

verus! {

/// The characters that `char::is_whitespace` accepts: those with Unicode's
/// `White_Space` property.
pub open spec fn is_space(c: char) -> bool {
    ||| c == '\t' || c == '\n' || c == '\u{0B}' || c == '\u{0C}' || c == '\r' || c == ' '
    ||| c == '\u{85}' || c == '\u{A0}' || c == '\u{1680}'
    ||| '\u{2000}' <= c && c <= '\u{200A}'
    ||| c == '\u{2028}' || c == '\u{2029}' || c == '\u{202F}' || c == '\u{205F}' || c == '\u{3000}'
}

/// A character that the server cannot read itself: no ASCII digit, no
/// whitespace and none of the operators `+ - * /`.
pub open spec fn is_symbol(c: char) -> bool {
    !('0' <= c && c <= '9' || is_space(c) || c == '+' || c == '-' || c == '*' || c == '/')
}

/// The symbols of `e`, each once, in the order of their first occurrence.
pub open spec fn symbol_seq(e: Seq<char>) -> Seq<char>
    decreases e.len(),
{
    if e.len() == 0 {
        Seq::empty()
    } else {
        let prev = symbol_seq(e.drop_last());
        if is_symbol(e.last()) && !prev.contains(e.last()) {
            prev.push(e.last())
        } else {
            prev
        }
    }
}

/// The symbols of an expression are distinct, and they are exactly the
/// symbol characters that occur in it: each is asked for once per exchange.
pub proof fn lemma_symbols_distinct(e: Seq<char>)
    ensures
        symbol_seq(e).no_duplicates(),
        forall|c: char| #[trigger] symbol_seq(e).contains(c) <==> is_symbol(c) && e.contains(c),
    decreases e.len(),
{
    if e.len() > 0 {
        let d = e.drop_last();
        lemma_symbols_distinct(d);
        let p = symbol_seq(d);
        let x = e.last();
        assert forall|c: char| e.contains(c) <==> (d.contains(c) || c == x) by {
            if e.contains(c) {
                let i = choose|i: int| 0 <= i < e.len() && e[i] == c;
                if i < e.len() - 1 {
                    assert(d[i] == c);
                }
            }
            if d.contains(c) {
                let i = choose|i: int| 0 <= i < d.len() && d[i] == c;
                assert(e[i] == c);
            }
            if c == x {
                assert(e[e.len() - 1] == c);
            }
        }
        if is_symbol(x) && !p.contains(x) {
            let q = p.push(x);
            assert forall|c: char| q.contains(c) <==> (p.contains(c) || c == x) by {
                if q.contains(c) {
                    let i = choose|i: int| 0 <= i < q.len() && q[i] == c;
                    if i < p.len() {
                        assert(p[i] == c);
                    }
                }
                if p.contains(c) {
                    let i = choose|i: int| 0 <= i < p.len() && p[i] == c;
                    assert(q[i] == c);
                }
                if c == x {
                    assert(q[q.len() - 1] == c);
                }
            }
            assert forall|i: int, j: int| 0 <= i < q.len() && 0 <= j < q.len() && i != j implies q[i]
                != q[j] by {
                if i < p.len() && j < p.len() {
                    assert(p[i] != p[j]);
                } else if i < p.len() {
                    assert(p.contains(q[i]));
                } else {
                    assert(p.contains(q[j]));
                }
            }
        }
    }
}

/// Whether `c` is whitespace, as `char::is_whitespace` decides it.
pub fn is_space_char(c: char) -> (r: bool)
    ensures
        r == is_space(c),
{
    c == '\t' || c == '\n' || c == '\u{0B}' || c == '\u{0C}' || c == '\r' || c == ' ' || c
        == '\u{85}' || c == '\u{A0}' || c == '\u{1680}' || ('\u{2000}' <= c && c <= '\u{200A}')
        || c == '\u{2028}' || c == '\u{2029}' || c == '\u{202F}' || c == '\u{205F}' || c
        == '\u{3000}'
}

/// Whether `c` is a symbol that the server must ask for.
pub fn is_symbol_char(c: char) -> (r: bool)
    ensures
        r == is_symbol(c),
{
    !(('0' <= c && c <= '9') || is_space_char(c) || c == '+' || c == '-' || c == '*' || c == '/')
}

fn contains_char(v: &Vec<char>, c: char) -> (r: bool)
    ensures
        r == v@.contains(c),
{
    let mut i: usize = 0;
    while i < v.len()
        invariant
            i <= v.len(),
            forall|k: int| 0 <= k < i ==> v@[k] != c,
        decreases v.len() - i,
    {
        if v[i] == c {
            return true;
        }
        i = i + 1;
    }
    false
}

/// The symbols of `expr`, each once, in the order of their first occurrence.
pub fn symbols_of(expr: &Vec<char>) -> (r: Vec<char>)
    ensures
        r@ == symbol_seq(expr@),
{
    let mut out: Vec<char> = Vec::new();
    let mut i: usize = 0;
    while i < expr.len()
        invariant
            i <= expr.len(),
            out@ == symbol_seq(expr@.take(i as int)),
        decreases expr.len() - i,
    {
        let c = expr[i];
        assert(expr@.take(i + 1).drop_last() =~= expr@.take(i as int));
        if is_symbol_char(c) && !contains_char(&out, c) {
            out.push(c);
        }
        i = i + 1;
    }
    assert(expr@.take(expr.len() as int) =~= expr@);
    out
}

} // verus!
