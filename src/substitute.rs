//! Replacing each symbol of an expression by the decimal text of its value,
//! and handing the result to the evaluator.
use vstd::prelude::*;

verus! {

/// The decimal digit for `d`.
pub open spec fn digit_char(d: nat) -> char {
    seq!['0', '1', '2', '3', '4', '5', '6', '7', '8', '9'][d as int]
}

/// The decimal digits of `n`, most significant first.
pub open spec fn nat_digits(n: nat) -> Seq<char>
    decreases n,
{
    if n < 10 {
        seq![digit_char(n)]
    } else {
        nat_digits(n / 10).push(digit_char(n % 10))
    }
}

/// The decimal text of `v`, with a leading `-` where it is negative.
pub open spec fn decimal(v: int) -> Seq<char> {
    if v < 0 {
        seq!['-'] + nat_digits((-v) as nat)
    } else {
        nat_digits(v as nat)
    }
}

/// The value given for `c`: the value at the first place where `c` stands
/// among `syms`.
pub open spec fn lookup(syms: Seq<char>, vals: Seq<i64>, c: char) -> Option<i64>
    decreases syms.len(),
{
    if syms.len() == 0 || vals.len() == 0 {
        None
    } else if syms[0] == c {
        Some(vals[0])
    } else {
        lookup(syms.drop_first(), vals.drop_first(), c)
    }
}

/// What `c` becomes: the decimal text of its value where it has one, else
/// itself.
pub open spec fn piece(syms: Seq<char>, vals: Seq<i64>, c: char) -> Seq<char> {
    match lookup(syms, vals, c) {
        Some(v) => decimal(v as int),
        None => seq![c],
    }
}

/// `e` with each character that has a value replaced by its decimal text.
pub open spec fn substituted(e: Seq<char>, syms: Seq<char>, vals: Seq<i64>) -> Seq<char>
    decreases e.len(),
{
    if e.len() == 0 {
        Seq::empty()
    } else {
        substituted(e.drop_last(), syms, vals) + piece(syms, vals, e.last())
    }
}

/// The value that evalexpr's `eval_int` gives the text `e`, or `None` where
/// it reports an error.
pub uninterp spec fn evalexpr_int(e: Seq<char>) -> Option<i64>;

/// What the server answers for an expression once its symbols have values:
/// the evaluator's value of the substituted text, and zero where the
/// evaluator fails.
pub open spec fn result_of(e: Seq<char>, syms: Seq<char>, vals: Seq<i64>) -> i64 {
    match evalexpr_int(substituted(e, syms, vals)) {
        Some(v) => v,
        None => 0,
    }
}

fn digit(d: u64) -> (c: char)
    requires
        d < 10,
    ensures
        c == digit_char(d as nat),
{
    if d == 0 {
        '0'
    } else if d == 1 {
        '1'
    } else if d == 2 {
        '2'
    } else if d == 3 {
        '3'
    } else if d == 4 {
        '4'
    } else if d == 5 {
        '5'
    } else if d == 6 {
        '6'
    } else if d == 7 {
        '7'
    } else if d == 8 {
        '8'
    } else {
        '9'
    }
}

fn push_digits(out: &mut Vec<char>, n: u64)
    ensures
        final(out)@ == old(out)@ + nat_digits(n as nat),
    decreases n,
{
    if n < 10 {
        out.push(digit(n));
    } else {
        push_digits(out, n / 10);
        out.push(digit(n % 10));
    }
}

/// Appends the decimal text of `v` to `out`.
pub fn push_decimal(out: &mut Vec<char>, v: i64)
    ensures
        final(out)@ == old(out)@ + decimal(v as int),
{
    if v < 0 {
        out.push('-');
        let m: u64 = if v == i64::MIN {
            9223372036854775808u64
        } else {
            (-v) as u64
        };
        push_digits(out, m);
        assert(final(out)@ =~= old(out)@ + decimal(v as int));
    } else {
        push_digits(out, v as u64);
    }
}

/// The value given for `c`, as `lookup` says.
pub fn value_of(syms: &Vec<char>, vals: &Vec<i64>, c: char) -> (r: Option<i64>)
    ensures
        r == lookup(syms@, vals@, c),
{
    let mut i: usize = 0;
    assert(syms@.skip(0) =~= syms@);
    assert(vals@.skip(0) =~= vals@);
    while i < syms.len() && i < vals.len()
        invariant
            i <= syms.len(),
            i <= vals.len(),
            lookup(syms@, vals@, c) == lookup(syms@.skip(i as int), vals@.skip(i as int), c),
        decreases syms.len() - i,
    {
        assert(syms@.skip(i as int).drop_first() =~= syms@.skip(i + 1));
        assert(vals@.skip(i as int).drop_first() =~= vals@.skip(i + 1));
        if syms[i] == c {
            return Some(vals[i]);
        }
        i = i + 1;
    }
    None
}

/// `expr` with each character that has a value replaced by its decimal text.
pub fn substitute(expr: &Vec<char>, syms: &Vec<char>, vals: &Vec<i64>) -> (r: Vec<char>)
    ensures
        r@ == substituted(expr@, syms@, vals@),
{
    let mut out: Vec<char> = Vec::new();
    let mut i: usize = 0;
    while i < expr.len()
        invariant
            i <= expr.len(),
            out@ == substituted(expr@.take(i as int), syms@, vals@),
        decreases expr.len() - i,
    {
        let c = expr[i];
        assert(expr@.take(i + 1).drop_last() =~= expr@.take(i as int));
        match value_of(syms, vals, c) {
            Some(v) => push_decimal(&mut out, v),
            None => out.push(c),
        }
        i = i + 1;
    }
    assert(expr@.take(expr.len() as int) =~= expr@);
    out
}

/// Relies on evalexpr::eval_int: the integer value of an expression, or an
/// error; a function of the text alone.
#[verifier::external_body]
fn eval_int(e: &Vec<char>) -> (r: Option<i64>)
    ensures
        r == evalexpr_int(e@),
{
    let text: String = e.iter().collect();
    evalexpr::eval_int(&text).ok()
}

/// The answer for a given outcome of the evaluator: its value, or zero where
/// it failed.
pub fn value_or_zero(outcome: Option<i64>) -> (r: i64)
    ensures
        r == match outcome {
            Some(v) => v,
            None => 0,
        },
{
    match outcome {
        Some(v) => v,
        None => 0,
    }
}

/// The value of `expr` once each symbol has its value: the substituted text
/// evaluated, and zero where it is no valid arithmetic.
pub fn evaluate(expr: &Vec<char>, syms: &Vec<char>, vals: &Vec<i64>) -> (r: i64)
    ensures
        r == result_of(expr@, syms@, vals@),
{
    let text = substitute(expr, syms, vals);
    value_or_zero(eval_int(&text))
}

} // verus!
