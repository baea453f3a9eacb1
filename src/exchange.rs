//! The rules of an exchange: which message may follow which, on the
//! server's side and on the client's. Each side is a step function from its
//! state and the message it received to its next state and what it sends;
//! the caller moves the bytes.
use vstd::prelude::*;
use crate::proto_postcard::{C2SMsg, S2CMsg, S2CView};
use crate::symbols::{is_symbol, lemma_symbols_distinct, symbol_seq, symbols_of};
use crate::substitute::{evaluate, result_of};

verus! {

/// The characters of `s`, in order.
pub fn chars_of(s: &str) -> (r: Vec<char>)
    ensures
        r@ == s@,
{
    let mut out: Vec<char> = Vec::new();
    for c in it: s.chars()
        invariant
            out@ == it.seq().take(it.index() as int),
    {
        out.push(c);
    }
    out
}

/// Where the server stands in an exchange.
pub enum ServerState {
    /// No exchange is open; the next message must be a `Request`.
    Idle,
    /// A `Query` for `symbols[values.len()]` is outstanding; `values` holds
    /// the replies to the earlier ones.
    AwaitingReply { expr: Vec<char>, symbols: Vec<char>, values: Vec<i64> },
}

impl ServerState {
    /// The symbols are those of the expression, and one of them is still
    /// asked for.
    pub open spec fn wf(&self) -> bool {
        match self {
            ServerState::Idle => true,
            ServerState::AwaitingReply { expr, symbols, values } => symbols@ == symbol_seq(expr@)
                && values.len() < symbols.len(),
        }
    }

    /// The server waits for the reply on the symbol at `values.len()` of
    /// the symbols of `expr`, with `values` given so far.
    pub open spec fn is_awaiting(&self, expr: Seq<char>, values: Seq<i64>) -> bool {
        self matches ServerState::AwaitingReply { expr: e, symbols: s, values: v } && e@ == expr
            && s@ == symbol_seq(expr) && v@ == values
    }
}

/// What the server sends once it holds a value for each of the first
/// `values.len()` symbols of `expr`: the query for the next symbol, or the
/// response where none is left.
pub open spec fn server_next(expr: Seq<char>, values: Seq<i64>) -> S2CView {
    let syms = symbol_seq(expr);
    if values.len() < syms.len() {
        S2CView::Query(syms[values.len() as int])
    } else {
        S2CView::Response(result_of(expr, syms, values))
    }
}

/// The state in which the server waits after it sent `server_next`.
pub open spec fn server_after(st: ServerState, expr: Seq<char>, values: Seq<i64>) -> bool {
    if values.len() < symbol_seq(expr).len() {
        st.is_awaiting(expr, values)
    } else {
        st is Idle
    }
}

/// The server side of an exchange: from its state and the client's
/// message, the next state and the message it answers with.
///
/// A `Request` while idle opens an exchange; a `Reply` while a query is
/// outstanding records the value. Each answer is the query for the next
/// symbol, or the response once every symbol has a value. Any other message
/// is answered with `BadSeq`, and the server is idle again.
pub fn server_step(state: ServerState, msg: C2SMsg) -> (r: (ServerState, S2CMsg))
    requires
        state.wf(),
    ensures
        r.0.wf(),
        match (state, msg) {
            (ServerState::Idle, C2SMsg::Request(s)) => r.1@ == server_next(s@, Seq::empty())
                && server_after(r.0, s@, Seq::empty()),
            (ServerState::Idle, C2SMsg::Reply(_)) => r.1@ == S2CView::BadSeq && r.0 is Idle,
            (ServerState::AwaitingReply { expr, symbols: _, values }, C2SMsg::Reply(v)) => r.1@
                == server_next(expr@, values@.push(v)) && server_after(r.0, expr@, values@.push(v)),
            (ServerState::AwaitingReply { .. }, C2SMsg::Request(_)) => r.1@ == S2CView::BadSeq
                && r.0 is Idle,
        },
{
    match (state, msg) {
        (ServerState::Idle, C2SMsg::Request(s)) => {
            let expr = chars_of(s.as_str());
            let symbols = symbols_of(&expr);
            let values: Vec<i64> = Vec::new();
            assert(values@ =~= Seq::<i64>::empty());
            answer(expr, symbols, values)
        },
        (ServerState::AwaitingReply { expr, symbols, values }, C2SMsg::Reply(v)) => {
            let mut values = values;
            values.push(v);
            answer(expr, symbols, values)
        },
        _ => (ServerState::Idle, S2CMsg::BadSeq),
    }
}

fn answer(expr: Vec<char>, symbols: Vec<char>, values: Vec<i64>) -> (r: (ServerState, S2CMsg))
    requires
        symbols@ == symbol_seq(expr@),
        values.len() <= symbols.len(),
    ensures
        r.0.wf(),
        r.1@ == server_next(expr@, values@),
        server_after(r.0, expr@, values@),
{
    if values.len() < symbols.len() {
        let c = symbols[values.len()];
        (ServerState::AwaitingReply { expr, symbols, values }, S2CMsg::Query(c))
    } else {
        let v = evaluate(&expr, &symbols, &values);
        (ServerState::Idle, S2CMsg::Response(v))
    }
}

/// Within one exchange each symbol is asked for exactly once: two
/// different points of the exchange never ask for the same symbol, and each
/// symbol that occurs in the expression is asked for at one of them.
pub proof fn lemma_each_symbol_queried_once(
    expr: Seq<char>,
    a: Seq<i64>,
    b: Seq<i64>,
    c: char,
)
    ensures
        a.len() != b.len() && server_next(expr, a) is Query && server_next(expr, b) is Query
            ==> server_next(expr, a) != server_next(expr, b),
        is_symbol(c) && expr.contains(c) ==> exists|k: int|
            0 <= k < symbol_seq(expr).len() && #[trigger] symbol_seq(expr)[k] == c && forall|
                v: Seq<i64>,
            |
                v.len() == k ==> #[trigger] server_next(expr, v) == S2CView::Query(c),
{
    lemma_symbols_distinct(expr);
    let syms = symbol_seq(expr);
    if is_symbol(c) && expr.contains(c) {
        assert(syms.contains(c));
        let k = choose|k: int| 0 <= k < syms.len() && syms[k] == c;
        assert forall|v: Seq<i64>| v.len() == k implies #[trigger] server_next(expr, v)
            == S2CView::Query(c) by {}
    }
}

/// The client's table of symbol values; a symbol that it does not hold
/// gets zero.
pub open spec fn token_value(c: char) -> i64 {
    if c == 'a' {
        1
    } else if c == 'b' {
        2
    } else if c == 'c' {
        3
    } else if c == '\u{25B2}' {
        1
    } else if c == '\u{25BC}' {
        -1i64
    } else if c == '\u{25B6}' {
        100
    } else if c == '\u{25C0}' {
        200
    } else {
        0
    }
}

/// The value that the client replies for `c`.
pub fn resolve(c: char) -> (r: i64)
    ensures
        r == token_value(c),
{
    if c == 'a' {
        1
    } else if c == 'b' {
        2
    } else if c == 'c' {
        3
    } else if c == '\u{25B2}' {
        1
    } else if c == '\u{25BC}' {
        -1
    } else if c == '\u{25B6}' {
        100
    } else if c == '\u{25C0}' {
        200
    } else {
        0
    }
}

/// The symbols that the client's table holds, with their values, in the
/// order in which the client lists them.
pub fn token_table() -> (r: Vec<(char, i64)>)
    ensures
        r@ == seq![
            ('a', 1i64),
            ('b', 2i64),
            ('c', 3i64),
            ('\u{25B2}', 1i64),
            ('\u{25BC}', -1i64),
            ('\u{25B6}', 100i64),
            ('\u{25C0}', 200i64),
        ],
        forall|i: int| 0 <= i < r.len() ==> #[trigger] token_value(r[i].0) == r[i].1,
{
    vec![
        ('a', 1),
        ('b', 2),
        ('c', 3),
        ('\u{25B2}', 1),
        ('\u{25BC}', -1),
        ('\u{25B6}', 100),
        ('\u{25C0}', 200),
    ]
}

/// What the client does with a message from the server.
#[derive(Debug)]
pub enum ClientAction {
    /// Send `Reply` with this value and keep reading.
    Reply(i64),
    /// The exchange is over, with this result.
    Done(i64),
    /// Show this note and keep reading.
    Show(String),
    /// The server reported a message out of turn; the exchange is over
    /// without a result.
    Desync,
}

/// The client side of an exchange that it opened with a `Request`.
pub fn client_step(msg: S2CMsg) -> (r: ClientAction)
    ensures
        match msg {
            S2CMsg::Query(c) => r matches ClientAction::Reply(v) && v == token_value(c),
            S2CMsg::Response(v) => r matches ClientAction::Done(x) && x == v,
            S2CMsg::Log(s) => r matches ClientAction::Show(t) && t@ == s@,
            S2CMsg::BadSeq => r is Desync,
        },
{
    match msg {
        S2CMsg::Query(c) => ClientAction::Reply(resolve(c)),
        S2CMsg::Response(v) => ClientAction::Done(v),
        S2CMsg::Log(s) => ClientAction::Show(s),
        S2CMsg::BadSeq => ClientAction::Desync,
    }
}

} // verus!
