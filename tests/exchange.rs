use stdio_rpc::exchange::{chars_of, client_step, resolve, server_step, token_table, ClientAction, ServerState};
use stdio_rpc::proto_postcard::{C2SMsg, S2CMsg};
use stdio_rpc::substitute::{evaluate, push_decimal, substitute, value_of, value_or_zero};
use stdio_rpc::symbols::{is_space_char, is_symbol_char, symbols_of};

/// Runs one exchange between the server's and the client's step functions:
/// the queries the server sent, and the client's result.
fn run_exchange(expr: &str) -> (Vec<char>, Option<i64>) {
    let mut state = ServerState::Idle;
    let mut msg = C2SMsg::Request(expr.to_string());
    let mut queries = Vec::new();
    loop {
        let (next, out) = server_step(state, msg);
        state = next;
        if let S2CMsg::Query(c) = out {
            queries.push(c);
        }
        match client_step(out) {
            ClientAction::Reply(v) => msg = C2SMsg::Reply(v),
            ClientAction::Done(v) => return (queries, Some(v)),
            ClientAction::Show(_) => panic!("no log expected"),
            ClientAction::Desync => return (queries, None),
        }
    }
}

fn text(v: &[char]) -> String {
    v.iter().collect()
}

#[test]
fn scenario_no_symbols() {
    assert_eq!(run_exchange("1+2"), (vec![], Some(3)));
}

#[test]
fn scenario_two_symbols() {
    assert_eq!(run_exchange("a+b"), (vec!['a', 'b'], Some(3)));
}

#[test]
fn scenario_repeated_symbol_is_asked_once() {
    assert_eq!(run_exchange("a+a"), (vec!['a'], Some(2)));
    assert_eq!(run_exchange("a*b+a*b+c"), (vec!['a', 'b', 'c'], Some(7)));
}

#[test]
fn scenario_reply_without_request_is_bad_seq() {
    let (state, out) = server_step(ServerState::Idle, C2SMsg::Reply(5));
    assert!(matches!(out, S2CMsg::BadSeq));
    assert!(matches!(state, ServerState::Idle));
    let (state, out) = server_step(state, C2SMsg::Request("1+2".to_string()));
    assert!(matches!(out, S2CMsg::Response(3)));
    assert!(matches!(state, ServerState::Idle));
}

#[test]
fn scenario_unknown_symbol_gets_default() {
    assert_eq!(resolve('z'), 0);
    assert_eq!(run_exchange("z+4"), (vec!['z'], Some(4)));
}

#[test]
fn request_while_awaiting_reply_aborts() {
    let (state, out) = server_step(ServerState::Idle, C2SMsg::Request("a+1".to_string()));
    assert!(matches!(out, S2CMsg::Query('a')));
    assert!(matches!(state, ServerState::AwaitingReply { .. }));
    let (state, out) = server_step(state, C2SMsg::Request("2".to_string()));
    assert!(matches!(out, S2CMsg::BadSeq));
    assert!(matches!(state, ServerState::Idle));
}

#[test]
fn invalid_arithmetic_answers_zero() {
    assert_eq!(run_exchange("a+"), (vec!['a'], Some(0)));
    assert_eq!(run_exchange("1/0"), (vec![], Some(0)));
    assert_eq!(run_exchange("9223372036854775807+1"), (vec![], Some(0)));
    let (_, out) = server_step(ServerState::Idle, C2SMsg::Request("7 7".to_string()));
    assert!(matches!(out, S2CMsg::Response(0)));
}

#[test]
fn negative_and_large_values() {
    assert_eq!(run_exchange("\u{25BC}*\u{25B6}"), (vec!['\u{25BC}', '\u{25B6}'], Some(-100)));
    assert_eq!(run_exchange("\u{25C0} - \u{25B2}"), (vec!['\u{25C0}', '\u{25B2}'], Some(199)));
}

#[test]
fn symbols_skip_digits_space_and_operators() {
    let e = chars_of("a + b*c1 /\t-a\u{3000}b");
    assert_eq!(symbols_of(&e), vec!['a', 'b', 'c']);
    assert_eq!(symbols_of(&chars_of("12 + 3")), Vec::<char>::new());
    assert_eq!(symbols_of(&chars_of("(x)")), vec!['(', 'x', ')']);
    assert!(is_space_char('\u{85}'));
    assert!(!is_space_char('_'));
    assert!(is_symbol_char('%'));
    assert!(!is_symbol_char('7'));
}

#[test]
fn decimal_text() {
    let mut out = vec!['='];
    push_decimal(&mut out, i64::MIN);
    assert_eq!(text(&out), "=-9223372036854775808");
    let mut out = Vec::new();
    push_decimal(&mut out, 0);
    push_decimal(&mut out, 4070);
    assert_eq!(text(&out), "04070");
}

#[test]
fn substitution_and_lookup() {
    let expr = chars_of("a+b*a");
    let syms = vec!['a', 'b'];
    let vals = vec![12, -3];
    assert_eq!(value_of(&syms, &vals, 'b'), Some(-3));
    assert_eq!(value_of(&syms, &vals, 'q'), None);
    assert_eq!(text(&substitute(&expr, &syms, &vals)), "12+-3*12");
    assert_eq!(evaluate(&expr, &syms, &vals), -24);
    assert_eq!(value_or_zero(None), 0);
    assert_eq!(value_or_zero(Some(-8)), -8);
}

#[test]
fn client_actions() {
    assert!(matches!(client_step(S2CMsg::Query('c')), ClientAction::Reply(3)));
    assert!(matches!(client_step(S2CMsg::Response(-4)), ClientAction::Done(-4)));
    assert!(matches!(client_step(S2CMsg::Log("hi".to_string())), ClientAction::Show(ref s) if s == "hi"));
    assert!(matches!(client_step(S2CMsg::BadSeq), ClientAction::Desync));
    let table = token_table();
    assert_eq!(table.len(), 7);
    for (c, v) in table {
        assert_eq!(resolve(c), v);
    }
}
