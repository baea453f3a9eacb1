//! The two message families of the exchange, and their postcard payloads.
use vstd::prelude::*;
use crate::Message;
use crate::wire::{
    postcard_u32, postcard_i64, postcard_str, postcard_char, put_u32, put_i64, put_str, put_char,
    take_u32, take_i64, take_string, take_char,
};

verus! {

/// What the client sends to the server.
#[derive(Debug)]
pub enum C2SMsg {
    /// Opens an exchange with the expression to evaluate.
    Request(String),
    /// Answers the server's outstanding `Query`.
    Reply(i64),
}

/// What the server sends to the client.
#[derive(Debug)]
pub enum S2CMsg {
    /// The value of the expression; closes the exchange.
    Response(i64),
    /// Asks the client for the value of a symbol.
    Query(char),
    /// A note for the client's operator; it does not move the exchange on.
    Log(String),
    /// The client's last message did not fit the state of the exchange.
    BadSeq,
}

/// A client message as a value: its variant and the contents of its field.
pub ghost enum C2SView {
    Request(Seq<char>),
    Reply(i64),
}

/// A server message as a value: its variant and the contents of its field.
pub ghost enum S2CView {
    Response(i64),
    Query(char),
    Log(Seq<char>),
    BadSeq,
}

impl View for C2SMsg {
    type V = C2SView;

    open spec fn view(&self) -> C2SView {
        match self {
            C2SMsg::Request(s) => C2SView::Request(s@),
            C2SMsg::Reply(v) => C2SView::Reply(*v),
        }
    }
}

impl View for S2CMsg {
    type V = S2CView;

    open spec fn view(&self) -> S2CView {
        match self {
            S2CMsg::Response(v) => S2CView::Response(*v),
            S2CMsg::Query(c) => S2CView::Query(*c),
            S2CMsg::Log(s) => S2CView::Log(s@),
            S2CMsg::BadSeq => S2CView::BadSeq,
        }
    }
}

/// The payload of a client message: the variant's index, then its field.
pub open spec fn c2s_wire(m: C2SView) -> Seq<u8> {
    match m {
        C2SView::Request(s) => postcard_u32(0) + postcard_str(s),
        C2SView::Reply(v) => postcard_u32(1) + postcard_i64(v),
    }
}

/// The payload of a server message: the variant's index, then its field.
pub open spec fn s2c_wire(m: S2CView) -> Seq<u8> {
    match m {
        S2CView::Response(v) => postcard_u32(0) + postcard_i64(v),
        S2CView::Query(c) => postcard_u32(1) + postcard_char(c),
        S2CView::Log(s) => postcard_u32(2) + postcard_str(s),
        S2CView::BadSeq => postcard_u32(3),
    }
}

fn joined(head: Vec<u8>, tail: Vec<u8>) -> (r: Vec<u8>)
    ensures
        r@ == head@ + tail@,
{
    let mut r = head;
    let mut t = tail;
    r.append(&mut t);
    r
}

impl Message for C2SMsg {
    open spec fn wire(&self) -> Seq<u8> {
        c2s_wire(self@)
    }

    fn encode(&self) -> (r: Vec<u8>) {
        match self {
            C2SMsg::Request(s) => joined(put_u32(0), put_str(s.as_str())),
            C2SMsg::Reply(v) => joined(put_u32(1), put_i64(*v)),
        }
    }

    fn decode(b: &[u8]) -> (r: Option<C2SMsg>) {
        let taken = take_u32(b);
        proof {
            assert forall|m: C2SMsg, tail: Seq<u8>| b@ == #[trigger] (m.wire() + tail) implies (
            taken is Some && match m {
                C2SMsg::Request(s) => taken.unwrap().0 == 0 && taken.unwrap().1@ == postcard_str(s@)
                    + tail,
                C2SMsg::Reply(v) => taken.unwrap().0 == 1 && taken.unwrap().1@ == postcard_i64(v)
                    + tail,
            }) by {
                match m {
                    C2SMsg::Request(s) => {
                        assert(b@ =~= postcard_u32(0) + (postcard_str(s@) + tail));
                    },
                    C2SMsg::Reply(v) => {
                        assert(b@ =~= postcard_u32(1) + (postcard_i64(v) + tail));
                    },
                }
            }
        }
        let (tag, rest) = match taken {
            Some(t) => t,
            None => return None,
        };
        if tag == 0 {
            let field = take_string(rest.as_slice());
            proof {
                assert forall|m: C2SMsg, tail: Seq<u8>| b@ == #[trigger] (m.wire() + tail) implies (
                m is Request && field is Some && field.unwrap().0@ == m->Request_0@) by {
                    if let C2SMsg::Request(s) = m {
                        assert(rest@ == postcard_str(s@) + tail);
                    }
                }
            }
            match field {
                Some((s, _)) => Some(C2SMsg::Request(s)),
                None => None,
            }
        } else if tag == 1 {
            let field = take_i64(rest.as_slice());
            proof {
                assert forall|m: C2SMsg, tail: Seq<u8>| b@ == #[trigger] (m.wire() + tail) implies (
                m is Reply && field is Some && field.unwrap().0 == m->Reply_0) by {
                    if let C2SMsg::Reply(v) = m {
                        assert(rest@ == postcard_i64(v) + tail);
                    }
                }
            }
            match field {
                Some((v, _)) => Some(C2SMsg::Reply(v)),
                None => None,
            }
        } else {
            None
        }
    }
}

impl Message for S2CMsg {
    open spec fn wire(&self) -> Seq<u8> {
        s2c_wire(self@)
    }

    fn encode(&self) -> (r: Vec<u8>) {
        match self {
            S2CMsg::Response(v) => joined(put_u32(0), put_i64(*v)),
            S2CMsg::Query(c) => joined(put_u32(1), put_char(*c)),
            S2CMsg::Log(s) => joined(put_u32(2), put_str(s.as_str())),
            S2CMsg::BadSeq => put_u32(3),
        }
    }

    fn decode(b: &[u8]) -> (r: Option<S2CMsg>) {
        let taken = take_u32(b);
        proof {
            assert forall|m: S2CMsg, tail: Seq<u8>| b@ == #[trigger] (m.wire() + tail) implies (
            taken is Some && match m {
                S2CMsg::Response(v) => taken.unwrap().0 == 0 && taken.unwrap().1@ == postcard_i64(v)
                    + tail,
                S2CMsg::Query(c) => taken.unwrap().0 == 1 && taken.unwrap().1@ == postcard_char(c)
                    + tail,
                S2CMsg::Log(s) => taken.unwrap().0 == 2 && taken.unwrap().1@ == postcard_str(s@)
                    + tail,
                S2CMsg::BadSeq => taken.unwrap().0 == 3,
            }) by {
                match m {
                    S2CMsg::Response(v) => {
                        assert(b@ =~= postcard_u32(0) + (postcard_i64(v) + tail));
                    },
                    S2CMsg::Query(c) => {
                        assert(b@ =~= postcard_u32(1) + (postcard_char(c) + tail));
                    },
                    S2CMsg::Log(s) => {
                        assert(b@ =~= postcard_u32(2) + (postcard_str(s@) + tail));
                    },
                    S2CMsg::BadSeq => {
                        assert(b@ =~= postcard_u32(3) + tail);
                    },
                }
            }
        }
        let (tag, rest) = match taken {
            Some(t) => t,
            None => return None,
        };
        if tag == 0 {
            let field = take_i64(rest.as_slice());
            proof {
                assert forall|m: S2CMsg, tail: Seq<u8>| b@ == #[trigger] (m.wire() + tail) implies (
                m is Response && field is Some && field.unwrap().0 == m->Response_0) by {
                    if let S2CMsg::Response(v) = m {
                        assert(rest@ == postcard_i64(v) + tail);
                    }
                }
            }
            match field {
                Some((v, _)) => Some(S2CMsg::Response(v)),
                None => None,
            }
        } else if tag == 1 {
            let field = take_char(rest.as_slice());
            proof {
                assert forall|m: S2CMsg, tail: Seq<u8>| b@ == #[trigger] (m.wire() + tail) implies (
                m is Query && field is Some && field.unwrap().0 == m->Query_0) by {
                    if let S2CMsg::Query(c) = m {
                        assert(rest@ == postcard_char(c) + tail);
                    }
                }
            }
            match field {
                Some((c, _)) => Some(S2CMsg::Query(c)),
                None => None,
            }
        } else if tag == 2 {
            let field = take_string(rest.as_slice());
            proof {
                assert forall|m: S2CMsg, tail: Seq<u8>| b@ == #[trigger] (m.wire() + tail) implies (
                m is Log && field is Some && field.unwrap().0@ == m->Log_0@) by {
                    if let S2CMsg::Log(s) = m {
                        assert(rest@ == postcard_str(s@) + tail);
                    }
                }
            }
            match field {
                Some((s, _)) => Some(S2CMsg::Log(s)),
                None => None,
            }
        } else if tag == 3 {
            Some(S2CMsg::BadSeq)
        } else {
            None
        }
    }
}

} // verus!
