use vstd::prelude::*;
use vstd::string::StringExecFns;

use crate::websocket::data_transfer::{
    Answer, Candidate, CandidateView, Offer, Outbound, OutboundView, SessionView,
};

verus! {

/// The JSON string literal, quotes and escapes included, that encodes `s`.
pub uninterp spec fn json_quoted(s: Seq<char>) -> Seq<char>;

/// Relies on serde_json::to_string on a `str`: the JSON string literal that
/// encodes it. The serializer writes into a `Vec`, which cannot fail.
#[verifier::external_body]
fn quote(s: &str) -> (r: String)
    ensures
        r@ == json_quoted(s@),
{
    match serde_json::to_string(s) {
        Ok(t) => t,
        Err(_) => String::new(),
    }
}

/// The character of a decimal digit.
pub open spec fn digit_char(d: nat) -> char {
    if d == 0 {
        '0'
    } else if d == 1 {
        '1'
    } else if d == 2 {
        '2'
    } else if d == 3 {
        '3'
    } else if d == 4 {
        '4'
    } else if d == 5 {
        '5'
    } else if d == 6 {
        '6'
    } else if d == 7 {
        '7'
    } else if d == 8 {
        '8'
    } else {
        '9'
    }
}

/// `n` written in decimal, without leading zeros.
pub open spec fn decimal(n: nat) -> Seq<char>
    decreases n,
{
    if n < 10 {
        seq![digit_char(n)]
    } else {
        decimal(n / 10).push(digit_char(n % 10))
    }
}

fn digit_str(d: u8) -> (r: &'static str)
    requires
        d < 10,
    ensures
        r@ == seq![digit_char(d as nat)],
{
    if d == 0 {
        proof { reveal_strlit("0"); }
        "0"
    } else if d == 1 {
        proof { reveal_strlit("1"); }
        "1"
    } else if d == 2 {
        proof { reveal_strlit("2"); }
        "2"
    } else if d == 3 {
        proof { reveal_strlit("3"); }
        "3"
    } else if d == 4 {
        proof { reveal_strlit("4"); }
        "4"
    } else if d == 5 {
        proof { reveal_strlit("5"); }
        "5"
    } else if d == 6 {
        proof { reveal_strlit("6"); }
        "6"
    } else if d == 7 {
        proof { reveal_strlit("7"); }
        "7"
    } else if d == 8 {
        proof { reveal_strlit("8"); }
        "8"
    } else {
        proof { reveal_strlit("9"); }
        "9"
    }
}

/// `n` in decimal, as a JSON number.
pub fn decimal_u8(n: u8) -> (r: String)
    ensures
        r@ == decimal(n as nat),
{
    let mut s = String::new();
    if n >= 100 {
        s.append(digit_str(n / 100));
    }
    if n >= 10 {
        s.append(digit_str((n / 10) % 10));
    }
    s.append(digit_str(n % 10));
    proof {
        reveal_with_fuel(decimal, 3);
        if n >= 100 {
            assert(n as nat / 10 / 10 == n as nat / 100);
            assert(n as nat / 10 % 10 == (n / 10) % 10);
        }
        assert(s@ =~= decimal(n as nat));
    }
    s
}

/// A session description as a JSON object.
pub open spec fn session_json(s: SessionView) -> Seq<char> {
    "{\"type\":"@ + json_quoted(s.kind) + ",\"sdp\":"@ + json_quoted(s.sdp) + "}"@
}

/// An ICE candidate as a JSON object, with the field names of the browser API.
pub open spec fn candidate_json(c: CandidateView) -> Seq<char> {
    "{\"candidate\":"@ + json_quoted(c.candidate) + ",\"sdpMid\":"@ + json_quoted(c.sdp_mid)
        + ",\"sdpMLineIndex\":"@ + decimal(c.sdp_m_line_index as nat) + ",\"usernameFragment\":"@
        + json_quoted(c.username_fragment) + "}"@
}

/// The text of a broadcast: its tag under `data_type`, then its payload.
pub open spec fn outbound_json(m: OutboundView) -> Seq<char> {
    match m {
        OutboundView::Offer(o) => "{\"data_type\":\"offer\",\"offer\":"@ + session_json(o) + "}"@,
        OutboundView::Answer(a) => "{\"data_type\":\"answer\",\"answer\":"@ + session_json(a) + "}"@,
        OutboundView::Candidate(c) => "{\"data_type\":\"candidate\",\"candidate\":"@ + candidate_json(
            c,
        ) + "}"@,
    }
}

fn session_text(kind: &String, sdp: &String) -> (r: String)
    ensures
        r@ == session_json(SessionView { kind: kind@, sdp: sdp@ }),
{
    let mut s = "{\"type\":".to_owned();
    s.append(quote(kind.as_str()).as_str());
    s.append(",\"sdp\":");
    s.append(quote(sdp.as_str()).as_str());
    s.append("}");
    s
}

impl Offer {
    /// The offer as a JSON object.
    pub fn to_json(&self) -> (r: String)
        ensures
            r@ == session_json(self@),
    {
        session_text(&self.kind, &self.sdp)
    }
}

impl Answer {
    /// The answer as a JSON object.
    pub fn to_json(&self) -> (r: String)
        ensures
            r@ == session_json(self@),
    {
        session_text(&self.kind, &self.sdp)
    }
}

impl Candidate {
    /// The candidate as a JSON object.
    pub fn to_json(&self) -> (r: String)
        ensures
            r@ == candidate_json(self@),
    {
        let mut s = "{\"candidate\":".to_owned();
        s.append(quote(self.candidate.as_str()).as_str());
        s.append(",\"sdpMid\":");
        s.append(quote(self.sdpMid.as_str()).as_str());
        s.append(",\"sdpMLineIndex\":");
        s.append(decimal_u8(self.sdpMLineIndex).as_str());
        s.append(",\"usernameFragment\":");
        s.append(quote(self.usernameFragment.as_str()).as_str());
        s.append("}");
        s
    }
}

impl Outbound {
    /// The text sent on the wire for this broadcast.
    pub fn to_json(&self) -> (r: String)
        ensures
            r@ == outbound_json(self@),
    {
        match self {
            Outbound::Offer(o) => {
                let mut s = "{\"data_type\":\"offer\",\"offer\":".to_owned();
                s.append(o.to_json().as_str());
                s.append("}");
                s
            },
            Outbound::Answer(a) => {
                let mut s = "{\"data_type\":\"answer\",\"answer\":".to_owned();
                s.append(a.to_json().as_str());
                s.append("}");
                s
            },
            Outbound::Candidate(c) => {
                let mut s = "{\"data_type\":\"candidate\",\"candidate\":".to_owned();
                s.append(c.to_json().as_str());
                s.append("}");
                s
            },
        }
    }
}

} // verus!
