use vstd::prelude::*;
use vstd::string::*;

use crate::error::CodecError;

verus! {

/// The decimal digit character of `d`.
pub open spec fn digit_char(d: nat) -> char {
    if d == 0 { '0' }
    else if d == 1 { '1' }
    else if d == 2 { '2' }
    else if d == 3 { '3' }
    else if d == 4 { '4' }
    else if d == 5 { '5' }
    else if d == 6 { '6' }
    else if d == 7 { '7' }
    else if d == 8 { '8' }
    else { '9' }
}

/// The decimal representation of `n`, without leading zeros.
pub open spec fn decimal_of(n: nat) -> Seq<char>
    decreases n,
{
    if n < 10 {
        seq![digit_char(n)]
    } else {
        decimal_of(n / 10).push(digit_char(n % 10))
    }
}

fn digit_str(d: u64) -> (r: &'static str)
    requires
        d < 10,
    ensures
        r@ == seq![digit_char(d as nat)],
{
    proof {
        reveal_strlit("0");
        reveal_strlit("1");
        reveal_strlit("2");
        reveal_strlit("3");
        reveal_strlit("4");
        reveal_strlit("5");
        reveal_strlit("6");
        reveal_strlit("7");
        reveal_strlit("8");
        reveal_strlit("9");
    }
    if d == 0 { "0" }
    else if d == 1 { "1" }
    else if d == 2 { "2" }
    else if d == 3 { "3" }
    else if d == 4 { "4" }
    else if d == 5 { "5" }
    else if d == 6 { "6" }
    else if d == 7 { "7" }
    else if d == 8 { "8" }
    else { "9" }
}

/// Writes `n` in decimal.
pub fn decimal(n: u64) -> (r: String)
    ensures
        r@ == decimal_of(n as nat),
    decreases n,
{
    if n < 10 {
        let r = String::from_str(digit_str(n));
        assert(r@ =~= decimal_of(n as nat));
        r
    } else {
        let mut r = decimal(n / 10);
        r.append(digit_str(n % 10));
        assert(r@ =~= decimal_of(n as nat));
        r
    }
}

/// The reason given when the computation service answers with `status`.
pub open spec fn status_reason(status: u16) -> Seq<char> {
    "API error: status "@ + decimal_of(status as nat)
}

/// Accepts an HTTP status of the computation service: 200 and nothing else.
pub fn check_status(status: u16) -> (r: Result<(), CodecError>)
    ensures
        match r {
            Ok(_) => status == 200,
            Err(e) => status != 200 && (e matches CodecError::ComputationFailed(m) && m@
                == status_reason(status)),
        },
{
    if status == 200 {
        Ok(())
    } else {
        let mut m = String::from_str("API error: status ");
        let digits = decimal(status as u64);
        m.append(digits.as_str());
        Err(CodecError::ComputationFailed(m))
    }
}

/// What the chat service answered, once its body was read.
#[derive(Debug, Clone, PartialEq, Eq)]
pub enum ChatReply {
    /// A chat message; its content.
    Message(String),
    /// The service reported an error; its text.
    Error(String),
    /// The body did not follow either shape; why.
    Unparseable(String),
}

/// The reason given when the chat service answers with `status`.
pub open spec fn chat_status_reason(status: u16) -> Seq<char> {
    "Ollama API error: status "@ + decimal_of(status as nat)
}

/// The outcome of one chat request that came back with `status` and, where
/// the status was accepted, `reply`.
pub fn chat_outcome(status: u16, reply: ChatReply) -> (r: Result<String, CodecError>)
    ensures
        status != 200 ==> (r matches Err(CodecError::ComputationFailed(m)) && m@
            == chat_status_reason(status)),
        status == 200 ==> match reply {
            ChatReply::Message(c) => r matches Ok(s) && s@ == c@,
            ChatReply::Error(t) => r matches Err(CodecError::ComputationFailed(m)) && m@ == t@,
            ChatReply::Unparseable(t) => r matches Err(CodecError::ComputationFailed(m)) && m@
                == t@,
        },
{
    if status != 200 {
        let mut m = String::from_str("Ollama API error: status ");
        let digits = decimal(status as u64);
        m.append(digits.as_str());
        return Err(CodecError::ComputationFailed(m));
    }
    match reply {
        ChatReply::Message(c) => Ok(c),
        ChatReply::Error(t) => Err(CodecError::ComputationFailed(t)),
        ChatReply::Unparseable(t) => Err(CodecError::ComputationFailed(t)),
    }
}

} // verus!
