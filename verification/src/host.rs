//! The playback engine as the poller sees it: the commands that it is asked, what its
//! answers mean, and how an answer is read out of the engine's reply buffer.

use crate::text::{
    chars_of, decimal, decimal_string, folded, folds_to, numeral_up_to, parse_numeral, trim_bounds,
    trimmed,
};
use vstd::prelude::*;
use vstd::utf8::{decode_utf8, valid_utf8};

verus! {

/// Decks are numbered from 1 to this.
pub const DECKS: u32 = 4;

/// The hotcues of a deck are numbered from 1 to this.
pub const CUES: u32 = 128;

/// The result code with which the engine reports success.
pub const HOST_OK: i32 = 0;

/// The result code with which the engine reports that it does not know a command.
pub const HOST_NOT_IMPLEMENTED: i32 = -2147467263;

/// A question to the engine. `T` is the type of a text: `String` in a running poller,
/// `Seq<char>` in its contracts.
#[derive(Debug, Clone, PartialEq, Eq)]
pub enum Query<T> {
    /// A command that is answered with a text.
    Text(T),
    /// A command that is answered with a number.
    Number(T),
}

/// The engine's answer to a question.
#[derive(Debug, Clone, PartialEq, Eq)]
pub enum Reply<T> {
    Text(T),
    /// A position. Positions are ordered as the engine orders them, and a negative one
    /// means that the engine has none to give.
    Number(i64),
    /// The engine gave no answer.
    Failed,
}

impl View for Query<String> {
    type V = Query<Seq<char>>;

    open spec fn view(&self) -> Query<Seq<char>> {
        match *self {
            Query::Text(c) => Query::Text(c@),
            Query::Number(c) => Query::Number(c@),
        }
    }
}

impl View for Reply<String> {
    type V = Reply<Seq<char>>;

    open spec fn view(&self) -> Reply<Seq<char>> {
        match *self {
            Reply::Text(t) => Reply::Text(t@),
            Reply::Number(n) => Reply::Number(n),
            Reply::Failed => Reply::Failed,
        }
    }
}

impl Reply<String> {
    /// The text of this answer; an answer without one counts as the empty text.
    pub fn into_text_or_empty(self) -> (text: String)
        ensures
            text@ == text_or_empty(self@),
    {
        match self {
            Reply::Text(t) => t,
            _ => String::new(),
        }
    }

    /// The text of this answer, if it has one.
    pub fn into_text(self) -> (text: Option<String>)
        ensures
            crate::events::text_view(text) == text_of(self@),
    {
        match self {
            Reply::Text(t) => Some(t),
            _ => None,
        }
    }

    /// The number of this answer, if it has one.
    pub fn number(&self) -> (n: Option<i64>)
        ensures
            n == number_of(self@),
    {
        match self {
            Reply::Number(n) => Some(*n),
            _ => None,
        }
    }
}

/// The text of an answer; an answer without one counts as the empty text.
pub open spec fn text_or_empty(reply: Reply<Seq<char>>) -> Seq<char> {
    match reply {
        Reply::Text(t) => t,
        _ => Seq::empty(),
    }
}

/// The text of an answer, if it has one.
pub open spec fn text_of(reply: Reply<Seq<char>>) -> Option<Seq<char>> {
    match reply {
        Reply::Text(t) => Some(t),
        _ => None,
    }
}

/// The number of an answer, if it has one.
pub open spec fn number_of(reply: Reply<Seq<char>>) -> Option<i64> {
    match reply {
        Reply::Number(n) => Some(n),
        _ => None,
    }
}

/// The command that asks which deck is active.
pub open spec fn active_deck_command() -> Seq<char> {
    "get_activedeck"@
}

/// A command about a deck: `deck`, the deck's number and the verb.
pub open spec fn deck_command(deck: nat, verb: Seq<char>) -> Seq<char> {
    "deck "@ + decimal(deck) + " "@ + verb
}

/// A command about a hotcue of a deck: the deck's command, then the cue's number.
pub open spec fn cue_command(deck: nat, verb: Seq<char>, cue: nat) -> Seq<char> {
    deck_command(deck, verb) + " "@ + decimal(cue)
}

/// Writes [`deck_command`].
pub fn deck_command_text(deck: u32, verb: &str) -> (command: String)
    ensures
        command@ == deck_command(deck as nat, verb@),
{
    let mut command = String::from_str("deck ");
    let number = decimal_string(deck);
    command.append(number.as_str());
    command.append(" ");
    command.append(verb);
    command
}

/// Writes [`cue_command`].
pub fn cue_command_text(deck: u32, verb: &str, cue: u32) -> (command: String)
    ensures
        command@ == cue_command(deck as nat, verb@, cue as nat),
{
    let mut command = deck_command_text(deck, verb);
    command.append(" ");
    let number = decimal_string(cue);
    command.append(number.as_str());
    command
}

/// Whether a deck's answer to `is_audible` says that it can be heard: `on`, `yes` or
/// `true`, in any mix of upper and lower case.
pub open spec fn audible(flag: Seq<char>) -> bool {
    folded(flag) == "on"@ || folded(flag) == "yes"@ || folded(flag) == "true"@
}

/// Whether a deck's answer to `has_cue` says that the cue is set: `on`, in any mix of
/// upper and lower case.
pub open spec fn cue_set(flag: Seq<char>) -> bool {
    folded(flag) == "on"@
}

/// The deck that an answer to `get_activedeck` names: the answer, trimmed, is a decimal
/// numeral between 1 and the number of decks.
pub open spec fn deck_named(answer: Seq<char>) -> Option<u32> {
    match numeral_up_to(trimmed(answer), DECKS as nat) {
        Some(n) => if n >= 1 {
            Some(n as u32)
        } else {
            None
        },
        None => None,
    }
}

/// Computes [`audible`].
pub fn is_audible(flag: &str) -> (r: bool)
    ensures
        r == audible(flag@),
{
    folds_to(flag, "on") || folds_to(flag, "yes") || folds_to(flag, "true")
}

/// Computes [`cue_set`].
pub fn is_cue_set(flag: &str) -> (r: bool)
    ensures
        r == cue_set(flag@),
{
    folds_to(flag, "on")
}

/// Computes [`deck_named`].
pub fn parse_active_deck(answer: &str) -> (deck: Option<u32>)
    ensures
        deck == deck_named(answer@),
{
    let chars = chars_of(answer);
    let (from, to) = trim_bounds(&chars);
    match parse_numeral(&chars, from, to, DECKS) {
        Some(n) => if n >= 1 {
            Some(n)
        } else {
            None
        },
        None => None,
    }
}

/// Why a question was not answered.
#[derive(Debug, Clone, Copy, PartialEq, Eq, Structural)]
pub enum QueryError {
    /// The engine cannot be asked yet.
    Unavailable,
    /// The answer is no text.
    Malformed,
    /// The engine does not know the command.
    NotImplemented,
    /// The engine reported a failure.
    Failed,
}

/// The error that a result code of the engine stands for, if it stands for one.
pub open spec fn failure_of(code: i32) -> Option<QueryError> {
    if code == HOST_OK {
        None
    } else if code == HOST_NOT_IMPLEMENTED {
        Some(QueryError::NotImplemented)
    } else {
        Some(QueryError::Failed)
    }
}

/// Calls `PluginError::from` on a result code of the engine and names its variant: the
/// code for success is no error, the code for an unknown command is `NotImplemented`,
/// and every other code is a failure. `From` never gives `NullPointer`.
#[verifier::external_body]
fn host_failure(code: i32) -> (failure: Option<QueryError>)
    ensures
        failure == failure_of(code),
{
    match virtualdj_plugin_sdk::PluginError::from(code) {
        virtualdj_plugin_sdk::PluginError::Ok => None,
        virtualdj_plugin_sdk::PluginError::Fail => Some(QueryError::Failed),
        virtualdj_plugin_sdk::PluginError::NotImplemented => Some(QueryError::NotImplemented),
        virtualdj_plugin_sdk::PluginError::NullPointer => Some(QueryError::Unavailable),
    }
}

/// Calls `String::from_utf8`: the text that the bytes encode, if they are valid UTF-8.
#[verifier::external_body]
fn utf8_text(bytes: Vec<u8>) -> (text: Option<String>)
    ensures
        text is Some <==> valid_utf8(bytes@),
        text matches Some(t) ==> t@ == decode_utf8(bytes@),
{
    String::from_utf8(bytes).ok()
}

/// The length of the text at the start of a reply buffer: the bytes before the first
/// zero byte, or all of them where there is none.
pub open spec fn terminated_len(buffer: Seq<u8>) -> nat
    decreases buffer.len(),
{
    if buffer.len() == 0 || buffer[0] == 0 {
        0
    } else {
        1 + terminated_len(buffer.drop_first())
    }
}

/// The bytes of the text at the start of a reply buffer.
pub open spec fn terminated(buffer: Seq<u8>) -> Seq<u8> {
    buffer.take(terminated_len(buffer) as int)
}

/// What a text query gave: with the code for success, the text in the buffer if it is
/// valid UTF-8 and `Malformed` otherwise; with any other code, the error it stands for.
pub open spec fn text_reply_of(code: i32, buffer: Seq<u8>) -> Result<Seq<char>, QueryError> {
    match failure_of(code) {
        Some(e) => Err(e),
        None => if valid_utf8(terminated(buffer)) {
            Ok(decode_utf8(terminated(buffer)))
        } else {
            Err(QueryError::Malformed)
        },
    }
}

/// What a numeric query gave: with the code for success, the number; with any other
/// code, the error it stands for.
pub open spec fn number_reply_of(code: i32, value: i64) -> Result<i64, QueryError> {
    match failure_of(code) {
        Some(e) => Err(e),
        None => Ok(value),
    }
}

proof fn lemma_terminated_len_skip(buffer: Seq<u8>, n: int)
    requires
        0 <= n <= buffer.len(),
        forall|i: int| 0 <= i < n ==> buffer[i] != 0,
    ensures
        terminated_len(buffer) == n + terminated_len(buffer.skip(n)),
    decreases n,
{
    if n > 0 {
        assert(buffer.drop_first().skip(n - 1) =~= buffer.skip(n));
        lemma_terminated_len_skip(buffer.drop_first(), n - 1);
    } else {
        assert(buffer.skip(0) =~= buffer);
    }
}

/// Copies the text at the start of a reply buffer.
pub fn terminated_bytes(buffer: &[u8]) -> (bytes: Vec<u8>)
    ensures
        bytes@ == terminated(buffer@),
{
    let mut bytes: Vec<u8> = Vec::new();
    let mut i: usize = 0;
    while i < buffer.len() && buffer[i] != 0
        invariant
            i <= buffer@.len(),
            forall|j: int| 0 <= j < i ==> buffer@[j] != 0,
            bytes@ == buffer@.take(i as int),
        decreases buffer@.len() - i,
    {
        bytes.push(buffer[i]);
        assert(bytes@ =~= buffer@.take(i + 1));
        i += 1;
    }
    proof {
        lemma_terminated_len_skip(buffer@, i as int);
        assert(terminated_len(buffer@.skip(i as int)) == 0);
    }
    bytes
}

/// Reads the answer to a text query from the engine's result code and reply buffer.
pub fn text_reply(code: i32, buffer: &[u8]) -> (reply: Result<String, QueryError>)
    ensures
        match text_reply_of(code, buffer@) {
            Ok(t) => reply matches Ok(r) && r@ == t,
            Err(e) => reply == Err::<String, QueryError>(e),
        },
{
    match host_failure(code) {
        Some(e) => Err(e),
        None => match utf8_text(terminated_bytes(buffer)) {
            Some(t) => Ok(t),
            None => Err(QueryError::Malformed),
        },
    }
}

/// Reads the answer to a numeric query from the engine's result code and the number it
/// gave.
pub fn number_reply(code: i32, value: i64) -> (reply: Result<i64, QueryError>)
    ensures
        reply == number_reply_of(code, value),
{
    match host_failure(code) {
        Some(e) => Err(e),
        None => Ok(value),
    }
}

/// Turns what a query gave into the answer that the poller takes: an error of any kind
/// is an answer without data.
pub fn text_answer(reply: Result<String, QueryError>) -> (answer: Reply<String>)
    ensures
        answer@ == (match reply {
            Ok(t) => Reply::Text(t@),
            Err(_) => Reply::Failed,
        }),
{
    match reply {
        Ok(t) => Reply::Text(t),
        Err(_) => Reply::Failed,
    }
}

/// Turns what a numeric query gave into the answer that the poller takes.
pub fn number_answer(reply: Result<i64, QueryError>) -> (answer: Reply<String>)
    ensures
        answer@ == (match reply {
            Ok(n) => Reply::<Seq<char>>::Number(n),
            Err(_) => Reply::Failed,
        }),
{
    match reply {
        Ok(n) => Reply::Number(n),
        Err(_) => Reply::Failed,
    }
}

} // verus!
