//! The terminal client: what it does with a line that was typed and with what came from
//! the server.

use vstd::prelude::*;
use crate::frame::TcpError;
#[allow(unused_imports)]
use crate::frame::tcp_error_text;
use crate::json::{same_text, Json, JsonError};
#[allow(unused_imports)]
use crate::serde_bridge::parsed_text;
use crate::text::{contains, trim};
#[allow(unused_imports)]
use crate::text::{
    contains_at,
    contains_text,
    is_trimmed,
    is_trimmed_at,
    is_white,
    lemma_trimmed_unique,
};

verus! {

/// What is done with a line that was typed.
#[derive(Debug)]
pub enum LineStep {
    /// Leave.
    Exit,
    /// The line is no JSON: say so and ask for another.
    Invalid(JsonError),
    /// Send this value.
    Send(Json),
}

/// Whether a line asks to leave: it is `exit`, white space aside.
pub open spec fn is_exit(line: Seq<char>) -> bool {
    is_trimmed(line, "exit"@)
}

/// The word `exit` asks to leave, with any white space before and after it; a line that
/// does not hold that word does not ask to leave.
pub proof fn lemma_exit_line(line: Seq<char>, before: Seq<char>, after: Seq<char>)
    requires
        forall|k: int| 0 <= k < before.len() ==> is_white(#[trigger] before[k]),
        forall|k: int| 0 <= k < after.len() ==> is_white(#[trigger] after[k]),
    ensures
        is_exit(before + "exit"@ + after),
        is_exit(line) ==> contains_text(line, "exit"@),
{
    reveal_strlit("exit");
    let whole = before + "exit"@ + after;
    let i = before.len() as int;
    let j = i + 4;
    assert(whole.subrange(i, j) =~= "exit"@);
    assert forall|k: int| j <= k < whole.len() implies is_white(#[trigger] whole[k]) by {
        assert(whole[k] == after[k - j]);
    }
    assert(whole[i] == 'e' && whole[j - 1] == 't');
    assert(is_trimmed_at(whole, "exit"@, i, j));
    if is_exit(line) {
        let (a, b) = choose|a: int, b: int| is_trimmed_at(line, "exit"@, a, b);
        assert(contains_at(line, "exit"@, a));
    }
}

/// What is done with a line, given what reading it as JSON came to.
pub fn read_step(read: Result<Json, JsonError>) -> (step: LineStep)
    ensures
        step == match read {
            Ok(json) => LineStep::Send(json),
            Err(error) => LineStep::Invalid(error),
        },
{
    match read {
        Ok(json) => LineStep::Send(json),
        Err(error) => LineStep::Invalid(error),
    }
}

/// What is done with a line that was typed. A line that does not ask to leave must be
/// JSON as it stands.
pub fn line_step(line: &str) -> (step: LineStep)
    ensures
        if is_exit(line@) {
            step is Exit
        } else {
            match parsed_text(line@) {
                Ok(value) => step matches LineStep::Send(json) && json@ == value,
                Err(text) => step matches LineStep::Invalid(error) && error.message@ == text,
            }
        },
{
    let trimmed = trim(line);
    if same_text(trimmed, "exit") {
        return LineStep::Exit;
    }
    proof {
        if is_exit(line@) {
            lemma_trimmed_unique(line@, trimmed@, "exit"@);
        }
    }
    read_step(Json::from_text(line))
}

/// How many seconds the terminal client waits for the length of a frame, and again for its
/// body, before it takes that for silence.
pub const RECEIVE_TIMEOUT_SECS: u64 = 2;

/// What is done with what came from the server.
#[derive(Debug)]
pub enum ReceiverStep {
    /// Show this value, and wait for more.
    Show(Json),
    /// Wait for more.
    Wait,
    /// Stop; this says why.
    Stop(String),
}

/// What is done with what came from the server. An error is no reason to stop where what
/// it says holds the words for silence, whatever kind of error it is; any other error is.
pub fn receiver_step(received: Result<Json, TcpError>) -> (step: ReceiverStep)
    ensures
        match received {
            Ok(json) => step == ReceiverStep::Show(json),
            Err(error) => if contains_text(tcp_error_text(error), "读取超时"@) {
                step is Wait
            } else {
                step matches ReceiverStep::Stop(text) && text@ == tcp_error_text(error)
            },
        },
{
    match received {
        Ok(json) => ReceiverStep::Show(json),
        Err(error) => {
            let text = error.message();
            if contains(text.as_str(), "读取超时") {
                ReceiverStep::Wait
            } else {
                ReceiverStep::Stop(text)
            }
        },
    }
}

/// Silence never stops the terminal client, and a frame that is too large or a closed
/// connection always does.
pub proof fn lemma_silence_is_waited_out()
    ensures
        contains_text(tcp_error_text(TcpError::TimedOut), "读取超时"@),
        !contains_text(tcp_error_text(TcpError::TooLarge), "读取超时"@),
        !contains_text(tcp_error_text(TcpError::Closed), "读取超时"@),
{
    reveal_strlit("读取超时");
    reveal_strlit("数据包太大");
    reveal_strlit("连接已关闭");
    let silence = "读取超时"@;
    assert(silence.subrange(0, silence.len() as int) =~= silence);
    assert(contains_at(silence, silence, 0));
    assert forall|i: int| !contains_at("数据包太大"@, silence, i) by {
        if contains_at("数据包太大"@, silence, i) {
            assert("数据包太大"@.subrange(i, i + silence.len())[0] == silence[0]);
        }
    }
    assert forall|i: int| !contains_at("连接已关闭"@, silence, i) by {
        if contains_at("连接已关闭"@, silence, i) {
            assert("连接已关闭"@.subrange(i, i + silence.len())[0] == silence[0]);
        }
    }
}

} // verus!
