//! The terminal client.

use vstd::prelude::*;
#[allow(unused_imports)]
use vstd::utf8::encode_utf8;
#[allow(unused_imports)]
use crate::frame::TcpError;
#[allow(unused_imports)]
use crate::json::{Json, JsonError};
#[allow(unused_imports)]
use crate::serde_bridge::parsed_bytes;
#[allow(unused_imports)]
use crate::terminal::{
    lemma_exit_line, line_step, read_step, receiver_step, LineStep, ReceiverStep,
    RECEIVE_TIMEOUT_SECS,
};
#[allow(unused_imports)]
use crate::text::{contains_at, contains_text, is_trimmed_at, is_white};

verus! {

/// White space is what Unicode takes for it.
pub proof fn lemma_white_space(c: char)
    ensures
        is_white(c) <==> c == '\t' || c == '\n' || c == '\u{b}' || c == '\u{c}' || c == '\r' || c
            == ' ' || c == '\u{85}' || c == '\u{a0}' || c == '\u{1680}' || '\u{2000}' <= c
            <= '\u{200a}' || c == '\u{2028}' || c == '\u{2029}' || c == '\u{202f}' || c
            == '\u{205f}' || c == '\u{3000}',
{
}

/// A line leaves if and only if it is the word `exit` with nothing but white space before and
/// after it.
pub proof fn lemma_exit_leaves(line: &str, step: LineStep)
    requires
        call_ensures(line_step, (line,), step),
    ensures
        step is Exit <==> exists|before: Seq<char>, after: Seq<char>|
            {
                &&& line@ == #[trigger] (before + "exit"@ + after)
                &&& forall|k: int| 0 <= k < before.len() ==> is_white(#[trigger] before[k])
                &&& forall|k: int| 0 <= k < after.len() ==> is_white(#[trigger] after[k])
            },
{
    reveal_strlit("exit");
    if step is Exit {
        let (i, j) = choose|i: int, j: int| is_trimmed_at(line@, "exit"@, i, j);
        let before = line@.take(i);
        let after = line@.skip(j);
        assert(line@ =~= before + "exit"@ + after);
        assert forall|k: int| 0 <= k < after.len() implies is_white(#[trigger] after[k]) by {
            assert(after[k] == line@[k + j]);
        }
        assert forall|k: int| 0 <= k < before.len() implies is_white(#[trigger] before[k]) by {
            assert(before[k] == line@[k]);
        }
    }
    if exists|before: Seq<char>, after: Seq<char>|
        {
            &&& line@ == #[trigger] (before + "exit"@ + after)
            &&& forall|k: int| 0 <= k < before.len() ==> is_white(#[trigger] before[k])
            &&& forall|k: int| 0 <= k < after.len() ==> is_white(#[trigger] after[k])
        } {
        let (before, after) = choose|before: Seq<char>, after: Seq<char>|
            {
                &&& line@ == #[trigger] (before + "exit"@ + after)
                &&& forall|k: int| 0 <= k < before.len() ==> is_white(#[trigger] before[k])
                &&& forall|k: int| 0 <= k < after.len() ==> is_white(#[trigger] after[k])
            };
        lemma_exit_line(line@, before, after);
    }
}

/// Any other line is sent as the whole value that it is parsed as, or refused with what the
/// parser says of it.
pub proof fn lemma_lines_are_sent(line: &str, step: LineStep)
    requires
        call_ensures(line_step, (line,), step),
    ensures
        !(step is Exit) ==> match parsed_bytes(encode_utf8(line@)) {
            Ok(value) => step matches LineStep::Send(json) && json@ == value,
            Err(reason) => step matches LineStep::Invalid(error) && error.message@ == reason,
        },
{
}

/// What was read of a line decides.
pub proof fn lemma_what_was_read_decides(
    json: Json,
    send: LineStep,
    error: JsonError,
    refuse: LineStep,
)
    requires
        call_ensures(read_step, (Ok(json),), send),
        call_ensures(read_step, (Err(error),), refuse),
    ensures
        send == LineStep::Send(json),
        refuse == LineStep::Invalid(error),
{
}

/// A value is shown, silence is waited out, and a closed connection or a frame that is too
/// large stops the terminal client with its words. The frame that is waited for may take
/// two seconds.
pub proof fn lemma_what_is_received_is_shown(
    json: Json,
    shown: ReceiverStep,
    silent: ReceiverStep,
    closed: ReceiverStep,
    large: ReceiverStep,
)
    requires
        call_ensures(receiver_step, (Ok(json),), shown),
        call_ensures(receiver_step, (Err(TcpError::TimedOut),), silent),
        call_ensures(receiver_step, (Err(TcpError::Closed),), closed),
        call_ensures(receiver_step, (Err(TcpError::TooLarge),), large),
    ensures
        shown == ReceiverStep::Show(json),
        silent is Wait,
        closed matches ReceiverStep::Stop(text) && text@ == "连接已关闭"@,
        large matches ReceiverStep::Stop(text) && text@ == "数据包太大"@,
        RECEIVE_TIMEOUT_SECS == 2,
{
    crate::terminal::lemma_silence_is_waited_out();
}

/// An error of the system or of the parser stops the terminal client with what it says,
/// unless the words for silence stand in that.
pub proof fn lemma_other_errors_stop(
    text: String,
    error: JsonError,
    broken: ReceiverStep,
    garbled: ReceiverStep,
)
    requires
        call_ensures(receiver_step, (Err(TcpError::Io(text)),), broken),
        call_ensures(receiver_step, (Err(TcpError::Json(error)),), garbled),
    ensures
        if exists|before: Seq<char>, after: Seq<char>|
            text@ == #[trigger] (before + "读取超时"@ + after) {
            broken is Wait
        } else {
            broken matches ReceiverStep::Stop(told) && told@ == text@
        },
        if exists|before: Seq<char>, after: Seq<char>|
            error.message@ == #[trigger] (before + "读取超时"@ + after) {
            garbled is Wait
        } else {
            garbled matches ReceiverStep::Stop(told) && told@ == error.message@
        },
{
    lemma_contained(text@, "读取超时"@);
    lemma_contained(error.message@, "读取超时"@);
}

/// What a text holds stands in it with something before and something after.
proof fn lemma_contained(text: Seq<char>, part: Seq<char>)
    ensures
        contains_text(text, part) <==> exists|before: Seq<char>, after: Seq<char>|
            text == #[trigger] (before + part + after),
{
    if contains_text(text, part) {
        let i = choose|i: int| contains_at(text, part, i);
        let before = text.take(i);
        let after = text.skip(i + part.len());
        assert(text =~= before + part + after);
    }
    if exists|before: Seq<char>, after: Seq<char>| text == #[trigger] (before + part + after) {
        let (before, after) = choose|before: Seq<char>, after: Seq<char>|
            text == #[trigger] (before + part + after);
        assert(text.subrange(before.len() as int, (before.len() + part.len()) as int) =~= part);
        assert(contains_at(text, part, before.len() as int));
    }
}

} // verus!
