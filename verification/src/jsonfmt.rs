//! The canonical JSON text of each outbound body, as a function of the
//! body's mathematical value.
//!
//! These spec functions are the single statement of what the serializer
//! emits: exactly this text, and the chat-request parser is proved to invert
//! it. Strings are escaped as JSON asks: quote, backslash, newline, carriage
//! return and tab by their two-character escapes, every other control
//! character by a lower-case `\u00..` escape, and everything else verbatim.

use crate::types::{ChatCompletionView, ImgaeGenView, MessageView};
use vstd::prelude::*;

verus! {

/// The character for one hexadecimal digit, lower case.
pub open spec fn hex_digit(n: nat) -> char {
    if n < 10 {
        (48 + n) as char
    } else {
        (87 + n) as char
    }
}

/// The character for one decimal digit.
pub open spec fn dec_digit(n: nat) -> char {
    (48 + n) as char
}

/// The JSON escape of one character.
pub open spec fn escaped_char(c: char) -> Seq<char> {
    if c == '"' {
        seq!['\\', '"']
    } else if c == '\\' {
        seq!['\\', '\\']
    } else if c == '\n' {
        seq!['\\', 'n']
    } else if c == '\r' {
        seq!['\\', 'r']
    } else if c == '\t' {
        seq!['\\', 't']
    } else if (c as u32) < 32 {
        seq!['\\', 'u', '0', '0', hex_digit((c as nat) / 16), hex_digit((c as nat) % 16)]
    } else {
        seq![c]
    }
}

/// The body of a JSON string: each character escaped in turn.
pub open spec fn escape(s: Seq<char>) -> Seq<char>
    decreases s.len(),
{
    if s.len() == 0 {
        Seq::empty()
    } else {
        escaped_char(s[0]) + escape(s.skip(1))
    }
}

/// A JSON string: the escaped body between quotes.
pub open spec fn quoted(s: Seq<char>) -> Seq<char> {
    seq!['"'] + escape(s) + seq!['"']
}

/// The decimal digits of a number, most significant first.
pub open spec fn dec_digits(n: nat) -> Seq<char>
    decreases n,
{
    if n < 10 {
        seq![dec_digit(n)]
    } else {
        dec_digits(n / 10) + seq![dec_digit(n % 10)]
    }
}

/// The JSON number for a temperature held in tenths: one fractional digit.
pub open spec fn tenths_text(t: nat) -> Seq<char> {
    dec_digits(t / 10) + seq!['.', dec_digit(t % 10)]
}

/// The canonical JSON text of one message.
pub open spec fn message_text(m: MessageView) -> Seq<char> {
    "{\"role\":"@ + quoted(m.role) + ",\"content\":"@ + quoted(m.content) + "}"@
}

/// The canonical JSON texts of a message sequence, comma separated.
pub open spec fn messages_text(ms: Seq<MessageView>) -> Seq<char>
    decreases ms.len(),
{
    if ms.len() == 0 {
        Seq::empty()
    } else if ms.len() == 1 {
        message_text(ms[0])
    } else {
        message_text(ms[0]) + seq![','] + messages_text(ms.skip(1))
    }
}

/// The canonical JSON body of a chat request.
pub open spec fn chat_text(c: ChatCompletionView) -> Seq<char> {
    "{\"model\":"@ + quoted(c.model) + ",\"messages\":["@ + messages_text(c.messages) + "],\"temperature\":"@
        + tenths_text(c.temperature_tenths) + "}"@
}

/// The canonical JSON body of an image request.
pub open spec fn image_text(g: ImgaeGenView) -> Seq<char> {
    "{\"model\":"@ + quoted(g.model) + ",\"prompt\":"@ + quoted(g.prompt) + ",\"n\":"@ + dec_digits(
        g.n,
    ) + ",\"size\":"@ + quoted(g.size) + "}"@
}

} // verus!
