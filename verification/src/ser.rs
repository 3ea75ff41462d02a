//! The executable serializer: builds the canonical JSON text of the outbound
//! bodies, character for character equal to the spec-level text.

use crate::jsonfmt::{chat_text, dec_digit, dec_digits, escape, escaped_char, hex_digit,
    image_text, message_text, messages_text, quoted, tenths_text};
use crate::types::{ChatCompletion, ImgaeGen, Message, MessageView};
use vstd::prelude::*;

verus! {

/// Escaping distributes over appending one character at the end.
proof fn lemma_escape_snoc(a: Seq<char>, c: char)
    ensures
        escape(a.push(c)) == escape(a) + escaped_char(c),
    decreases a.len(),
{
    if a.len() == 0 {
        assert(a.push(c).skip(1) =~= a);
        assert(escape(a) =~= Seq::<char>::empty());
        assert(escape(a.push(c)) =~= escaped_char(c));
        assert(escape(a) + escaped_char(c) =~= escaped_char(c));
    } else {
        assert(a.push(c)[0] == a[0]);
        assert(a.push(c).skip(1) =~= a.skip(1).push(c));
        lemma_escape_snoc(a.skip(1), c);
        assert(escaped_char(a[0]) + (escape(a.skip(1)) + escaped_char(c)) =~= (escaped_char(a[0])
            + escape(a.skip(1))) + escaped_char(c));
    }
}

/// The comma-separated texts of a message sequence grow one message at a
/// time.
proof fn lemma_messages_text_snoc(a: Seq<MessageView>, m: MessageView)
    ensures
        messages_text(a.push(m)) == if a.len() == 0 {
            message_text(m)
        } else {
            messages_text(a) + seq![','] + message_text(m)
        },
    decreases a.len(),
{
    let b = a.push(m);
    if a.len() == 0 {
        assert(b.len() == 1);
        assert(b[0] == m);
    } else if a.len() == 1 {
        assert(b.len() == 2);
        assert(b[0] == a[0]);
        assert(b.skip(1) =~= seq![m]);
        assert(messages_text(seq![m]) == message_text(m));
        assert(messages_text(a) == message_text(a[0]));
    } else {
        assert(b[0] == a[0]);
        assert(b.skip(1) =~= a.skip(1).push(m));
        lemma_messages_text_snoc(a.skip(1), m);
        assert(message_text(b[0]) + seq![','] + (messages_text(a.skip(1)) + seq![',']
            + message_text(m)) =~= (message_text(a[0]) + seq![','] + messages_text(a.skip(1)))
            + seq![','] + message_text(m));
    }
}

/// The character of one hexadecimal digit.
fn hex_digit_char(d: u8) -> (r: char)
    requires
        d < 16,
    ensures
        r == hex_digit(d as nat),
{
    if d < 10 {
        (48 + d) as char
    } else {
        (87 + d) as char
    }
}

/// Appends the JSON escape of one character.
fn push_escaped_char(out: &mut String, c: char)
    ensures
        final(out)@ == old(out)@ + escaped_char(c),
{
    if c == '"' {
        out.push('\\');
        out.push('"');
        assert(final(out)@ =~= old(out)@ + escaped_char(c));
    } else if c == '\\' {
        out.push('\\');
        out.push('\\');
        assert(final(out)@ =~= old(out)@ + escaped_char(c));
    } else if c == '\n' {
        out.push('\\');
        out.push('n');
        assert(final(out)@ =~= old(out)@ + escaped_char(c));
    } else if c == '\r' {
        out.push('\\');
        out.push('r');
        assert(final(out)@ =~= old(out)@ + escaped_char(c));
    } else if c == '\t' {
        out.push('\\');
        out.push('t');
        assert(final(out)@ =~= old(out)@ + escaped_char(c));
    } else if (c as u32) < 32 {
        let v = c as u32;
        out.push('\\');
        out.push('u');
        out.push('0');
        out.push('0');
        out.push(hex_digit_char((v / 16) as u8));
        out.push(hex_digit_char((v % 16) as u8));
        assert((v / 16) as u8 as nat == (c as nat) / 16);
        assert((v % 16) as u8 as nat == (c as nat) % 16);
        assert(final(out)@ =~= old(out)@ + escaped_char(c));
    } else {
        out.push(c);
        assert(final(out)@ =~= old(out)@ + escaped_char(c));
    }
}

/// Appends the escaped body of a string.
fn push_escaped(out: &mut String, s: &str)
    ensures
        final(out)@ == old(out)@ + escape(s@),
{
    let n = s.unicode_len();
    let mut i: usize = 0;
    while i < n
        invariant
            n == s@.len(),
            i <= n,
            out@ == old(out)@ + escape(s@.take(i as int)),
        decreases n - i,
    {
        let c = s.get_char(i);
        push_escaped_char(out, c);
        proof {
            lemma_escape_snoc(s@.take(i as int), c);
            assert(s@.take(i as int).push(c) =~= s@.take(i + 1 as int));
        }
        i += 1;
    }
    assert(s@.take(n as int) =~= s@);
}

/// Appends a whole JSON string: the escaped body between quotes.
fn push_quoted(out: &mut String, s: &str)
    ensures
        final(out)@ == old(out)@ + quoted(s@),
{
    out.push('"');
    push_escaped(out, s);
    out.push('"');
    assert(final(out)@ =~= old(out)@ + quoted(s@));
}

/// Appends the decimal digits of a number, most significant first.
fn push_decimal(out: &mut String, n: u32)
    ensures
        final(out)@ == old(out)@ + dec_digits(n as nat),
    decreases n,
{
    if n < 10 {
        out.push((48 + n as u8) as char);
        assert((48 + n as u8) as char == dec_digit(n as nat));
        assert(final(out)@ =~= old(out)@ + dec_digits(n as nat));
    } else {
        push_decimal(out, n / 10);
        out.push((48 + (n % 10) as u8) as char);
        assert((48 + (n % 10) as u8) as char == dec_digit(n as nat % 10));
        assert((n / 10) as nat == (n as nat) / 10);
        assert(final(out)@ =~= old(out)@ + dec_digits(n as nat));
    }
}

/// The canonical JSON body of a chat request.
pub fn chat_request_body(c: &ChatCompletion) -> (r: String)
    ensures
        r@ == chat_text(c@),
{
    let mut out = String::from_str("{\"model\":");
    push_quoted(&mut out, c.model.as_str());
    out.append(",\"messages\":[");
    let ghost pre = "{\"model\":"@ + quoted(c@.model) + ",\"messages\":["@;
    assert(out@ =~= pre);
    let n = c.messages.len();
    let mut i: usize = 0;
    while i < n
        invariant
            n == c.messages.len(),
            i <= n,
            out@ == pre + messages_text(c@.messages.take(i as int)),
        decreases n - i,
    {
        if i > 0 {
            out.push(',');
        }
        let m = &c.messages[i];
        out.append("{\"role\":");
        push_quoted(&mut out, m.role.as_str());
        out.append(",\"content\":");
        push_quoted(&mut out, m.content.as_str());
        out.append("}");
        proof {
            let a = c@.messages.take(i as int);
            lemma_messages_text_snoc(a, c@.messages[i as int]);
            assert(a.push(c@.messages[i as int]) =~= c@.messages.take(i + 1 as int));
            assert(a.len() == i);
            assert(message_text(c@.messages[i as int]) =~= "{\"role\":"@ + quoted(
                c@.messages[i as int].role,
            ) + ",\"content\":"@ + quoted(c@.messages[i as int].content) + "}"@);
            if i > 0 {
                assert(out@ =~= pre + messages_text(c@.messages.take(i + 1 as int)));
            } else {
                assert(out@ =~= pre + messages_text(c@.messages.take(i + 1 as int)));
            }
        }
        i += 1;
    }
    assert(c@.messages.take(n as int) =~= c@.messages);
    out.append("],\"temperature\":");
    push_decimal(&mut out, c.temperature_tenths / 10);
    out.push('.');
    out.push((48 + (c.temperature_tenths % 10) as u8) as char);
    out.append("}");
    proof {
        let t = c@.temperature_tenths;
        assert((48 + (c.temperature_tenths % 10) as u8) as char == dec_digit(t % 10));
        assert((c.temperature_tenths / 10) as nat == t / 10);
        assert(tenths_text(t) =~= dec_digits(t / 10) + seq!['.', dec_digit(t % 10)]);
        assert(out@ =~= chat_text(c@));
    }
    out
}

/// The canonical JSON body of an image request.
pub fn image_request_body(g: &ImgaeGen) -> (r: String)
    ensures
        r@ == image_text(g@),
{
    let mut out = String::from_str("{\"model\":");
    push_quoted(&mut out, g.model.as_str());
    out.append(",\"prompt\":");
    push_quoted(&mut out, g.prompt.as_str());
    out.append(",\"n\":");
    push_decimal(&mut out, g.n);
    out.append(",\"size\":");
    push_quoted(&mut out, g.size.as_str());
    out.append("}");
    assert(out@ =~= image_text(g@));
    out
}

} // verus!
