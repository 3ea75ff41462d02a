//! Proof that the specification parser inverts the canonical JSON text:
//! serializing a chat request and parsing the result gives back exactly the
//! request, model, temperature and the ordered message sequence included.

use crate::jsonfmt::{chat_text, dec_digit, dec_digits, escape, escaped_char, hex_digit,
    message_text, messages_text, quoted, tenths_text};
use crate::jsonparse::{after_lit, digit_val, hex_val, is_digit, is_hex, parse_chat,
    parse_digits_loop, parse_escape, parse_message, parse_message_list, parse_number,
    parse_quoted, parse_string_body, parse_tenths};
use crate::types::{ChatCompletionView, MessageView};
use vstd::prelude::*;

verus! {

/// A power of ten.
spec fn pow10(k: nat) -> nat
    decreases k,
{
    if k == 0 {
        1
    } else {
        10 * pow10((k - 1) as nat)
    }
}

/// Dropping a known literal prefix finds exactly the rest.
proof fn lemma_after_lit(lit: Seq<char>, rest: Seq<char>)
    ensures
        after_lit(lit + rest, lit) == Some(rest),
{
    let s = lit + rest;
    assert(s.subrange(0, lit.len() as int) =~= lit);
    assert(s.skip(lit.len() as int) =~= rest);
}

/// The shape of a single character's escape: never empty, a backslash first
/// whenever it is more than the character itself.
proof fn lemma_escaped_char_shape(c: char)
    ensures
        escaped_char(c).len() >= 1,
        escaped_char(c).len() >= 2 ==> escaped_char(c)[0] == '\\',
        escaped_char(c).len() == 1 ==> escaped_char(c) == seq![c] && c != '"' && c != '\\',
{
}

/// A hexadecimal digit character carries its value back.
proof fn lemma_hex_digit(n: nat)
    requires
        n < 16,
    ensures
        is_hex(hex_digit(n)),
        hex_val(hex_digit(n)) == n,
{
}

/// A decimal digit character carries its value back.
proof fn lemma_dec_digit(n: nat)
    requires
        n < 10,
    ensures
        is_digit(dec_digit(n)),
        digit_val(dec_digit(n)) == n,
{
}

/// Parsing an escape sequence yields the character it stands for.
proof fn lemma_parse_escape_inverts(c: char, rest: Seq<char>)
    requires
        escaped_char(c).len() >= 2,
    ensures
        parse_escape(escaped_char(c) + rest) == Some((c, rest)),
{
    let s = escaped_char(c) + rest;
    if c == '"' || c == '\\' || c == '\n' || c == '\r' || c == '\t' {
        assert(s.skip(2) =~= rest);
    } else {
        let cv = c as nat;
        assert(cv < 32);
        let hi = cv / 16;
        let lo = cv % 16;
        lemma_hex_digit(hi);
        lemma_hex_digit(lo);
        assert(s.len() >= 6);
        assert(s[2] == '0' && s[3] == '0' && s[4] == hex_digit(hi) && s[5] == hex_digit(lo));
        assert(is_hex('0') && hex_val('0') == 0);
        let v = ((hex_val(s[2]) * 16 + hex_val(s[3])) * 16 + hex_val(s[4])) * 16 + hex_val(s[5]);
        assert(v == hi * 16 + lo);
        assert(hi * 16 + lo == cv) by {
            vstd::arithmetic::div_mod::lemma_fundamental_div_mod(cv as int, 16);
        };
        assert((v as char) == c);
        assert(s.skip(6) =~= rest);
    }
}

/// Parsing a string body after an escaped text finds exactly that text.
proof fn lemma_psb_roundtrip(t: Seq<char>, rest: Seq<char>)
    ensures
        parse_string_body(escape(t) + seq!['"'] + rest) == Some((t, rest)),
    decreases t.len(),
{
    let s = escape(t) + seq!['"'] + rest;
    if t.len() == 0 {
        assert(escape(t) =~= Seq::<char>::empty());
        assert(s =~= seq!['"'] + rest);
        assert(s[0] == '"');
        assert(s.skip(1) =~= rest);
    } else {
        let c = t[0];
        let t1 = t.skip(1);
        let tail = escape(t1) + seq!['"'] + rest;
        assert(escape(t) == escaped_char(c) + escape(t1));
        assert(s =~= escaped_char(c) + tail);
        lemma_escaped_char_shape(c);
        lemma_psb_roundtrip(t1, rest);
        assert(seq![c] + t1 =~= t);
        if escaped_char(c).len() == 1 {
            assert(s[0] == c);
            assert(s.skip(1) =~= tail);
        } else {
            assert(s[0] == '\\');
            lemma_parse_escape_inverts(c, tail);
            assert(tail.len() < s.len());
        }
    }
}

/// Parsing a quoted string after a quoted text finds exactly that text.
proof fn lemma_quoted_roundtrip(t: Seq<char>, rest: Seq<char>)
    ensures
        parse_quoted(quoted(t) + rest) == Some((t, rest)),
{
    let s = quoted(t) + rest;
    assert(s =~= seq!['"'] + (escape(t) + seq!['"'] + rest));
    assert(s[0] == '"');
    assert(s.skip(1) =~= escape(t) + seq!['"'] + rest);
    lemma_psb_roundtrip(t, rest);
}

/// The decimal digits of a number begin with a digit.
proof fn lemma_dec_digits_shape(n: nat)
    ensures
        dec_digits(n).len() >= 1,
        is_digit(dec_digits(n)[0]),
    decreases n,
{
    if n < 10 {
        lemma_dec_digit(n);
    } else {
        lemma_dec_digits_shape(n / 10);
    }
}

/// Folding the digits of a number onto an accumulator shifts the accumulator
/// past them and adds the number.
proof fn lemma_digits_loop(n: nat, rest: Seq<char>, acc: nat)
    ensures
        parse_digits_loop(dec_digits(n) + rest, acc) == parse_digits_loop(
            rest,
            acc * pow10(dec_digits(n).len()) + n,
        ),
    decreases n,
{
    let ds = dec_digits(n);
    if n < 10 {
        lemma_dec_digit(n);
        let s = ds + rest;
        assert(s[0] == dec_digit(n));
        assert(s.skip(1) =~= rest);
        assert(pow10(0) == 1);
        assert(pow10(1) == 10);
    } else {
        let hi = dec_digits(n / 10);
        let last = dec_digit(n % 10);
        lemma_dec_digit(n % 10);
        let rest1 = seq![last] + rest;
        assert(ds + rest =~= hi + rest1);
        lemma_digits_loop(n / 10, rest1, acc);
        let p = pow10(hi.len());
        let a1 = acc * p + n / 10;
        assert(rest1[0] == last);
        assert(rest1.skip(1) =~= rest);
        assert(parse_digits_loop(rest1, a1) == parse_digits_loop(rest, a1 * 10 + n % 10));
        assert(ds.len() == hi.len() + 1);
        assert(pow10(hi.len() + 1) == 10 * pow10(hi.len()));
        assert((acc * p + n / 10) * 10 + n % 10 == acc * (10 * p) + ((n / 10) * 10 + n % 10))
            by (nonlinear_arith);
        assert((n / 10) * 10 + n % 10 == n) by {
            vstd::arithmetic::div_mod::lemma_fundamental_div_mod(n as int, 10);
        };
    }
}

/// Parsing a number after its decimal digits finds exactly that number.
proof fn lemma_number_roundtrip(n: nat, rest: Seq<char>)
    requires
        rest.len() == 0 || !is_digit(rest[0]),
    ensures
        parse_number(dec_digits(n) + rest) == Some((n, rest)),
{
    let s = dec_digits(n) + rest;
    lemma_dec_digits_shape(n);
    assert(s[0] == dec_digits(n)[0]);
    lemma_digits_loop(n, rest, 0);
    assert(0 * pow10(dec_digits(n).len()) + n == n);
    assert(parse_digits_loop(rest, n) == (n, rest));
}

/// Parsing a tenths number after its text finds exactly that value.
proof fn lemma_tenths_roundtrip(t: nat, rest: Seq<char>)
    ensures
        parse_tenths(tenths_text(t) + rest) == Some((t, rest)),
{
    let frac = seq!['.', dec_digit(t % 10)];
    let s = tenths_text(t) + rest;
    assert(s =~= dec_digits(t / 10) + (frac + rest));
    assert(!is_digit('.'));
    lemma_number_roundtrip(t / 10, frac + rest);
    let r = frac + rest;
    assert(r[0] == '.');
    lemma_dec_digit(t % 10);
    assert(r[1] == dec_digit(t % 10));
    assert(r.skip(2) =~= rest);
    assert((t / 10) * 10 + t % 10 == t) by {
        vstd::arithmetic::div_mod::lemma_fundamental_div_mod(t as int, 10);
    };
}

/// Parsing one message after its canonical text finds exactly that message.
proof fn lemma_message_roundtrip(m: MessageView, rest: Seq<char>)
    ensures
        parse_message(message_text(m) + rest) == Some((m, rest)),
{
    let lit1 = "{\"role\":"@;
    let lit2 = ",\"content\":"@;
    let lit3 = "}"@;
    let s = message_text(m) + rest;
    let x1 = quoted(m.role) + (lit2 + (quoted(m.content) + (lit3 + rest)));
    assert(s =~= lit1 + x1);
    lemma_after_lit(lit1, x1);
    lemma_quoted_roundtrip(m.role, lit2 + (quoted(m.content) + (lit3 + rest)));
    lemma_after_lit(lit2, quoted(m.content) + (lit3 + rest));
    lemma_quoted_roundtrip(m.content, lit3 + rest);
    lemma_after_lit(lit3, rest);
}

/// Parsing a message array tail after the canonical texts finds exactly the
/// message sequence.
proof fn lemma_message_list_roundtrip(ms: Seq<MessageView>, rest: Seq<char>)
    ensures
        parse_message_list(messages_text(ms) + seq![']'] + rest) == Some((ms, rest)),
    decreases ms.len(),
{
    reveal_strlit("{\"role\":");
    let lit1 = "{\"role\":"@;
    let s = messages_text(ms) + seq![']'] + rest;
    if ms.len() == 0 {
        assert(s =~= seq![']'] + rest);
        assert(s[0] == ']');
        assert(s.skip(1) =~= rest);
    } else {
        let m0 = ms[0];
        assert(message_text(m0).len() >= lit1.len());
        assert(message_text(m0)[0] == lit1[0]);
        assert(lit1[0] == '{');
        if ms.len() == 1 {
            let tail = seq![']'] + rest;
            assert(messages_text(ms) == message_text(m0));
            assert(s =~= message_text(m0) + tail);
            lemma_message_roundtrip(m0, tail);
            assert(s[0] == '{');
            assert(tail.len() < s.len());
            assert(tail[0] == ']');
            assert(tail.skip(1) =~= rest);
            assert(seq![m0] =~= ms);
        } else {
            let tail = seq![','] + (messages_text(ms.skip(1)) + seq![']'] + rest);
            assert(messages_text(ms) == message_text(m0) + seq![','] + messages_text(ms.skip(1)));
            assert(s =~= message_text(m0) + tail);
            lemma_message_roundtrip(m0, tail);
            assert(s[0] == '{');
            assert(tail.len() < s.len());
            assert(tail[0] == ',');
            assert(tail.skip(1) =~= messages_text(ms.skip(1)) + seq![']'] + rest);
            lemma_message_list_roundtrip(ms.skip(1), rest);
            assert(seq![m0] + ms.skip(1) =~= ms);
        }
    }
}

/// Round trip of the chat request: parsing the canonical JSON text of any
/// chat request gives back exactly that request — the model, the sampling
/// temperature, and the ordered sequence of messages are preserved.
pub proof fn lemma_chat_request_roundtrip(c: ChatCompletionView)
    ensures
        parse_chat(chat_text(c)) == Some(c),
{
    let lit_a = "{\"model\":"@;
    let lit_b = ",\"messages\":["@;
    let lit_c = "],\"temperature\":"@;
    let lit_c2 = ",\"temperature\":"@;
    let lit_d = "}"@;
    reveal_strlit("],\"temperature\":");
    reveal_strlit(",\"temperature\":");
    assert(lit_c =~= seq![']'] + lit_c2);
    let t = c.temperature_tenths;
    let s = chat_text(c);
    let x1 = quoted(c.model) + (lit_b + (messages_text(c.messages) + (lit_c + (tenths_text(t)
        + lit_d))));
    assert(s =~= lit_a + x1);
    lemma_after_lit(lit_a, x1);
    lemma_quoted_roundtrip(
        c.model,
        lit_b + (messages_text(c.messages) + (lit_c + (tenths_text(t) + lit_d))),
    );
    lemma_after_lit(lit_b, messages_text(c.messages) + (lit_c + (tenths_text(t) + lit_d)));
    let z = lit_c2 + (tenths_text(t) + lit_d);
    assert(messages_text(c.messages) + (lit_c + (tenths_text(t) + lit_d)) =~= messages_text(
        c.messages,
    ) + seq![']'] + z);
    lemma_message_list_roundtrip(c.messages, z);
    lemma_after_lit(lit_c2, tenths_text(t) + lit_d);
    lemma_tenths_roundtrip(t, lit_d);
}

} // verus!
