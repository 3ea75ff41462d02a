//! A specification-level parser for the JSON bodies the API exchanges.
//!
//! Each function consumes a prefix of a character sequence and yields the
//! parsed value together with the remainder, or nothing when the input does
//! not match. These functions are the meaning of the executable parsers: an
//! executable parser's contract says that it returns exactly what the spec
//! parser of its input does.

use crate::types::{APIChoiceView, APIMessageView, APIResponseView, ChatCompletionView,
    IMGDataView, IMGResponseView, MessageView};
use vstd::prelude::*;

verus! {

/// The rest of `s` after the literal `lit`, if `lit` is a prefix of `s`.
pub open spec fn after_lit(s: Seq<char>, lit: Seq<char>) -> Option<Seq<char>> {
    if lit.len() <= s.len() && s.subrange(0, lit.len() as int) == lit {
        Some(s.skip(lit.len() as int))
    } else {
        None
    }
}

/// Whether a character is a decimal digit.
pub open spec fn is_digit(c: char) -> bool {
    48 <= c as u32 <= 57
}

/// The value of a decimal digit character.
pub open spec fn digit_val(c: char) -> nat {
    ((c as u32) - 48) as nat
}

/// Whether a character is a hexadecimal digit, either case.
pub open spec fn is_hex(c: char) -> bool {
    is_digit(c) || (97 <= c as u32 <= 102) || (65 <= c as u32 <= 70)
}

/// The value of a hexadecimal digit character, either case.
pub open spec fn hex_val(c: char) -> nat {
    if is_digit(c) {
        digit_val(c)
    } else if 97 <= c as u32 <= 102 {
        ((c as u32) - 87) as nat
    } else {
        ((c as u32) - 55) as nat
    }
}

/// The code unit of four hexadecimal digits starting at `i`.
pub open spec fn hex4_val(s: Seq<char>, i: int) -> nat {
    ((hex_val(s[i]) * 16 + hex_val(s[i + 1])) * 16 + hex_val(s[i + 2])) * 16 + hex_val(s[i + 3])
}

/// Whether four hexadecimal digits stand at `i`.
pub open spec fn hex4_at(s: Seq<char>, i: int) -> bool {
    is_hex(s[i]) && is_hex(s[i + 1]) && is_hex(s[i + 2]) && is_hex(s[i + 3])
}

/// The character and remainder of one escape sequence, starting at the
/// backslash: the short escapes, `\u` with one code unit, and `\u` surrogate
/// pairs for the supplementary planes.
pub open spec fn parse_escape(s: Seq<char>) -> Option<(char, Seq<char>)> {
    if s.len() < 2 {
        None
    } else if s[1] == '"' {
        Some(('"', s.skip(2)))
    } else if s[1] == '\\' {
        Some(('\\', s.skip(2)))
    } else if s[1] == '/' {
        Some(('/', s.skip(2)))
    } else if s[1] == 'b' {
        Some(('\u{8}', s.skip(2)))
    } else if s[1] == 'f' {
        Some(('\u{c}', s.skip(2)))
    } else if s[1] == 'n' {
        Some(('\n', s.skip(2)))
    } else if s[1] == 'r' {
        Some(('\r', s.skip(2)))
    } else if s[1] == 't' {
        Some(('\t', s.skip(2)))
    } else if s[1] == 'u' {
        if s.len() >= 6 && hex4_at(s, 2) {
            let v = hex4_val(s, 2);
            if v < 0xD800 || v >= 0xE000 {
                Some(((v as char), s.skip(6)))
            } else if v < 0xDC00 {
                if s.len() >= 12 && s[6] == '\\' && s[7] == 'u' && hex4_at(s, 8) {
                    let lo = hex4_val(s, 8);
                    if 0xDC00 <= lo < 0xE000 {
                        Some(
                            (((0x10000 + (v - 0xD800) * 0x400 + (lo - 0xDC00)) as char), s.skip(
                                12,
                            )),
                        )
                    } else {
                        None
                    }
                } else {
                    None
                }
            } else {
                None
            }
        } else {
            None
        }
    } else {
        None
    }
}

/// The content and remainder of a JSON string body, up to and including the
/// closing quote.
pub open spec fn parse_string_body(s: Seq<char>) -> Option<(Seq<char>, Seq<char>)>
    decreases s.len(),
{
    if s.len() == 0 {
        None
    } else if s[0] == '"' {
        Some((Seq::empty(), s.skip(1)))
    } else if s[0] == '\\' {
        match parse_escape(s) {
            Some((c, rest)) => if rest.len() < s.len() {
                match parse_string_body(rest) {
                    Some((t, r)) => Some((seq![c] + t, r)),
                    None => None,
                }
            } else {
                None
            },
            None => None,
        }
    } else {
        match parse_string_body(s.skip(1)) {
            Some((t, r)) => Some((seq![s[0]] + t, r)),
            None => None,
        }
    }
}

/// A whole JSON string, opening quote included.
pub open spec fn parse_quoted(s: Seq<char>) -> Option<(Seq<char>, Seq<char>)> {
    if s.len() >= 1 && s[0] == '"' {
        parse_string_body(s.skip(1))
    } else {
        None
    }
}

/// Consumes the longest digit prefix, folding it onto an accumulator.
pub open spec fn parse_digits_loop(s: Seq<char>, acc: nat) -> (nat, Seq<char>)
    decreases s.len(),
{
    if s.len() > 0 && is_digit(s[0]) {
        parse_digits_loop(s.skip(1), acc * 10 + digit_val(s[0]))
    } else {
        (acc, s)
    }
}

/// A nonempty run of decimal digits, as a number.
pub open spec fn parse_number(s: Seq<char>) -> Option<(nat, Seq<char>)> {
    if s.len() > 0 && is_digit(s[0]) {
        Some(parse_digits_loop(s, 0))
    } else {
        None
    }
}

/// A number with exactly one fractional digit, as a value in tenths.
pub open spec fn parse_tenths(s: Seq<char>) -> Option<(nat, Seq<char>)> {
    match parse_number(s) {
        Some((whole, r)) => if r.len() >= 2 && r[0] == '.' && is_digit(r[1]) {
            Some((whole * 10 + digit_val(r[1]), r.skip(2)))
        } else {
            None
        },
        None => None,
    }
}

/// One message object.
pub open spec fn parse_message(s: Seq<char>) -> Option<(MessageView, Seq<char>)> {
    match after_lit(s, "{\"role\":"@) {
        Some(r1) => match parse_quoted(r1) {
            Some((role, r2)) => match after_lit(r2, ",\"content\":"@) {
                Some(r3) => match parse_quoted(r3) {
                    Some((content, r4)) => match after_lit(r4, "}"@) {
                        Some(r5) => Some((MessageView { role, content }, r5)),
                        None => None,
                    },
                    None => None,
                },
                None => None,
            },
            None => None,
        },
        None => None,
    }
}

/// The tail of a message array, the opening bracket already consumed, up to
/// and including the closing bracket.
pub open spec fn parse_message_list(s: Seq<char>) -> Option<(Seq<MessageView>, Seq<char>)>
    decreases s.len(),
{
    if s.len() >= 1 && s[0] == ']' {
        Some((Seq::empty(), s.skip(1)))
    } else {
        match parse_message(s) {
            Some((m, r)) => if r.len() < s.len() {
                if r.len() >= 1 && r[0] == ',' {
                    match parse_message_list(r.skip(1)) {
                        Some((ms, r2)) => Some((seq![m] + ms, r2)),
                        None => None,
                    }
                } else if r.len() >= 1 && r[0] == ']' {
                    Some((seq![m], r.skip(1)))
                } else {
                    None
                }
            } else {
                None
            },
            None => None,
        }
    }
}

/// A whole chat-request body, which must be consumed exactly.
pub open spec fn parse_chat(s: Seq<char>) -> Option<ChatCompletionView> {
    match after_lit(s, "{\"model\":"@) {
        Some(r1) => match parse_quoted(r1) {
            Some((model, r2)) => match after_lit(r2, ",\"messages\":["@) {
                Some(r3) => match parse_message_list(r3) {
                    Some((messages, r4)) => match after_lit(r4, ",\"temperature\":"@) {
                        Some(r5) => match parse_tenths(r5) {
                            Some((temperature_tenths, r6)) => if r6 == "}"@ {
                                Some(ChatCompletionView { model, messages, temperature_tenths })
                            } else {
                                None
                            },
                            None => None,
                        },
                        None => None,
                    },
                    None => None,
                },
                None => None,
            },
            None => None,
        },
        None => None,
    }
}

/// Whether a character is JSON whitespace.
pub open spec fn is_ws(c: char) -> bool {
    c == ' ' || c == '\t' || c == '\n' || c == '\r'
}

/// The rest of a sequence after its leading whitespace.
pub open spec fn skip_ws(s: Seq<char>) -> Seq<char>
    decreases s.len(),
{
    if s.len() > 0 && is_ws(s[0]) {
        skip_ws(s.skip(1))
    } else {
        s
    }
}

/// Whether a character can stand in an unquoted scalar: a number, `true`,
/// `false` or `null`.
pub open spec fn is_scalar_char(c: char) -> bool {
    is_digit(c) || (97 <= c as u32 <= 122) || (65 <= c as u32 <= 90) || c == '-' || c == '+'
        || c == '.'
}

/// The rest of a sequence after its leading run of scalar characters.
pub open spec fn skip_scalar_run(s: Seq<char>) -> Seq<char>
    decreases s.len(),
{
    if s.len() > 0 && is_scalar_char(s[0]) {
        skip_scalar_run(s.skip(1))
    } else {
        s
    }
}

/// The rest of a sequence after one whole JSON value: a string, an array, an
/// object, or a run of scalar characters (numbers and word literals are
/// skipped by their characters, without checking their grammar).
pub open spec fn skip_value(s: Seq<char>) -> Option<Seq<char>>
    decreases s.len(), 0int,
{
    if s.len() == 0 {
        None
    } else if s[0] == '"' {
        match parse_string_body(s.skip(1)) {
            Some((t, r)) => Some(r),
            None => None,
        }
    } else if s[0] == '[' {
        let r = skip_ws(s.skip(1));
        if r.len() >= 1 && r[0] == ']' {
            Some(r.skip(1))
        } else if r.len() < s.len() {
            skip_array_items(r)
        } else {
            None
        }
    } else if s[0] == '{' {
        let r = skip_ws(s.skip(1));
        if r.len() >= 1 && r[0] == '}' {
            Some(r.skip(1))
        } else if r.len() < s.len() {
            skip_object_items(r)
        } else {
            None
        }
    } else if is_scalar_char(s[0]) {
        Some(skip_scalar_run(s))
    } else {
        None
    }
}

/// The rest of a sequence after the items of an array, the cursor standing
/// at the first item, up to and including the closing bracket.
pub open spec fn skip_array_items(s: Seq<char>) -> Option<Seq<char>>
    decreases s.len(), 1int,
{
    match skip_value(s) {
        Some(r) => {
            let rw = skip_ws(r);
            if rw.len() >= 1 && rw[0] == ',' {
                let next = skip_ws(rw.skip(1));
                if next.len() < s.len() {
                    skip_array_items(next)
                } else {
                    None
                }
            } else if rw.len() >= 1 && rw[0] == ']' {
                Some(rw.skip(1))
            } else {
                None
            }
        },
        None => None,
    }
}

/// The rest of a sequence after the members of an object, the cursor
/// standing at the first member key, up to and including the closing brace.
pub open spec fn skip_object_items(s: Seq<char>) -> Option<Seq<char>>
    decreases s.len(), 1int,
{
    match parse_quoted(s) {
        Some((k, r1)) => {
            let r2 = skip_ws(r1);
            if r2.len() >= 1 && r2[0] == ':' {
                let r3 = skip_ws(r2.skip(1));
                if r3.len() < s.len() {
                    match skip_value(r3) {
                        Some(r4) => {
                            let rw = skip_ws(r4);
                            if rw.len() >= 1 && rw[0] == ',' {
                                let next = skip_ws(rw.skip(1));
                                if next.len() < s.len() {
                                    skip_object_items(next)
                                } else {
                                    None
                                }
                            } else if rw.len() >= 1 && rw[0] == '}' {
                                Some(rw.skip(1))
                            } else {
                                None
                            }
                        },
                        None => None,
                    }
                } else {
                    None
                }
            } else {
                None
            }
        },
        None => None,
    }
}

/// Scans the members of an object for one required key, the cursor standing
/// at a member key: yields the suffix at that key's value and the suffix
/// after the whole object. The key must appear exactly once; every member's
/// value must skip as a JSON value; member order is free.
pub open spec fn member_scan(s: Seq<char>, key: Seq<char>, found: Option<Seq<char>>) -> Option<
    (Seq<char>, Seq<char>),
>
    decreases s.len(),
{
    match parse_quoted(s) {
        Some((k, r1)) => {
            let r2 = skip_ws(r1);
            if r2.len() >= 1 && r2[0] == ':' {
                let r3 = skip_ws(r2.skip(1));
                if k == key && found is Some {
                    None
                } else {
                    match skip_value(r3) {
                        Some(r4) => {
                            let found2 = if k == key {
                                Some(r3)
                            } else {
                                found
                            };
                            let rw = skip_ws(r4);
                            if rw.len() >= 1 && rw[0] == ',' {
                                let next = skip_ws(rw.skip(1));
                                if next.len() < s.len() {
                                    member_scan(next, key, found2)
                                } else {
                                    None
                                }
                            } else if rw.len() >= 1 && rw[0] == '}' {
                                match found2 {
                                    Some(v) => Some((v, rw.skip(1))),
                                    None => None,
                                }
                            } else {
                                None
                            }
                        },
                        None => None,
                    }
                }
            } else {
                None
            }
        },
        None => None,
    }
}

/// The value suffix of one required member of an object, and the suffix
/// after the object, the cursor standing at the opening brace.
pub open spec fn object_value(s: Seq<char>, key: Seq<char>) -> Option<(Seq<char>, Seq<char>)> {
    if s.len() >= 1 && s[0] == '{' {
        let r = skip_ws(s.skip(1));
        if r.len() >= 1 && r[0] == '}' {
            None
        } else {
            member_scan(r, key, None)
        }
    } else {
        None
    }
}

/// One message object of a chat response: any object with a string member
/// `content`.
pub open spec fn parse_message_obj(s: Seq<char>) -> Option<APIMessageView> {
    match object_value(s, "content"@) {
        Some((v, after)) => match parse_quoted(v) {
            Some((content, r)) => Some(APIMessageView { content }),
            None => None,
        },
        None => None,
    }
}

/// One choice object of a chat response: any object with a member `message`
/// holding a message object.
pub open spec fn parse_choice_obj(s: Seq<char>) -> Option<(APIChoiceView, Seq<char>)> {
    match object_value(s, "message"@) {
        Some((v, after)) => match parse_message_obj(v) {
            Some(m) => Some((APIChoiceView { message: m }, after)),
            None => None,
        },
        None => None,
    }
}

/// The items of a choice array, the cursor standing at the first item, up to
/// and including the closing bracket.
pub open spec fn parse_choice_items(s: Seq<char>) -> Option<(Seq<APIChoiceView>, Seq<char>)>
    decreases s.len(),
{
    match parse_choice_obj(s) {
        Some((c, r)) => {
            let rw = skip_ws(r);
            if rw.len() >= 1 && rw[0] == ',' {
                let next = skip_ws(rw.skip(1));
                if next.len() < s.len() {
                    match parse_choice_items(next) {
                        Some((cs, r2)) => Some((seq![c] + cs, r2)),
                        None => None,
                    }
                } else {
                    None
                }
            } else if rw.len() >= 1 && rw[0] == ']' {
                Some((seq![c], rw.skip(1)))
            } else {
                None
            }
        },
        None => None,
    }
}

/// A whole choice array.
pub open spec fn parse_choices_array(s: Seq<char>) -> Option<(Seq<APIChoiceView>, Seq<char>)> {
    if s.len() >= 1 && s[0] == '[' {
        let r = skip_ws(s.skip(1));
        if r.len() >= 1 && r[0] == ']' {
            Some((Seq::empty(), r.skip(1)))
        } else {
            parse_choice_items(r)
        }
    } else {
        None
    }
}

/// A whole chat-response body: any JSON object with a member `choices`
/// holding an array of choice objects, other members and whitespace free,
/// consumed exactly.
pub open spec fn parse_api_response(s: Seq<char>) -> Option<APIResponseView> {
    match object_value(skip_ws(s), "choices"@) {
        Some((v, after)) => match parse_choices_array(v) {
            Some((choices, r)) => if skip_ws(after).len() == 0 {
                Some(APIResponseView { choices })
            } else {
                None
            },
            None => None,
        },
        None => None,
    }
}

/// One result object of an image response: any object with string members
/// `revised_prompt` and `url`.
pub open spec fn parse_img_data_obj(s: Seq<char>) -> Option<(IMGDataView, Seq<char>)> {
    match object_value(s, "revised_prompt"@) {
        Some((v1, after)) => match parse_quoted(v1) {
            Some((revised_prompt, r1)) => match object_value(s, "url"@) {
                Some((v2, after2)) => match parse_quoted(v2) {
                    Some((url, r2)) => Some((IMGDataView { revised_prompt, url }, after)),
                    None => None,
                },
                None => None,
            },
            None => None,
        },
        None => None,
    }
}

/// The items of an image-result array, the cursor standing at the first
/// item, up to and including the closing bracket.
pub open spec fn parse_img_data_items(s: Seq<char>) -> Option<(Seq<IMGDataView>, Seq<char>)>
    decreases s.len(),
{
    match parse_img_data_obj(s) {
        Some((d, r)) => {
            let rw = skip_ws(r);
            if rw.len() >= 1 && rw[0] == ',' {
                let next = skip_ws(rw.skip(1));
                if next.len() < s.len() {
                    match parse_img_data_items(next) {
                        Some((ds, r2)) => Some((seq![d] + ds, r2)),
                        None => None,
                    }
                } else {
                    None
                }
            } else if rw.len() >= 1 && rw[0] == ']' {
                Some((seq![d], rw.skip(1)))
            } else {
                None
            }
        },
        None => None,
    }
}

/// A whole image-result array.
pub open spec fn parse_img_datas_array(s: Seq<char>) -> Option<(Seq<IMGDataView>, Seq<char>)> {
    if s.len() >= 1 && s[0] == '[' {
        let r = skip_ws(s.skip(1));
        if r.len() >= 1 && r[0] == ']' {
            Some((Seq::empty(), r.skip(1)))
        } else {
            parse_img_data_items(r)
        }
    } else {
        None
    }
}

/// A whole image-response body: any JSON object with a member `data` holding
/// an array of result objects, other members and whitespace free, consumed
/// exactly.
pub open spec fn parse_img_response(s: Seq<char>) -> Option<IMGResponseView> {
    match object_value(skip_ws(s), "data"@) {
        Some((v, after)) => match parse_img_datas_array(v) {
            Some((data, r)) => if skip_ws(after).len() == 0 {
                Some(IMGResponseView { data })
            } else {
                None
            },
            None => None,
        },
        None => None,
    }
}

} // verus!
