//! The executable parsers: each returns exactly what the spec-level parser
//! of its input does, so every caller reasons against the specification
//! parser alone.

use crate::error::ApiError;
use crate::jsonparse::{after_lit, digit_val, hex4_at, hex4_val, hex_val, is_digit, is_hex,
    is_scalar_char, member_scan, object_value, parse_api_response, parse_chat,
    parse_choice_items, parse_choice_obj, parse_choices_array, parse_digits_loop, parse_escape,
    parse_img_data_items, parse_img_data_obj, parse_img_datas_array, parse_img_response,
    parse_message, parse_message_list, parse_message_obj, parse_number, parse_quoted,
    parse_string_body, parse_tenths, skip_array_items, skip_object_items, skip_scalar_run,
    skip_value, skip_ws};
use crate::types::{APIChoice, APIChoiceView, APIMessage, APIResponse, ChatCompletion, IMGData,
    IMGDataView, IMGResponse, Message, MessageView, choices_view, datas_view, msgs_view};
use vstd::prelude::*;

verus! {

/// Prepends already-read characters to a parse result.
pub open spec fn prepend_chars(p: Seq<char>, o: Option<(Seq<char>, Seq<char>)>) -> Option<
    (Seq<char>, Seq<char>),
> {
    match o {
        Some((t, r)) => Some((p + t, r)),
        None => None,
    }
}

/// A character is recovered from its scalar value.
proof fn lemma_char_of_scalar(ch: char, v: u32)
    requires
        ch as u32 == v,
        v < 0xD800 || (0xE000 <= v && v <= 0x10FFFF),
    ensures
        (v as nat) as char == ch,
{
    assert(ch as nat == v as nat);
    assert((ch as nat) as char == ch);
}

/// Prepending distributes over composition.
proof fn lemma_prepend_chars_assoc(p: Seq<char>, q: Seq<char>, o: Option<(Seq<char>, Seq<char>)>)
    ensures
        prepend_chars(p, prepend_chars(q, o)) == prepend_chars(p + q, o),
{
    match o {
        Some((t, r)) => {
            assert(p + (q + t) =~= (p + q) + t);
        },
        None => {},
    }
}

/// The rest of the input after a literal, when the literal is its prefix.
fn expect_lit(s: &str, n: usize, j: usize, lit: &str) -> (r: Option<usize>)
    requires
        n == s@.len(),
        j <= n,
    ensures
        match r {
            Some(k) => {
                &&& j <= k <= n
                &&& k - j == lit@.len()
                &&& after_lit(s@.skip(j as int), lit@) == Some(s@.skip(k as int))
            },
            None => after_lit(s@.skip(j as int), lit@) is None,
        },
{
    let m = lit.unicode_len();
    if n - j < m {
        return None;
    }
    let mut k: usize = 0;
    while k < m
        invariant
            n == s@.len(),
            m == lit@.len(),
            j <= n,
            m <= n - j,
            k <= m,
            forall|x: int| 0 <= x < k ==> s@[j + x] == lit@[x],
        decreases m - k,
    {
        let a = s.get_char(j + k);
        let b = lit.get_char(k);
        if a != b {
            proof {
                let sub = s@.skip(j as int).subrange(0, m as int);
                assert(sub[k as int] == s@[j + k]);
                assert(sub != lit@);
            }
            return None;
        }
        k += 1;
    }
    proof {
        assert(s@.skip(j as int).subrange(0, m as int) =~= lit@);
        assert(s@.skip(j as int).skip(m as int) =~= s@.skip((j + m) as int));
    }
    Some(j + m)
}

/// The value of a decimal digit character, when it is one.
fn digit_char_val(c: char) -> (r: Option<u8>)
    ensures
        match r {
            Some(v) => is_digit(c) && v < 10 && v as nat == digit_val(c),
            None => !is_digit(c),
        },
{
    let u = c as u32;
    if 48 <= u && u <= 57 {
        Some((u - 48) as u8)
    } else {
        None
    }
}

/// The value of a hexadecimal digit character of either case, when it is
/// one.
fn hex_char_val(c: char) -> (r: Option<u8>)
    ensures
        match r {
            Some(v) => is_hex(c) && v < 16 && v as nat == hex_val(c),
            None => !is_hex(c),
        },
{
    let u = c as u32;
    if 48 <= u && u <= 57 {
        Some((u - 48) as u8)
    } else if 97 <= u && u <= 102 {
        Some((u - 87) as u8)
    } else if 65 <= u && u <= 70 {
        Some((u - 55) as u8)
    } else {
        None
    }
}

/// Reads a JSON string body up to and including its closing quote, starting
/// just after the opening quote.
fn parse_string_body_exec(s: &str, n: usize, i: usize) -> (r: Option<(String, usize)>)
    requires
        n == s@.len(),
        i <= n,
    ensures
        match r {
            Some((t, j)) => {
                &&& i < j <= n
                &&& parse_string_body(s@.skip(i as int)) == Some((t@, s@.skip(j as int)))
            },
            None => parse_string_body(s@.skip(i as int)) is None,
        },
{
    let mut acc = String::new();
    let mut j = i;
    loop
        invariant
            n == s@.len(),
            i <= j <= n,
            parse_string_body(s@.skip(i as int)) == prepend_chars(
                acc@,
                parse_string_body(s@.skip(j as int)),
            ),
        decreases n - j,
    {
        if j == n {
            assert(s@.skip(j as int).len() == 0);
            return None;
        }
        let c = s.get_char(j);
        assert(s@.skip(j as int)[0] == c);
        if c == '"' {
            proof {
                assert(s@.skip(j as int).skip(1) =~= s@.skip(j + 1 as int));
                assert(acc@ + Seq::<char>::empty() =~= acc@);
            }
            return Some((acc, j + 1));
        } else if c == '\\' {
            let ghost pre = acc@;
            let ghost sj = s@.skip(j as int);
            if n - j < 2 {
                assert(sj.len() < 2);
                return None;
            }
            let c2 = s.get_char(j + 1);
            assert(sj[1] == c2);
            let step: u32;
            if c2 == '"' {
                acc.push('"');
                step = 2;
            } else if c2 == '\\' {
                acc.push('\\');
                step = 2;
            } else if c2 == '/' {
                acc.push('/');
                step = 2;
            } else if c2 == 'b' {
                acc.push('\u{8}');
                step = 2;
            } else if c2 == 'f' {
                acc.push('\u{c}');
                step = 2;
            } else if c2 == 'n' {
                acc.push('\n');
                step = 2;
            } else if c2 == 'r' {
                acc.push('\r');
                step = 2;
            } else if c2 == 't' {
                acc.push('\t');
                step = 2;
            } else if c2 == 'u' {
                if n - j < 6 {
                    assert(sj.len() < 6);
                    return None;
                }
                let h2 = match hex_char_val(s.get_char(j + 2)) {
                    Some(v) => v,
                    None => {
                        assert(sj[2] == s@[j + 2]);
                        return None;
                    },
                };
                let h3 = match hex_char_val(s.get_char(j + 3)) {
                    Some(v) => v,
                    None => {
                        assert(sj[3] == s@[j + 3]);
                        return None;
                    },
                };
                let h4 = match hex_char_val(s.get_char(j + 4)) {
                    Some(v) => v,
                    None => {
                        assert(sj[4] == s@[j + 4]);
                        return None;
                    },
                };
                let h5 = match hex_char_val(s.get_char(j + 5)) {
                    Some(v) => v,
                    None => {
                        assert(sj[5] == s@[j + 5]);
                        return None;
                    },
                };
                let v: u32 = ((h2 as u32 * 16 + h3 as u32) * 16 + h4 as u32) * 16 + h5 as u32;
                assert(sj[2] == s@[j + 2] && sj[3] == s@[j + 3] && sj[4] == s@[j + 4] && sj[5]
                    == s@[j + 5]);
                assert(hex4_at(sj, 2) && hex4_val(sj, 2) == v as nat);
                if v < 0xD800 || v >= 0xE000 {
                    let ch = match char::from_u32(v) {
                        Some(ch) => ch,
                        None => {
                            // unreachable: the value is no surrogate
                            return None;
                        },
                    };
                    proof {
                        lemma_char_of_scalar(ch, v);
                    }
                    acc.push(ch);
                    step = 6;
                } else if v < 0xDC00 {
                    if n - j < 12 {
                        assert(sj.len() < 12);
                        return None;
                    }
                    let c6 = s.get_char(j + 6);
                    let c7 = s.get_char(j + 7);
                    assert(sj[6] == c6 && sj[7] == c7);
                    if c6 != '\\' || c7 != 'u' {
                        return None;
                    }
                    let h8 = match hex_char_val(s.get_char(j + 8)) {
                        Some(x) => x,
                        None => {
                            assert(sj[8] == s@[j + 8]);
                            return None;
                        },
                    };
                    let h9 = match hex_char_val(s.get_char(j + 9)) {
                        Some(x) => x,
                        None => {
                            assert(sj[9] == s@[j + 9]);
                            return None;
                        },
                    };
                    let h10 = match hex_char_val(s.get_char(j + 10)) {
                        Some(x) => x,
                        None => {
                            assert(sj[10] == s@[j + 10]);
                            return None;
                        },
                    };
                    let h11 = match hex_char_val(s.get_char(j + 11)) {
                        Some(x) => x,
                        None => {
                            assert(sj[11] == s@[j + 11]);
                            return None;
                        },
                    };
                    let lo: u32 = ((h8 as u32 * 16 + h9 as u32) * 16 + h10 as u32) * 16
                        + h11 as u32;
                    assert(sj[8] == s@[j + 8] && sj[9] == s@[j + 9] && sj[10] == s@[j + 10]
                        && sj[11] == s@[j + 11]);
                    assert(hex4_at(sj, 8) && hex4_val(sj, 8) == lo as nat);
                    if !(0xDC00 <= lo && lo < 0xE000) {
                        return None;
                    }
                    let code: u32 = 0x10000 + (v - 0xD800) * 0x400 + (lo - 0xDC00);
                    let ch = match char::from_u32(code) {
                        Some(ch) => ch,
                        None => {
                            // unreachable: the value is a supplementary scalar
                            return None;
                        },
                    };
                    proof {
                        lemma_char_of_scalar(ch, code);
                    }
                    acc.push(ch);
                    step = 12;
                } else {
                    return None;
                }
            } else {
                return None;
            }
            proof {
                let k = step as int;
                assert(sj.skip(k) =~= s@.skip(j + k));
                assert(parse_string_body(sj) == prepend_chars(
                    seq![acc@.last()],
                    parse_string_body(s@.skip(j + k)),
                ));
                assert(pre.push(acc@.last()) =~= pre + seq![acc@.last()]);
                lemma_prepend_chars_assoc(
                    pre,
                    seq![acc@.last()],
                    parse_string_body(s@.skip(j + k)),
                );
            }
            j += step as usize;
        } else {
            let ghost pre = acc@;
            acc.push(c);
            proof {
                assert(s@.skip(j as int).skip(1) =~= s@.skip(j + 1 as int));
                assert(parse_string_body(s@.skip(j as int)) == prepend_chars(
                    seq![c],
                    parse_string_body(s@.skip(j + 1 as int)),
                ));
                assert(pre.push(c) =~= pre + seq![c]);
                lemma_prepend_chars_assoc(pre, seq![c], parse_string_body(s@.skip(j + 1 as int)));
            }
            j += 1;
        }
    }
}

/// Reads a whole JSON string, opening quote included.
fn parse_quoted_exec(s: &str, n: usize, i: usize) -> (r: Option<(String, usize)>)
    requires
        n == s@.len(),
        i <= n,
    ensures
        match r {
            Some((t, j)) => {
                &&& i < j <= n
                &&& parse_quoted(s@.skip(i as int)) == Some((t@, s@.skip(j as int)))
            },
            None => parse_quoted(s@.skip(i as int)) is None,
        },
{
    if i == n {
        return None;
    }
    let c = s.get_char(i);
    assert(s@.skip(i as int)[0] == c);
    if c != '"' {
        return None;
    }
    assert(s@.skip(i as int).skip(1) =~= s@.skip(i + 1 as int));
    parse_string_body_exec(s, n, i + 1)
}

/// Reads a nonempty run of decimal digits as a number, reporting a value
/// beyond the reach of `u32` as too large.
fn parse_number_exec(s: &str, n: usize, i: usize) -> (r: Option<(u32, usize)>)
    requires
        n == s@.len(),
        i <= n,
    ensures
        match r {
            Some((v, j)) => {
                &&& i < j <= n
                &&& parse_number(s@.skip(i as int)) == Some((v as nat, s@.skip(j as int)))
            },
            None => parse_number(s@.skip(i as int)) is None || (parse_number(s@.skip(i as int))
                matches Some(p) && p.0 > u32::MAX),
        },
{
    if i == n {
        return None;
    }
    let c0 = s.get_char(i);
    assert(s@.skip(i as int)[0] == c0);
    let d0 = match digit_char_val(c0) {
        Some(d) => d,
        None => {
            return None;
        },
    };
    let mut acc: u64 = 0;
    let mut j = i;
    loop
        invariant
            n == s@.len(),
            i <= j <= n,
            acc <= u32::MAX,
            parse_number(s@.skip(i as int)) matches Some(p) && p == parse_digits_loop(
                s@.skip(j as int),
                acc as nat,
            ),
        decreases n - j,
    {
        if j == n {
            assert(s@.skip(j as int).len() == 0);
            return Some((acc as u32, j));
        }
        let c = s.get_char(j);
        assert(s@.skip(j as int)[0] == c);
        let d = match digit_char_val(c) {
            Some(d) => d,
            None => {
                return Some((acc as u32, j));
            },
        };
        let acc2: u64 = acc * 10 + d as u64;
        proof {
            assert(s@.skip(j as int).skip(1) =~= s@.skip(j + 1 as int));
            assert(parse_digits_loop(s@.skip(j as int), acc as nat) == parse_digits_loop(
                s@.skip(j + 1 as int),
                acc2 as nat,
            ));
        }
        if acc2 > u32::MAX as u64 {
            proof {
                lemma_digits_loop_floor(s@.skip(j + 1 as int), acc2 as nat);
            }
            return None;
        }
        acc = acc2;
        j += 1;
    }
}

/// The folded value of a digit run never falls below its accumulator.
proof fn lemma_digits_loop_floor(s: Seq<char>, acc: nat)
    ensures
        parse_digits_loop(s, acc).0 >= acc,
    decreases s.len(),
{
    if s.len() > 0 && is_digit(s[0]) {
        lemma_digits_loop_floor(s.skip(1), acc * 10 + digit_val(s[0]));
    }
}

/// Reads a number with exactly one fractional digit as a value in tenths,
/// reporting a value beyond the reach of `u32` as too large.
fn parse_tenths_exec(s: &str, n: usize, i: usize) -> (r: Option<(u32, usize)>)
    requires
        n == s@.len(),
        i <= n,
    ensures
        match r {
            Some((t, j)) => {
                &&& i < j <= n
                &&& parse_tenths(s@.skip(i as int)) == Some((t as nat, s@.skip(j as int)))
            },
            None => parse_tenths(s@.skip(i as int)) is None || (parse_tenths(s@.skip(i as int))
                matches Some(p) && p.0 > u32::MAX),
        },
{
    let (whole, j) = match parse_number_exec(s, n, i) {
        Some(p) => p,
        None => {
            return None;
        },
    };
    let ghost rem = s@.skip(j as int);
    if n - j < 2 {
        assert(rem.len() < 2);
        return None;
    }
    let cdot = s.get_char(j);
    assert(rem[0] == cdot);
    if cdot != '.' {
        return None;
    }
    let cfrac = s.get_char(j + 1);
    assert(rem[1] == cfrac);
    let d = match digit_char_val(cfrac) {
        Some(d) => d,
        None => {
            return None;
        },
    };
    let t: u64 = whole as u64 * 10 + d as u64;
    if t > u32::MAX as u64 {
        return None;
    }
    assert(rem.skip(2) =~= s@.skip(j + 2 as int));
    Some((t as u32, j + 2))
}

/// Prepends already-read messages to a parse result.
pub open spec fn prepend_msgs(p: Seq<MessageView>, o: Option<(Seq<MessageView>, Seq<char>)>)
    -> Option<(Seq<MessageView>, Seq<char>)> {
    match o {
        Some((t, r)) => Some((p + t, r)),
        None => None,
    }
}

/// Prepends already-read choices to a parse result.
pub open spec fn prepend_choices(p: Seq<APIChoiceView>, o: Option<(Seq<APIChoiceView>, Seq<char>)>)
    -> Option<(Seq<APIChoiceView>, Seq<char>)> {
    match o {
        Some((t, r)) => Some((p + t, r)),
        None => None,
    }
}

/// Prepends already-read image results to a parse result.
pub open spec fn prepend_datas(p: Seq<IMGDataView>, o: Option<(Seq<IMGDataView>, Seq<char>)>)
    -> Option<(Seq<IMGDataView>, Seq<char>)> {
    match o {
        Some((t, r)) => Some((p + t, r)),
        None => None,
    }
}

/// Reads one message object.
fn parse_message_exec(s: &str, n: usize, i: usize) -> (r: Option<(Message, usize)>)
    requires
        n == s@.len(),
        i <= n,
    ensures
        match r {
            Some((m, j)) => {
                &&& i < j <= n
                &&& parse_message(s@.skip(i as int)) == Some((m@, s@.skip(j as int)))
            },
            None => parse_message(s@.skip(i as int)) is None,
        },
{
    let j1 = match expect_lit(s, n, i, "{\"role\":") {
        Some(k) => k,
        None => {
            return None;
        },
    };
    let (role, j2) = match parse_quoted_exec(s, n, j1) {
        Some(p) => p,
        None => {
            return None;
        },
    };
    let j3 = match expect_lit(s, n, j2, ",\"content\":") {
        Some(k) => k,
        None => {
            return None;
        },
    };
    let (content, j4) = match parse_quoted_exec(s, n, j3) {
        Some(p) => p,
        None => {
            return None;
        },
    };
    let j5 = match expect_lit(s, n, j4, "}") {
        Some(k) => k,
        None => {
            return None;
        },
    };
    Some((Message { role, content }, j5))
}

/// Reads a message array tail, up to and including the closing bracket.
fn parse_message_list_exec(s: &str, n: usize, i: usize) -> (r: Option<(Vec<Message>, usize)>)
    requires
        n == s@.len(),
        i <= n,
    ensures
        match r {
            Some((ms, j)) => {
                &&& i < j <= n
                &&& parse_message_list(s@.skip(i as int)) == Some((msgs_view(ms@), s@.skip(
                    j as int,
                )))
            },
            None => parse_message_list(s@.skip(i as int)) is None,
        },
{
    let mut acc: Vec<Message> = Vec::new();
    let mut j = i;
    proof {
        assert(msgs_view(acc@) =~= Seq::<MessageView>::empty());
    }
    loop
        invariant
            n == s@.len(),
            i <= j <= n,
            parse_message_list(s@.skip(i as int)) == prepend_msgs(
                msgs_view(acc@),
                parse_message_list(s@.skip(j as int)),
            ),
        decreases n - j,
    {
        if j == n {
            assert(s@.skip(j as int).len() == 0);
            return None;
        }
        let c = s.get_char(j);
        assert(s@.skip(j as int)[0] == c);
        if c == ']' {
            proof {
                assert(s@.skip(j as int).skip(1) =~= s@.skip(j + 1 as int));
                assert(msgs_view(acc@) + Seq::<MessageView>::empty() =~= msgs_view(acc@));
            }
            return Some((acc, j + 1));
        }
        let (m, j2) = match parse_message_exec(s, n, j) {
            Some(p) => p,
            None => {
                return None;
            },
        };
        if j2 == n {
            assert(s@.skip(j2 as int).len() == 0);
            return None;
        }
        let c2 = s.get_char(j2);
        assert(s@.skip(j2 as int)[0] == c2);
        if c2 == ',' {
            let ghost pre = msgs_view(acc@);
            acc.push(m);
            proof {
                assert(s@.skip(j2 as int).skip(1) =~= s@.skip(j2 + 1 as int));
                assert(parse_message_list(s@.skip(j as int)) == prepend_msgs(
                    seq![m@],
                    parse_message_list(s@.skip(j2 + 1 as int)),
                ));
                match parse_message_list(s@.skip(j2 + 1 as int)) {
                    Some((t, r)) => {
                        assert(pre + (seq![m@] + t) =~= (pre + seq![m@]) + t);
                    },
                    None => {},
                }
                assert(msgs_view(acc@) =~= pre + seq![m@]);
            }
            j = j2 + 1;
        } else if c2 == ']' {
            let ghost pre = msgs_view(acc@);
            acc.push(m);
            proof {
                assert(s@.skip(j2 as int).skip(1) =~= s@.skip(j2 + 1 as int));
                assert(parse_message_list(s@.skip(j as int)) == Some(
                    (seq![m@], s@.skip(j2 + 1 as int)),
                ));
                assert(msgs_view(acc@) =~= pre + seq![m@]);
            }
            return Some((acc, j2 + 1));
        } else {
            return None;
        }
    }
}

/// Reads a whole chat-request body, which must be consumed exactly.
///
/// Succeeds exactly when the input is a canonical chat-request text whose
/// temperature fits the executable representation, and then returns the
/// request the text stands for; anything else is a deserialization error.
pub fn parse_chat_request(s: &str) -> (r: Result<ChatCompletion, ApiError>)
    ensures
        match r {
            Ok(c) => parse_chat(s@) == Some(c@),
            Err(e) => {
                &&& e == ApiError::Deserialization
                &&& (parse_chat(s@) is None || (parse_chat(s@) matches Some(v)
                    && v.temperature_tenths > u32::MAX))
            },
        },
{
    let n = s.unicode_len();
    proof {
        assert(s@.skip(0) =~= s@);
    }
    let j1 = match expect_lit(s, n, 0, "{\"model\":") {
        Some(k) => k,
        None => {
            return Err(ApiError::Deserialization);
        },
    };
    let (model, j2) = match parse_quoted_exec(s, n, j1) {
        Some(p) => p,
        None => {
            return Err(ApiError::Deserialization);
        },
    };
    let j3 = match expect_lit(s, n, j2, ",\"messages\":[") {
        Some(k) => k,
        None => {
            return Err(ApiError::Deserialization);
        },
    };
    let (messages, j4) = match parse_message_list_exec(s, n, j3) {
        Some(p) => p,
        None => {
            return Err(ApiError::Deserialization);
        },
    };
    let j5 = match expect_lit(s, n, j4, ",\"temperature\":") {
        Some(k) => k,
        None => {
            return Err(ApiError::Deserialization);
        },
    };
    let (temperature_tenths, j6) = match parse_tenths_exec(s, n, j5) {
        Some(p) => p,
        None => {
            return Err(ApiError::Deserialization);
        },
    };
    proof {
        reveal_strlit("}");
    }
    if n - j6 != 1 {
        assert(s@.skip(j6 as int).len() != "}"@.len());
        return Err(ApiError::Deserialization);
    }
    let cc = s.get_char(j6);
    assert(s@.skip(j6 as int)[0] == cc);
    if cc != '}' {
        assert(s@.skip(j6 as int) != "}"@);
        return Err(ApiError::Deserialization);
    }
    assert(s@.skip(j6 as int) =~= "}"@);
    Ok(ChatCompletion { model, messages, temperature_tenths })
}

/// Whether a character can stand in an unquoted scalar.
fn is_scalar_char_exec(c: char) -> (r: bool)
    ensures
        r == is_scalar_char(c),
{
    let u = c as u32;
    (48 <= u && u <= 57) || (97 <= u && u <= 122) || (65 <= u && u <= 90) || c == '-' || c == '+'
        || c == '.'
}

/// The position after the leading whitespace.
fn skip_ws_exec(s: &str, n: usize, i: usize) -> (r: usize)
    requires
        n == s@.len(),
        i <= n,
    ensures
        i <= r <= n,
        s@.skip(r as int) == skip_ws(s@.skip(i as int)),
{
    let mut j = i;
    loop
        invariant
            n == s@.len(),
            i <= j <= n,
            skip_ws(s@.skip(i as int)) == skip_ws(s@.skip(j as int)),
        decreases n - j,
    {
        if j == n {
            assert(s@.skip(j as int).len() == 0);
            return j;
        }
        let c = s.get_char(j);
        assert(s@.skip(j as int)[0] == c);
        if c == ' ' || c == '\t' || c == '\n' || c == '\r' {
            proof {
                assert(s@.skip(j as int).skip(1) =~= s@.skip(j + 1 as int));
            }
            j += 1;
        } else {
            return j;
        }
    }
}

/// Whether two string slices hold the same characters.
fn str_eq(a: &str, b: &str) -> (r: bool)
    ensures
        r == (a@ == b@),
{
    let na = a.unicode_len();
    let nb = b.unicode_len();
    if na != nb {
        return false;
    }
    let mut k: usize = 0;
    while k < na
        invariant
            na == a@.len(),
            nb == b@.len(),
            na == nb,
            k <= na,
            forall|x: int| 0 <= x < k ==> a@[x] == b@[x],
        decreases na - k,
    {
        if a.get_char(k) != b.get_char(k) {
            return false;
        }
        k += 1;
    }
    proof {
        assert(a@ =~= b@);
    }
    true
}

/// The position after one whole JSON value.
fn skip_value_exec(s: &str, n: usize, i: usize) -> (r: Option<usize>)
    requires
        n == s@.len(),
        i <= n,
    ensures
        match r {
            Some(j) => i < j <= n && skip_value(s@.skip(i as int)) == Some(s@.skip(j as int)),
            None => skip_value(s@.skip(i as int)) is None,
        },
    decreases n - i, 0int,
{
    if i == n {
        assert(s@.skip(i as int).len() == 0);
        return None;
    }
    let c = s.get_char(i);
    assert(s@.skip(i as int)[0] == c);
    if c == '"' {
        assert(s@.skip(i as int).skip(1) =~= s@.skip(i + 1 as int));
        match parse_string_body_exec(s, n, i + 1) {
            Some((t, j)) => Some(j),
            None => None,
        }
    } else if c == '[' {
        let w = skip_ws_exec(s, n, i + 1);
        assert(s@.skip(i as int).skip(1) =~= s@.skip(i + 1 as int));
        if w == n {
            assert(s@.skip(w as int).len() == 0);
            assert(skip_value(s@.skip(w as int)) is None);
            assert(skip_array_items(s@.skip(w as int)) is None);
            return None;
        }
        let c2 = s.get_char(w);
        assert(s@.skip(w as int)[0] == c2);
        if c2 == ']' {
            assert(s@.skip(w as int).skip(1) =~= s@.skip(w + 1 as int));
            return Some(w + 1);
        }
        skip_array_items_exec(s, n, w)
    } else if c == '{' {
        let w = skip_ws_exec(s, n, i + 1);
        assert(s@.skip(i as int).skip(1) =~= s@.skip(i + 1 as int));
        if w == n {
            assert(s@.skip(w as int).len() == 0);
            assert(parse_quoted(s@.skip(w as int)) is None);
            assert(skip_object_items(s@.skip(w as int)) is None);
            return None;
        }
        let c2 = s.get_char(w);
        assert(s@.skip(w as int)[0] == c2);
        if c2 == '}' {
            assert(s@.skip(w as int).skip(1) =~= s@.skip(w + 1 as int));
            return Some(w + 1);
        }
        skip_object_items_exec(s, n, w)
    } else if is_scalar_char_exec(c) {
        assert(s@.skip(i as int).skip(1) =~= s@.skip(i + 1 as int));
        let mut j = i + 1;
        loop
            invariant
                n == s@.len(),
                i < j <= n,
                skip_scalar_run(s@.skip(i as int)) == skip_scalar_run(s@.skip(j as int)),
            decreases n - j,
        {
            if j == n {
                assert(s@.skip(j as int).len() == 0);
                return Some(j);
            }
            let c2 = s.get_char(j);
            assert(s@.skip(j as int)[0] == c2);
            if is_scalar_char_exec(c2) {
                proof {
                    assert(s@.skip(j as int).skip(1) =~= s@.skip(j + 1 as int));
                }
                j += 1;
            } else {
                return Some(j);
            }
        }
    } else {
        None
    }
}

/// The position after the items and closing bracket of an array.
fn skip_array_items_exec(s: &str, n: usize, i: usize) -> (r: Option<usize>)
    requires
        n == s@.len(),
        i <= n,
    ensures
        match r {
            Some(j) => i < j <= n && skip_array_items(s@.skip(i as int)) == Some(
                s@.skip(j as int),
            ),
            None => skip_array_items(s@.skip(i as int)) is None,
        },
    decreases n - i, 1int,
{
    let j1 = match skip_value_exec(s, n, i) {
        Some(j) => j,
        None => {
            return None;
        },
    };
    let j2 = skip_ws_exec(s, n, j1);
    if j2 == n {
        assert(s@.skip(j2 as int).len() == 0);
        return None;
    }
    let c = s.get_char(j2);
    assert(s@.skip(j2 as int)[0] == c);
    if c == ',' {
        let j3 = skip_ws_exec(s, n, j2 + 1);
        assert(s@.skip(j2 as int).skip(1) =~= s@.skip(j2 + 1 as int));
        skip_array_items_exec(s, n, j3)
    } else if c == ']' {
        assert(s@.skip(j2 as int).skip(1) =~= s@.skip(j2 + 1 as int));
        Some(j2 + 1)
    } else {
        None
    }
}

/// The position after the members and closing brace of an object.
fn skip_object_items_exec(s: &str, n: usize, i: usize) -> (r: Option<usize>)
    requires
        n == s@.len(),
        i <= n,
    ensures
        match r {
            Some(j) => i < j <= n && skip_object_items(s@.skip(i as int)) == Some(
                s@.skip(j as int),
            ),
            None => skip_object_items(s@.skip(i as int)) is None,
        },
    decreases n - i, 1int,
{
    let (_key, j1) = match parse_quoted_exec(s, n, i) {
        Some(p) => p,
        None => {
            return None;
        },
    };
    let j2 = skip_ws_exec(s, n, j1);
    if j2 == n {
        assert(s@.skip(j2 as int).len() == 0);
        return None;
    }
    let c = s.get_char(j2);
    assert(s@.skip(j2 as int)[0] == c);
    if c != ':' {
        return None;
    }
    let j3 = skip_ws_exec(s, n, j2 + 1);
    assert(s@.skip(j2 as int).skip(1) =~= s@.skip(j2 + 1 as int));
    let j4 = match skip_value_exec(s, n, j3) {
        Some(j) => j,
        None => {
            return None;
        },
    };
    let j5 = skip_ws_exec(s, n, j4);
    if j5 == n {
        assert(s@.skip(j5 as int).len() == 0);
        return None;
    }
    let c2 = s.get_char(j5);
    assert(s@.skip(j5 as int)[0] == c2);
    if c2 == ',' {
        let j6 = skip_ws_exec(s, n, j5 + 1);
        assert(s@.skip(j5 as int).skip(1) =~= s@.skip(j5 + 1 as int));
        skip_object_items_exec(s, n, j6)
    } else if c2 == '}' {
        assert(s@.skip(j5 as int).skip(1) =~= s@.skip(j5 + 1 as int));
        Some(j5 + 1)
    } else {
        None
    }
}

/// Scans an object's members for one required key: yields the positions of
/// that key's value and of the text after the object.
fn member_scan_exec(s: &str, n: usize, i: usize, key: &str) -> (r: Option<(usize, usize)>)
    requires
        n == s@.len(),
        i <= n,
    ensures
        match r {
            Some(p) => {
                &&& i <= p.0 <= n
                &&& i < p.1 <= n
                &&& member_scan(s@.skip(i as int), key@, None::<Seq<char>>) == Some(
                    (s@.skip(p.0 as int), s@.skip(p.1 as int)),
                )
            },
            None => member_scan(s@.skip(i as int), key@, None::<Seq<char>>) is None,
        },
{
    let mut found: Option<usize> = None;
    let mut j = i;
    loop
        invariant
            n == s@.len(),
            i <= j <= n,
            match found {
                Some(p) => i <= p <= n,
                None => true,
            },
            member_scan(s@.skip(i as int), key@, None::<Seq<char>>) == member_scan(
                s@.skip(j as int),
                key@,
                match found {
                    Some(p) => Some(s@.skip(p as int)),
                    None => None::<Seq<char>>,
                },
            ),
        decreases n - j,
    {
        let (k, j1) = match parse_quoted_exec(s, n, j) {
            Some(p) => p,
            None => {
                return None;
            },
        };
        let j2 = skip_ws_exec(s, n, j1);
        if j2 == n {
            assert(s@.skip(j2 as int).len() == 0);
            return None;
        }
        let c = s.get_char(j2);
        assert(s@.skip(j2 as int)[0] == c);
        if c != ':' {
            return None;
        }
        let j3 = skip_ws_exec(s, n, j2 + 1);
        assert(s@.skip(j2 as int).skip(1) =~= s@.skip(j2 + 1 as int));
        let is_key = str_eq(k.as_str(), key);
        if is_key && found.is_some() {
            return None;
        }
        let j4 = match skip_value_exec(s, n, j3) {
            Some(j4) => j4,
            None => {
                return None;
            },
        };
        let found2: Option<usize> = if is_key {
            Some(j3)
        } else {
            found
        };
        let j5 = skip_ws_exec(s, n, j4);
        if j5 == n {
            assert(s@.skip(j5 as int).len() == 0);
            return None;
        }
        let c2 = s.get_char(j5);
        assert(s@.skip(j5 as int)[0] == c2);
        if c2 == ',' {
            let j6 = skip_ws_exec(s, n, j5 + 1);
            assert(s@.skip(j5 as int).skip(1) =~= s@.skip(j5 + 1 as int));
            found = found2;
            j = j6;
        } else if c2 == '}' {
            assert(s@.skip(j5 as int).skip(1) =~= s@.skip(j5 + 1 as int));
            match found2 {
                Some(p) => {
                    return Some((p, j5 + 1));
                },
                None => {
                    return None;
                },
            }
        } else {
            return None;
        }
    }
}

/// The positions of a required member's value and of the text after the
/// object, the cursor standing at the opening brace.
fn object_value_exec(s: &str, n: usize, i: usize, key: &str) -> (r: Option<(usize, usize)>)
    requires
        n == s@.len(),
        i <= n,
    ensures
        match r {
            Some(p) => {
                &&& i <= p.0 <= n
                &&& i < p.1 <= n
                &&& object_value(s@.skip(i as int), key@) == Some(
                    (s@.skip(p.0 as int), s@.skip(p.1 as int)),
                )
            },
            None => object_value(s@.skip(i as int), key@) is None,
        },
{
    if i == n {
        assert(s@.skip(i as int).len() == 0);
        return None;
    }
    let c = s.get_char(i);
    assert(s@.skip(i as int)[0] == c);
    if c != '{' {
        return None;
    }
    let w = skip_ws_exec(s, n, i + 1);
    assert(s@.skip(i as int).skip(1) =~= s@.skip(i + 1 as int));
    if w == n {
        assert(s@.skip(w as int).len() == 0);
        return None;
    }
    let c2 = s.get_char(w);
    assert(s@.skip(w as int)[0] == c2);
    if c2 == '}' {
        return None;
    }
    member_scan_exec(s, n, w, key)
}

/// Reads one message object of a chat response.
fn parse_message_obj_exec(s: &str, n: usize, i: usize) -> (r: Option<APIMessage>)
    requires
        n == s@.len(),
        i <= n,
    ensures
        match r {
            Some(m) => parse_message_obj(s@.skip(i as int)) == Some(m@),
            None => parse_message_obj(s@.skip(i as int)) is None,
        },
{
    let (v, _after) = match object_value_exec(s, n, i, "content") {
        Some(p) => p,
        None => {
            return None;
        },
    };
    let (content, _j) = match parse_quoted_exec(s, n, v) {
        Some(p) => p,
        None => {
            return None;
        },
    };
    Some(APIMessage { content })
}

/// Reads one choice object of a chat response.
fn parse_choice_obj_exec(s: &str, n: usize, i: usize) -> (r: Option<(APIChoice, usize)>)
    requires
        n == s@.len(),
        i <= n,
    ensures
        match r {
            Some(p) => i < p.1 <= n && parse_choice_obj(s@.skip(i as int)) == Some(
                (p.0@, s@.skip(p.1 as int)),
            ),
            None => parse_choice_obj(s@.skip(i as int)) is None,
        },
{
    let (v, after) = match object_value_exec(s, n, i, "message") {
        Some(p) => p,
        None => {
            return None;
        },
    };
    let message = match parse_message_obj_exec(s, n, v) {
        Some(m) => m,
        None => {
            return None;
        },
    };
    Some((APIChoice { message }, after))
}

/// Reads the items and closing bracket of a choice array.
fn parse_choice_items_exec(s: &str, n: usize, i: usize) -> (r: Option<(Vec<APIChoice>, usize)>)
    requires
        n == s@.len(),
        i <= n,
    ensures
        match r {
            Some(p) => i < p.1 <= n && parse_choice_items(s@.skip(i as int)) == Some(
                (choices_view(p.0@), s@.skip(p.1 as int)),
            ),
            None => parse_choice_items(s@.skip(i as int)) is None,
        },
{
    let mut acc: Vec<APIChoice> = Vec::new();
    let mut j = i;
    proof {
        assert(choices_view(acc@) =~= Seq::<APIChoiceView>::empty());
    }
    loop
        invariant
            n == s@.len(),
            i <= j <= n,
            parse_choice_items(s@.skip(i as int)) == prepend_choices(
                choices_view(acc@),
                parse_choice_items(s@.skip(j as int)),
            ),
        decreases n - j,
    {
        let (c, j2) = match parse_choice_obj_exec(s, n, j) {
            Some(p) => p,
            None => {
                return None;
            },
        };
        let j3 = skip_ws_exec(s, n, j2);
        if j3 == n {
            assert(s@.skip(j3 as int).len() == 0);
            return None;
        }
        let cc = s.get_char(j3);
        assert(s@.skip(j3 as int)[0] == cc);
        if cc == ',' {
            let j4 = skip_ws_exec(s, n, j3 + 1);
            assert(s@.skip(j3 as int).skip(1) =~= s@.skip(j3 + 1 as int));
            let ghost pre = choices_view(acc@);
            acc.push(c);
            proof {
                assert(parse_choice_items(s@.skip(j as int)) == prepend_choices(
                    seq![c@],
                    parse_choice_items(s@.skip(j4 as int)),
                ));
                match parse_choice_items(s@.skip(j4 as int)) {
                    Some((t, rr)) => {
                        assert(pre + (seq![c@] + t) =~= (pre + seq![c@]) + t);
                    },
                    None => {},
                }
                assert(choices_view(acc@) =~= pre + seq![c@]);
            }
            j = j4;
        } else if cc == ']' {
            let ghost pre = choices_view(acc@);
            acc.push(c);
            proof {
                assert(s@.skip(j3 as int).skip(1) =~= s@.skip(j3 + 1 as int));
                assert(parse_choice_items(s@.skip(j as int)) == Some(
                    (seq![c@], s@.skip(j3 + 1 as int)),
                ));
                assert(choices_view(acc@) =~= pre + seq![c@]);
            }
            return Some((acc, j3 + 1));
        } else {
            return None;
        }
    }
}

/// Reads a whole choice array.
fn parse_choices_array_exec(s: &str, n: usize, i: usize) -> (r: Option<(Vec<APIChoice>, usize)>)
    requires
        n == s@.len(),
        i <= n,
    ensures
        match r {
            Some(p) => i < p.1 <= n && parse_choices_array(s@.skip(i as int)) == Some(
                (choices_view(p.0@), s@.skip(p.1 as int)),
            ),
            None => parse_choices_array(s@.skip(i as int)) is None,
        },
{
    if i == n {
        assert(s@.skip(i as int).len() == 0);
        return None;
    }
    let c = s.get_char(i);
    assert(s@.skip(i as int)[0] == c);
    if c != '[' {
        return None;
    }
    let w = skip_ws_exec(s, n, i + 1);
    assert(s@.skip(i as int).skip(1) =~= s@.skip(i + 1 as int));
    if w == n {
        assert(s@.skip(w as int).len() == 0);
        return None;
    }
    let c2 = s.get_char(w);
    assert(s@.skip(w as int)[0] == c2);
    if c2 == ']' {
        let cs: Vec<APIChoice> = Vec::new();
        proof {
            assert(s@.skip(w as int).skip(1) =~= s@.skip(w + 1 as int));
            assert(choices_view(cs@) =~= Seq::<APIChoiceView>::empty());
        }
        return Some((cs, w + 1));
    }
    parse_choice_items_exec(s, n, w)
}

/// Reads a whole chat-response body.
///
/// Succeeds exactly when the input is one JSON object holding a member
/// `choices` with an array of choice objects — other members, member order
/// and whitespace free — and then returns the response the text stands for;
/// anything else is a deserialization error.
pub fn parse_api_response_body(s: &str) -> (r: Result<APIResponse, ApiError>)
    ensures
        match r {
            Ok(resp) => parse_api_response(s@) == Some(resp@),
            Err(e) => e == ApiError::Deserialization && parse_api_response(s@) is None,
        },
{
    let n = s.unicode_len();
    proof {
        assert(s@.skip(0) =~= s@);
    }
    let w0 = skip_ws_exec(s, n, 0);
    let (v, j) = match object_value_exec(s, n, w0, "choices") {
        Some(p) => p,
        None => {
            return Err(ApiError::Deserialization);
        },
    };
    let (choices, _jv) = match parse_choices_array_exec(s, n, v) {
        Some(p) => p,
        None => {
            return Err(ApiError::Deserialization);
        },
    };
    let j2 = skip_ws_exec(s, n, j);
    if j2 != n {
        assert(skip_ws(s@.skip(j as int)).len() != 0);
        return Err(ApiError::Deserialization);
    }
    assert(skip_ws(s@.skip(j as int)).len() == 0);
    Ok(APIResponse { choices })
}

/// Reads one result object of an image response.
fn parse_img_data_obj_exec(s: &str, n: usize, i: usize) -> (r: Option<(IMGData, usize)>)
    requires
        n == s@.len(),
        i <= n,
    ensures
        match r {
            Some(p) => i < p.1 <= n && parse_img_data_obj(s@.skip(i as int)) == Some(
                (p.0@, s@.skip(p.1 as int)),
            ),
            None => parse_img_data_obj(s@.skip(i as int)) is None,
        },
{
    let (v1, after) = match object_value_exec(s, n, i, "revised_prompt") {
        Some(p) => p,
        None => {
            return None;
        },
    };
    let (revised_prompt, _a) = match parse_quoted_exec(s, n, v1) {
        Some(p) => p,
        None => {
            return None;
        },
    };
    let (v2, _after2) = match object_value_exec(s, n, i, "url") {
        Some(p) => p,
        None => {
            return None;
        },
    };
    let (url, _b) = match parse_quoted_exec(s, n, v2) {
        Some(p) => p,
        None => {
            return None;
        },
    };
    Some((IMGData { revised_prompt, url }, after))
}

/// Reads the items and closing bracket of an image-result array.
fn parse_img_data_items_exec(s: &str, n: usize, i: usize) -> (r: Option<(Vec<IMGData>, usize)>)
    requires
        n == s@.len(),
        i <= n,
    ensures
        match r {
            Some(p) => i < p.1 <= n && parse_img_data_items(s@.skip(i as int)) == Some(
                (datas_view(p.0@), s@.skip(p.1 as int)),
            ),
            None => parse_img_data_items(s@.skip(i as int)) is None,
        },
{
    let mut acc: Vec<IMGData> = Vec::new();
    let mut j = i;
    proof {
        assert(datas_view(acc@) =~= Seq::<IMGDataView>::empty());
    }
    loop
        invariant
            n == s@.len(),
            i <= j <= n,
            parse_img_data_items(s@.skip(i as int)) == prepend_datas(
                datas_view(acc@),
                parse_img_data_items(s@.skip(j as int)),
            ),
        decreases n - j,
    {
        let (d, j2) = match parse_img_data_obj_exec(s, n, j) {
            Some(p) => p,
            None => {
                return None;
            },
        };
        let j3 = skip_ws_exec(s, n, j2);
        if j3 == n {
            assert(s@.skip(j3 as int).len() == 0);
            return None;
        }
        let cc = s.get_char(j3);
        assert(s@.skip(j3 as int)[0] == cc);
        if cc == ',' {
            let j4 = skip_ws_exec(s, n, j3 + 1);
            assert(s@.skip(j3 as int).skip(1) =~= s@.skip(j3 + 1 as int));
            let ghost pre = datas_view(acc@);
            acc.push(d);
            proof {
                assert(parse_img_data_items(s@.skip(j as int)) == prepend_datas(
                    seq![d@],
                    parse_img_data_items(s@.skip(j4 as int)),
                ));
                match parse_img_data_items(s@.skip(j4 as int)) {
                    Some((t, rr)) => {
                        assert(pre + (seq![d@] + t) =~= (pre + seq![d@]) + t);
                    },
                    None => {},
                }
                assert(datas_view(acc@) =~= pre + seq![d@]);
            }
            j = j4;
        } else if cc == ']' {
            let ghost pre = datas_view(acc@);
            acc.push(d);
            proof {
                assert(s@.skip(j3 as int).skip(1) =~= s@.skip(j3 + 1 as int));
                assert(parse_img_data_items(s@.skip(j as int)) == Some(
                    (seq![d@], s@.skip(j3 + 1 as int)),
                ));
                assert(datas_view(acc@) =~= pre + seq![d@]);
            }
            return Some((acc, j3 + 1));
        } else {
            return None;
        }
    }
}

/// Reads a whole image-result array.
fn parse_img_datas_array_exec(s: &str, n: usize, i: usize) -> (r: Option<(Vec<IMGData>, usize)>)
    requires
        n == s@.len(),
        i <= n,
    ensures
        match r {
            Some(p) => i < p.1 <= n && parse_img_datas_array(s@.skip(i as int)) == Some(
                (datas_view(p.0@), s@.skip(p.1 as int)),
            ),
            None => parse_img_datas_array(s@.skip(i as int)) is None,
        },
{
    if i == n {
        assert(s@.skip(i as int).len() == 0);
        return None;
    }
    let c = s.get_char(i);
    assert(s@.skip(i as int)[0] == c);
    if c != '[' {
        return None;
    }
    let w = skip_ws_exec(s, n, i + 1);
    assert(s@.skip(i as int).skip(1) =~= s@.skip(i + 1 as int));
    if w == n {
        assert(s@.skip(w as int).len() == 0);
        return None;
    }
    let c2 = s.get_char(w);
    assert(s@.skip(w as int)[0] == c2);
    if c2 == ']' {
        let ds: Vec<IMGData> = Vec::new();
        proof {
            assert(s@.skip(w as int).skip(1) =~= s@.skip(w + 1 as int));
            assert(datas_view(ds@) =~= Seq::<IMGDataView>::empty());
        }
        return Some((ds, w + 1));
    }
    parse_img_data_items_exec(s, n, w)
}

/// Reads a whole image-response body.
///
/// Succeeds exactly when the input is one JSON object holding a member
/// `data` with an array of result objects — other members, member order and
/// whitespace free — and then returns the response the text stands for;
/// anything else is a deserialization error.
pub fn parse_img_response_body(s: &str) -> (r: Result<IMGResponse, ApiError>)
    ensures
        match r {
            Ok(resp) => parse_img_response(s@) == Some(resp@),
            Err(e) => e == ApiError::Deserialization && parse_img_response(s@) is None,
        },
{
    let n = s.unicode_len();
    proof {
        assert(s@.skip(0) =~= s@);
    }
    let w0 = skip_ws_exec(s, n, 0);
    let (v, j) = match object_value_exec(s, n, w0, "data") {
        Some(p) => p,
        None => {
            return Err(ApiError::Deserialization);
        },
    };
    let (data, _jv) = match parse_img_datas_array_exec(s, n, v) {
        Some(p) => p,
        None => {
            return Err(ApiError::Deserialization);
        },
    };
    let j2 = skip_ws_exec(s, n, j);
    if j2 != n {
        assert(skip_ws(s@.skip(j as int)).len() != 0);
        return Err(ApiError::Deserialization);
    }
    assert(skip_ws(s@.skip(j as int)).len() == 0);
    Ok(IMGResponse { data })
}

} // verus!
