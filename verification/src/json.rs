//! Verified JSON rendering of the provider request bodies.
//!
//! Field names and the omission of absent optional fields are part of each
//! provider's wire contract, so the serialized text is specified exactly:
//! every `to_json` method returns precisely the character sequence its spec
//! function describes.

use crate::prompt::{Message, MessageView};
use crate::request_schemas::{
    AnthropicPrompt, GoogleGenerationConfig, GoogleMessage, GoogleMessagePart, GoogleMessageView,
    GooglePrompt, GoogleTools, OpenAiPrompt, ProviderRequest,
};
use vstd::prelude::*;

verus! {

/// The character for one digit value below 16, lower case.
pub open spec fn digit_char(d: nat) -> char {
    if d == 0 {
        '0'
    } else if d == 1 {
        '1'
    } else if d == 2 {
        '2'
    } else if d == 3 {
        '3'
    } else if d == 4 {
        '4'
    } else if d == 5 {
        '5'
    } else if d == 6 {
        '6'
    } else if d == 7 {
        '7'
    } else if d == 8 {
        '8'
    } else if d == 9 {
        '9'
    } else if d == 10 {
        'a'
    } else if d == 11 {
        'b'
    } else if d == 12 {
        'c'
    } else if d == 13 {
        'd'
    } else if d == 14 {
        'e'
    } else {
        'f'
    }
}

/// The decimal digits of a number, most significant first.
pub open spec fn dec_digits(n: nat) -> Seq<char>
    decreases n,
{
    if n < 10 {
        seq![digit_char(n)]
    } else {
        dec_digits(n / 10).push(digit_char(n % 10))
    }
}

/// How one character appears inside a JSON string literal: quote,
/// backslash and control characters are escaped, everything else stands
/// as itself.
pub open spec fn escaped_char(c: char) -> Seq<char> {
    if c == '"' {
        seq!['\\', '"']
    } else if c == '\\' {
        seq!['\\', '\\']
    } else if c == '\n' {
        seq!['\\', 'n']
    } else if c == '\r' {
        seq!['\\', 'r']
    } else if c == '\t' {
        seq!['\\', 't']
    } else if c == '\u{8}' {
        seq!['\\', 'b']
    } else if c == '\u{c}' {
        seq!['\\', 'f']
    } else if (c as u32) < 32 {
        seq!['\\', 'u', '0', '0', digit_char((c as u32) as nat / 16), digit_char((c as u32) as nat % 16)]
    } else {
        seq![c]
    }
}

/// A text with every character escaped as JSON requires.
pub open spec fn escaped(s: Seq<char>) -> Seq<char>
    decreases s.len(),
{
    if s.len() == 0 {
        Seq::empty()
    } else {
        escaped(s.drop_last()) + escaped_char(s.last())
    }
}

/// A JSON string literal: the escaped text between double quotes.
pub open spec fn json_string(s: Seq<char>) -> Seq<char> {
    seq!['"'] + escaped(s) + seq!['"']
}

/// The JSON text of a boolean.
pub open spec fn bool_text(b: bool) -> Seq<char> {
    if b {
        "true"@
    } else {
        "false"@
    }
}

/// The JSON number for a temperature carried in thousandths: the integer
/// part, a point, and exactly three fractional digits.
pub open spec fn temp_digits(t: nat) -> Seq<char> {
    dec_digits(t / 1000) + seq!['.', digit_char(t / 100 % 10), digit_char(t / 10 % 10), digit_char(t % 10)]
}

/// Escaping one more character extends the escaped text by that
/// character's escape.
proof fn lemma_escaped_push(s: Seq<char>, c: char)
    ensures
        escaped(s.push(c)) == escaped(s) + escaped_char(c),
{
    assert(s.push(c).drop_last() =~= s);
}

/// Appends the character for one digit value below 16.
fn push_digit(d: u32, out: &mut String)
    requires
        d < 16,
    ensures
        final(out)@ == old(out)@ + seq![digit_char(d as nat)],
{
    let piece: &str = match d {
        0 => "0",
        1 => "1",
        2 => "2",
        3 => "3",
        4 => "4",
        5 => "5",
        6 => "6",
        7 => "7",
        8 => "8",
        9 => "9",
        10 => "a",
        11 => "b",
        12 => "c",
        13 => "d",
        14 => "e",
        _ => "f",
    };
    proof {
        reveal_strlit("0");
        reveal_strlit("1");
        reveal_strlit("2");
        reveal_strlit("3");
        reveal_strlit("4");
        reveal_strlit("5");
        reveal_strlit("6");
        reveal_strlit("7");
        reveal_strlit("8");
        reveal_strlit("9");
        reveal_strlit("a");
        reveal_strlit("b");
        reveal_strlit("c");
        reveal_strlit("d");
        reveal_strlit("e");
        reveal_strlit("f");
        assert(piece@ =~= seq![digit_char(d as nat)]);
    }
    out.append(piece);
}

/// Appends the decimal digits of a number, most significant first.
fn push_dec(n: u32, out: &mut String)
    ensures
        final(out)@ == old(out)@ + dec_digits(n as nat),
    decreases n,
{
    if n >= 10 {
        push_dec(n / 10, out);
    }
    push_digit(n % 10, out);
}

/// Appends the character at the given position of a text, escaped as JSON
/// requires.
fn push_escaped_char(s: &str, i: usize, out: &mut String)
    requires
        i < s@.len() <= usize::MAX,
    ensures
        final(out)@ == old(out)@ + escaped_char(s@[i as int]),
{
    let c = s.get_char(i);
    if c == '"' {
        out.append("\\\"");
        proof {
            reveal_strlit("\\\"");
            assert("\\\""@ =~= escaped_char(c));
        }
    } else if c == '\\' {
        out.append("\\\\");
        proof {
            reveal_strlit("\\\\");
            assert("\\\\"@ =~= escaped_char(c));
        }
    } else if c == '\n' {
        out.append("\\n");
        proof {
            reveal_strlit("\\n");
            assert("\\n"@ =~= escaped_char(c));
        }
    } else if c == '\r' {
        out.append("\\r");
        proof {
            reveal_strlit("\\r");
            assert("\\r"@ =~= escaped_char(c));
        }
    } else if c == '\t' {
        out.append("\\t");
        proof {
            reveal_strlit("\\t");
            assert("\\t"@ =~= escaped_char(c));
        }
    } else if c == '\u{8}' {
        out.append("\\b");
        proof {
            reveal_strlit("\\b");
            assert("\\b"@ =~= escaped_char(c));
        }
    } else if c == '\u{c}' {
        out.append("\\f");
        proof {
            reveal_strlit("\\f");
            assert("\\f"@ =~= escaped_char(c));
        }
    } else if (c as u32) < 32 {
        out.append("\\u00");
        let code: u32 = c as u32;
        push_digit(code / 16, out);
        push_digit(code % 16, out);
        proof {
            reveal_strlit("\\u00");
            assert(out@ =~= old(out)@ + escaped_char(c));
        }
    } else {
        let piece = s.substring_char(i, i + 1);
        out.append(piece);
        proof {
            assert(piece@ =~= seq![c]);
            assert(seq![c] =~= escaped_char(c));
        }
    }
}

/// Appends a whole text, escaped as JSON requires.
fn push_escaped(s: &str, out: &mut String)
    ensures
        final(out)@ == old(out)@ + escaped(s@),
{
    let len: usize = s.unicode_len();
    let mut i: usize = 0;
    proof {
        assert(escaped(s@.take(0)) =~= Seq::<char>::empty());
        assert(out@ =~= old(out)@ + escaped(s@.take(0)));
    }
    while i < len
        invariant
            i <= len,
            len == s@.len(),
            out@ == old(out)@ + escaped(s@.take(i as int)),
        decreases len - i,
    {
        push_escaped_char(s, i, out);
        proof {
            assert(s@.take(i + 1) =~= s@.take(i as int).push(s@[i as int]));
            lemma_escaped_push(s@.take(i as int), s@[i as int]);
            assert(out@ =~= old(out)@ + escaped(s@.take(i + 1)));
        }
        i = i + 1;
    }
    proof {
        assert(s@.take(len as int) =~= s@);
    }
}

/// Appends a JSON string literal: the escaped text between double quotes.
fn push_json_string(s: &str, out: &mut String)
    ensures
        final(out)@ == old(out)@ + json_string(s@),
{
    out.append("\"");
    push_escaped(s, out);
    out.append("\"");
    proof {
        reveal_strlit("\"");
        assert("\""@ =~= seq!['"']);
        assert(out@ =~= old(out)@ + json_string(s@));
    }
}

/// Appends the JSON text of a boolean.
fn push_bool(b: bool, out: &mut String)
    ensures
        final(out)@ == old(out)@ + bool_text(b),
{
    if b {
        out.append("true");
    } else {
        out.append("false");
    }
}

/// Appends the JSON number for a temperature carried in thousandths.
fn push_temp(t: u32, out: &mut String)
    ensures
        final(out)@ == old(out)@ + temp_digits(t as nat),
{
    push_dec(t / 1000, out);
    out.append(".");
    push_digit(t / 100 % 10, out);
    push_digit(t / 10 % 10, out);
    push_digit(t % 10, out);
    proof {
        reveal_strlit(".");
        assert("."@ =~= seq!['.']);
        assert(out@ =~= old(out)@ + temp_digits(t as nat));
    }
}

/// The JSON object of one flat message.
pub open spec fn json_message(m: MessageView) -> Seq<char> {
    "{\"role\":"@ + json_string(m.role) + ",\"content\":"@ + json_string(m.content) + "}"@
}

/// The comma-separated JSON objects of a flat message list.
pub open spec fn json_message_items(s: Seq<MessageView>) -> Seq<char>
    decreases s.len(),
{
    if s.len() == 0 {
        Seq::empty()
    } else if s.len() == 1 {
        json_message(s[0])
    } else {
        json_message_items(s.drop_last()) + seq![','] + json_message(s.last())
    }
}

/// The JSON array of a flat message list.
pub open spec fn json_messages(s: Seq<MessageView>) -> Seq<char> {
    seq!['['] + json_message_items(s) + seq![']']
}

/// Listing one more item extends a comma-separated list by a comma, unless
/// the list was empty.
proof fn lemma_json_message_items_push(s: Seq<MessageView>, m: MessageView)
    ensures
        json_message_items(s.push(m)) == if s.len() == 0 {
            json_message(m)
        } else {
            json_message_items(s) + seq![','] + json_message(m)
        },
{
    assert(s.push(m).drop_last() =~= s);
}

/// Appends the JSON object of one flat message.
fn push_message(m: &Message, out: &mut String)
    ensures
        final(out)@ == old(out)@ + json_message(m@),
{
    out.append("{\"role\":");
    push_json_string(m.role.as_str(), out);
    out.append(",\"content\":");
    push_json_string(m.content.as_str(), out);
    out.append("}");
    proof {
        assert(out@ =~= old(out)@ + json_message(m@));
    }
}

/// Appends the JSON array of a flat message list.
fn push_messages(msgs: &Vec<Message>, out: &mut String)
    ensures
        final(out)@ == old(out)@ + json_messages(msgs.deep_view()),
{
    let ghost all: Seq<MessageView> = msgs.deep_view();
    out.append("[");
    proof {
        reveal_strlit("[");
        assert("["@ =~= seq!['[']);
        assert(out@ =~= old(out)@ + seq!['['] + json_message_items(all.take(0)));
    }
    let mut i: usize = 0;
    while i < msgs.len()
        invariant
            i <= msgs.len(),
            all == msgs.deep_view(),
            all.len() == msgs@.len(),
            out@ == old(out)@ + seq!['['] + json_message_items(all.take(i as int)),
        decreases msgs.len() - i,
    {
        if i > 0 {
            out.append(",");
            proof {
                reveal_strlit(",");
                assert(","@ =~= seq![',']);
            }
        }
        push_message(&msgs[i], out);
        proof {
            assert(all[i as int] == msgs@[i as int]@);
            assert(all.take(i + 1) =~= all.take(i as int).push(all[i as int]));
            lemma_json_message_items_push(all.take(i as int), all[i as int]);
            assert(out@ =~= old(out)@ + seq!['['] + json_message_items(all.take(i + 1)));
        }
        i = i + 1;
    }
    out.append("]");
    proof {
        reveal_strlit("]");
        assert("]"@ =~= seq![']']);
        assert(all.take(all.len() as int) =~= all);
        assert(out@ =~= old(out)@ + json_messages(all));
    }
}

/// The temperature member of a request body, preceded by its separating
/// comma; absent when the prompt carries no temperature.
pub open spec fn opt_temperature_field(t: Option<u32>) -> Seq<char> {
    match t {
        Option::None => Seq::empty(),
        Option::Some(v) => ",\"temperature\":"@ + temp_digits(v as nat),
    }
}

/// The stream member of a request body, preceded by its separating comma;
/// absent when the prompt carries no streaming flag.
pub open spec fn opt_stream_field(b: Option<bool>) -> Seq<char> {
    match b {
        Option::None => Seq::empty(),
        Option::Some(v) => ",\"stream\":"@ + bool_text(v),
    }
}

/// The exact serialized form of an OpenAI-style request:
/// `{model, messages, temperature?, stream?}`, with absent optional fields
/// left out entirely.
pub open spec fn openai_json(p: OpenAiPrompt) -> Seq<char> {
    "{\"model\":"@ + json_string(p.model@) + ",\"messages\":"@ + json_messages(
        p.messages.deep_view(),
    ) + opt_temperature_field(p.temperature) + opt_stream_field(p.stream) + "}"@
}

/// The exact serialized form of an Anthropic-style request:
/// `{model, messages, temperature?, max_tokens, stream?}`, with absent
/// optional fields left out entirely.
pub open spec fn anthropic_json(p: AnthropicPrompt) -> Seq<char> {
    "{\"model\":"@ + json_string(p.model@) + ",\"messages\":"@ + json_messages(
        p.messages.deep_view(),
    ) + opt_temperature_field(p.temperature) + ",\"max_tokens\":"@ + dec_digits(
        p.max_tokens as nat,
    ) + opt_stream_field(p.stream) + "}"@
}

/// Appends the temperature member when one is present, and nothing
/// otherwise.
fn push_opt_temperature(t: Option<u32>, out: &mut String)
    ensures
        final(out)@ == old(out)@ + opt_temperature_field(t),
{
    match t {
        Option::Some(v) => {
            out.append(",\"temperature\":");
            push_temp(v, out);
            proof {
                assert(out@ =~= old(out)@ + opt_temperature_field(t));
            }
        },
        Option::None => {
            proof {
                assert(out@ =~= old(out)@ + opt_temperature_field(t));
            }
        },
    }
}

/// Appends the stream member when one is present, and nothing otherwise.
fn push_opt_stream(b: Option<bool>, out: &mut String)
    ensures
        final(out)@ == old(out)@ + opt_stream_field(b),
{
    match b {
        Option::Some(v) => {
            out.append(",\"stream\":");
            push_bool(v, out);
            proof {
                assert(out@ =~= old(out)@ + opt_stream_field(b));
            }
        },
        Option::None => {
            proof {
                assert(out@ =~= old(out)@ + opt_stream_field(b));
            }
        },
    }
}

impl OpenAiPrompt {
    /// Serializes the request to its exact wire form; an absent temperature
    /// or streaming flag leaves no key behind.
    pub fn to_json(&self) -> (r: String)
        ensures
            r@ == openai_json(*self),
    {
        let mut out = String::new();
        out.append("{\"model\":");
        push_json_string(self.model.as_str(), &mut out);
        out.append(",\"messages\":");
        push_messages(&self.messages, &mut out);
        push_opt_temperature(self.temperature, &mut out);
        push_opt_stream(self.stream, &mut out);
        out.append("}");
        proof {
            assert(out@ =~= openai_json(*self));
        }
        out
    }
}

/// The JSON object of one text part of a Google-style content entry.
pub open spec fn json_part(t: Seq<char>) -> Seq<char> {
    "{\"text\":"@ + json_string(t) + "}"@
}

/// The comma-separated JSON objects of a part list.
pub open spec fn json_part_items(s: Seq<Seq<char>>) -> Seq<char>
    decreases s.len(),
{
    if s.len() == 0 {
        Seq::empty()
    } else if s.len() == 1 {
        json_part(s[0])
    } else {
        json_part_items(s.drop_last()) + seq![','] + json_part(s.last())
    }
}

/// The JSON array of a part list.
pub open spec fn json_parts(s: Seq<Seq<char>>) -> Seq<char> {
    seq!['['] + json_part_items(s) + seq![']']
}

/// The JSON object of one Google-style content entry.
pub open spec fn json_google_message(m: GoogleMessageView) -> Seq<char> {
    "{\"role\":"@ + json_string(m.role) + ",\"parts\":"@ + json_parts(m.parts) + "}"@
}

/// The comma-separated JSON objects of a content list.
pub open spec fn json_content_items(s: Seq<GoogleMessageView>) -> Seq<char>
    decreases s.len(),
{
    if s.len() == 0 {
        Seq::empty()
    } else if s.len() == 1 {
        json_google_message(s[0])
    } else {
        json_content_items(s.drop_last()) + seq![','] + json_google_message(s.last())
    }
}

/// The JSON array of a content list.
pub open spec fn json_contents(s: Seq<GoogleMessageView>) -> Seq<char> {
    seq!['['] + json_content_items(s) + seq![']']
}

/// Listing one more part extends a comma-separated list by a comma,
/// unless the list was empty.
proof fn lemma_json_part_items_push(s: Seq<Seq<char>>, t: Seq<char>)
    ensures
        json_part_items(s.push(t)) == if s.len() == 0 {
            json_part(t)
        } else {
            json_part_items(s) + seq![','] + json_part(t)
        },
{
    assert(s.push(t).drop_last() =~= s);
}

/// Listing one more content entry extends a comma-separated list by a
/// comma, unless the list was empty.
proof fn lemma_json_content_items_push(s: Seq<GoogleMessageView>, m: GoogleMessageView)
    ensures
        json_content_items(s.push(m)) == if s.len() == 0 {
            json_google_message(m)
        } else {
            json_content_items(s) + seq![','] + json_google_message(m)
        },
{
    assert(s.push(m).drop_last() =~= s);
}

/// Appends the JSON array of a part list.
fn push_parts(parts: &Vec<GoogleMessagePart>, out: &mut String)
    ensures
        final(out)@ == old(out)@ + json_parts(parts.deep_view()),
{
    let ghost all: Seq<Seq<char>> = parts.deep_view();
    out.append("[");
    proof {
        reveal_strlit("[");
        assert("["@ =~= seq!['[']);
        assert(out@ =~= old(out)@ + seq!['['] + json_part_items(all.take(0)));
    }
    let mut i: usize = 0;
    while i < parts.len()
        invariant
            i <= parts.len(),
            all == parts.deep_view(),
            all.len() == parts@.len(),
            out@ == old(out)@ + seq!['['] + json_part_items(all.take(i as int)),
        decreases parts.len() - i,
    {
        if i > 0 {
            out.append(",");
            proof {
                reveal_strlit(",");
                assert(","@ =~= seq![',']);
            }
        }
        out.append("{\"text\":");
        push_json_string(parts[i].text.as_str(), out);
        out.append("}");
        proof {
            assert(all[i as int] == parts@[i as int].deep_view());
            assert(all.take(i + 1) =~= all.take(i as int).push(all[i as int]));
            lemma_json_part_items_push(all.take(i as int), all[i as int]);
            assert(out@ =~= old(out)@ + seq!['['] + json_part_items(all.take(i + 1)));
        }
        i = i + 1;
    }
    out.append("]");
    proof {
        reveal_strlit("]");
        assert("]"@ =~= seq![']']);
        assert(all.take(all.len() as int) =~= all);
        assert(out@ =~= old(out)@ + json_parts(all));
    }
}

/// Appends the JSON object of one Google-style content entry.
fn push_google_message(m: &GoogleMessage, out: &mut String)
    ensures
        final(out)@ == old(out)@ + json_google_message(m.deep_view()),
{
    out.append("{\"role\":");
    push_json_string(m.role.as_str(), out);
    out.append(",\"parts\":");
    push_parts(&m.parts, out);
    out.append("}");
    proof {
        assert(out@ =~= old(out)@ + json_google_message(m.deep_view()));
    }
}

/// Appends the JSON array of a content list.
fn push_contents(contents: &Vec<GoogleMessage>, out: &mut String)
    ensures
        final(out)@ == old(out)@ + json_contents(contents.deep_view()),
{
    let ghost all: Seq<GoogleMessageView> = contents.deep_view();
    out.append("[");
    proof {
        reveal_strlit("[");
        assert("["@ =~= seq!['[']);
        assert(out@ =~= old(out)@ + seq!['['] + json_content_items(all.take(0)));
    }
    let mut i: usize = 0;
    while i < contents.len()
        invariant
            i <= contents.len(),
            all == contents.deep_view(),
            all.len() == contents@.len(),
            out@ == old(out)@ + seq!['['] + json_content_items(all.take(i as int)),
        decreases contents.len() - i,
    {
        if i > 0 {
            out.append(",");
            proof {
                reveal_strlit(",");
                assert(","@ =~= seq![',']);
            }
        }
        push_google_message(&contents[i], out);
        proof {
            assert(all[i as int] == contents@[i as int].deep_view());
            assert(all.take(i + 1) =~= all.take(i as int).push(all[i as int]));
            lemma_json_content_items_push(all.take(i as int), all[i as int]);
            assert(out@ =~= old(out)@ + seq!['['] + json_content_items(all.take(i + 1)));
        }
        i = i + 1;
    }
    out.append("]");
    proof {
        reveal_strlit("]");
        assert("]"@ =~= seq![']']);
        assert(all.take(all.len() as int) =~= all);
        assert(out@ =~= old(out)@ + json_contents(all));
    }
}

/// The temperature member of a generation config, followed by its
/// separating comma; absent when no temperature is carried.
pub open spec fn config_temperature_field(t: Option<u32>) -> Seq<char> {
    match t {
        Option::None => Seq::empty(),
        Option::Some(v) => "\"temperature\":"@ + temp_digits(v as nat) + seq![','],
    }
}

/// The output-token bound of a generation config, followed by its
/// separating comma; absent when no bound is carried.
pub open spec fn config_max_output_field(m: Option<u16>) -> Seq<char> {
    match m {
        Option::None => Seq::empty(),
        Option::Some(v) => "\"max_output_tokens\":"@ + dec_digits(v as nat) + seq![','],
    }
}

/// The exact serialized form of a generation config:
/// `{temperature?, max_output_tokens?, response_mime_type}`, with absent
/// optional fields left out entirely.
pub open spec fn generation_config_json(g: GoogleGenerationConfig) -> Seq<char> {
    seq!['{'] + config_temperature_field(g.temperature) + config_max_output_field(
        g.max_output_tokens,
    ) + "\"response_mime_type\":"@ + json_string(g.response_mime_type@) + seq!['}']
}

/// Appends the exact serialized form of a generation config.
fn push_generation_config(g: &GoogleGenerationConfig, out: &mut String)
    ensures
        final(out)@ == old(out)@ + generation_config_json(*g),
{
    out.append("{");
    proof {
        reveal_strlit("{");
        assert("{"@ =~= seq!['{']);
    }
    match g.temperature {
        Option::Some(v) => {
            out.append("\"temperature\":");
            push_temp(v, out);
            out.append(",");
            proof {
                reveal_strlit(",");
                assert(","@ =~= seq![',']);
                assert(out@ =~= old(out)@ + seq!['{'] + config_temperature_field(g.temperature));
            }
        },
        Option::None => {
            proof {
                assert(out@ =~= old(out)@ + seq!['{'] + config_temperature_field(g.temperature));
            }
        },
    }
    let ghost mid: Seq<char> = out@;
    match g.max_output_tokens {
        Option::Some(v) => {
            out.append("\"max_output_tokens\":");
            push_dec(v as u32, out);
            out.append(",");
            proof {
                reveal_strlit(",");
                assert(","@ =~= seq![',']);
                assert(out@ =~= mid + config_max_output_field(g.max_output_tokens));
            }
        },
        Option::None => {
            proof {
                assert(out@ =~= mid + config_max_output_field(g.max_output_tokens));
            }
        },
    }
    out.append("\"response_mime_type\":");
    push_json_string(g.response_mime_type.as_str(), out);
    out.append("}");
    proof {
        reveal_strlit("}");
        assert("}"@ =~= seq!['}']);
        assert(out@ =~= old(out)@ + generation_config_json(*g));
    }
}

/// The comma-separated JSON objects of a non-empty tool list of the given
/// length: every tool is the search tool, enabled by bare presence.
pub open spec fn tool_items(n: nat) -> Seq<char>
    decreases n,
{
    if n <= 1 {
        "{\"google_search\":null}"@
    } else {
        tool_items((n - 1) as nat) + seq![','] + "{\"google_search\":null}"@
    }
}

/// The tools member of a Google-style request, preceded by its separating
/// comma; an empty tool list leaves no key behind.
pub open spec fn tools_field(n: nat) -> Seq<char> {
    if n == 0 {
        Seq::empty()
    } else {
        ",\"tools\":["@ + tool_items(n) + seq![']']
    }
}

/// Appends the tools member when any tool is enabled, and nothing
/// otherwise.
fn push_tools_field(tools: &Vec<GoogleTools>, out: &mut String)
    ensures
        final(out)@ == old(out)@ + tools_field(tools@.len() as nat),
{
    if tools.len() == 0 {
        return ;
    }
    out.append(",\"tools\":[");
    let ghost start: Seq<char> = out@;
    let mut i: usize = 0;
    while i < tools.len()
        invariant
            i <= tools.len(),
            start == old(out)@ + ",\"tools\":["@,
            i == 0 ==> out@ == start,
            i > 0 ==> out@ == start + tool_items(i as nat),
        decreases tools.len() - i,
    {
        if i > 0 {
            out.append(",");
            proof {
                reveal_strlit(",");
                assert(","@ =~= seq![',']);
            }
        }
        out.append("{\"google_search\":null}");
        proof {
            assert(out@ =~= start + tool_items((i + 1) as nat));
        }
        i = i + 1;
    }
    out.append("]");
    proof {
        reveal_strlit("]");
        assert("]"@ =~= seq![']']);
        assert(out@ =~= old(out)@ + tools_field(tools@.len() as nat));
    }
}

/// The exact serialized form of a Google-style request:
/// `{contents, generation_config, tools?}`, with an empty tool list left
/// out entirely.
pub open spec fn google_json(p: GooglePrompt) -> Seq<char> {
    "{\"contents\":"@ + json_contents(p.contents.deep_view()) + ",\"generation_config\":"@
        + generation_config_json(p.generation_config) + tools_field(p.tools@.len() as nat) + "}"@
}

impl GooglePrompt {
    /// Serializes the request to its exact wire form; absent generation
    /// options and an empty tool list leave no key behind.
    pub fn to_json(&self) -> (r: String)
        ensures
            r@ == google_json(*self),
    {
        let mut out = String::new();
        out.append("{\"contents\":");
        push_contents(&self.contents, &mut out);
        out.append(",\"generation_config\":");
        push_generation_config(&self.generation_config, &mut out);
        push_tools_field(&self.tools, &mut out);
        out.append("}");
        proof {
            assert(out@ =~= google_json(*self));
        }
        out
    }
}

impl AnthropicPrompt {
    /// Serializes the request to its exact wire form; an absent temperature
    /// or streaming flag leaves no key behind.
    pub fn to_json(&self) -> (r: String)
        ensures
            r@ == anthropic_json(*self),
    {
        let mut out = String::new();
        out.append("{\"model\":");
        push_json_string(self.model.as_str(), &mut out);
        out.append(",\"messages\":");
        push_messages(&self.messages, &mut out);
        push_opt_temperature(self.temperature, &mut out);
        out.append(",\"max_tokens\":");
        push_dec(self.max_tokens, &mut out);
        push_opt_stream(self.stream, &mut out);
        out.append("}");
        proof {
            assert(out@ =~= anthropic_json(*self));
        }
        out
    }
}

/// The exact serialized form of a tagged request: that of its variant.
pub open spec fn provider_request_json(r: ProviderRequest) -> Seq<char> {
    match r {
        ProviderRequest::OpenAi(p) => openai_json(p),
        ProviderRequest::Anthropic(p) => anthropic_json(p),
        ProviderRequest::Google(p) => google_json(p),
    }
}

impl ProviderRequest {
    /// Serializes any provider's request to its exact wire form.
    pub fn to_json(&self) -> (r: String)
        ensures
            r@ == provider_request_json(*self),
    {
        match self {
            ProviderRequest::OpenAi(p) => p.to_json(),
            ProviderRequest::Anthropic(p) => p.to_json(),
            ProviderRequest::Google(p) => p.to_json(),
        }
    }
}

} // verus!
