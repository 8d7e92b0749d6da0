//! The model server's endpoints, and what an Anthropic-style reply holds:
//! its text, its tool calls and why it stopped.

use vstd::prelude::*;
use crate::json::{as_array, as_str, get, get_array, get_str, JsonValue};
use crate::text::{chars_of, ends_with, ends_with_exec, extend_from, push_str_chars, string_of, strip_end_char};

verus! {

broadcast use vstd::string::group_string_axioms;

fn strip_slashes(s: &[char]) -> (r: Vec<char>)
    ensures
        r@ == strip_end_char(s@, '/'),
{
    let mut n = s.len();
    assert(s@.take(n as int) =~= s@);
    while n > 0 && s[n - 1] == '/'
        invariant
            n <= s.len(),
            strip_end_char(s@, '/') == strip_end_char(s@.take(n as int), '/'),
        decreases n,
    {
        assert(s@.take(n as int).drop_last() =~= s@.take(n - 1));
        n -= 1;
    }
    crate::text::copy_range(s, 0, n)
}

/// The server's base URL as the client keeps it: without trailing slashes.
pub fn client_base_url(base_url: &str) -> (r: String)
    ensures
        r@ == strip_end_char(base_url@, '/'),
{
    string_of(strip_slashes(chars_of(base_url).as_slice()).as_slice())
}

/// The URL of an API call `name` (such as `chat/completions`): under the
/// base when it already ends in `/v1`, else under `base/v1`.
pub open spec fn api_url(base: Seq<char>, name: Seq<char>) -> Seq<char> {
    let b = strip_end_char(base, '/');
    if ends_with(base, "/v1"@) || ends_with(base, "/v1/"@) {
        b + "/"@ + name
    } else {
        b + "/v1/"@ + name
    }
}

pub fn api_url_exec(base: &str, name: &str) -> (r: String)
    ensures
        r@ == api_url(base@, name@),
{
    let c = chars_of(base);
    let v1 = chars_of("/v1");
    let v1s = chars_of("/v1/");
    let mut v = strip_slashes(c.as_slice());
    if ends_with_exec(c.as_slice(), v1.as_slice()) || ends_with_exec(c.as_slice(), v1s.as_slice()) {
        push_str_chars(&mut v, "/");
    } else {
        push_str_chars(&mut v, "/v1/");
    }
    push_str_chars(&mut v, name);
    string_of(v.as_slice())
}

/// Where a chat request goes: `messages` for an Anthropic server, else
/// `chat/completions`.
pub fn chat_url(base: &str, anthropic: bool) -> (r: String)
    ensures
        r@ == api_url(base@, if anthropic { "messages"@ } else { "chat/completions"@ }),
{
    if anthropic {
        api_url_exec(base, "messages")
    } else {
        api_url_exec(base, "chat/completions")
    }
}

/// What an Anthropic reply holds: its text blocks joined, and its tool
/// calls (id, name and input), in order.
pub open spec fn reply_text(blocks: Seq<JsonValue>) -> Seq<char>
    decreases blocks.len(),
{
    if blocks.len() == 0 {
        Seq::empty()
    } else {
        let b = blocks.last();
        reply_text(blocks.drop_last()) + if as_str(get(b, "type"@)) == Some("text"@) {
            match as_str(get(b, "text"@)) {
                Some(t) => t,
                None => Seq::empty(),
            }
        } else {
            Seq::empty()
        }
    }
}

/// The tool-use blocks of a reply, as their positions among the blocks.
pub open spec fn tool_uses(blocks: Seq<JsonValue>) -> Seq<int>
    decreases blocks.len(),
{
    if blocks.len() == 0 {
        Seq::empty()
    } else {
        let b = blocks.last();
        let before = tool_uses(blocks.drop_last());
        if as_str(get(b, "type"@)) != Some("text"@) && as_str(get(b, "type"@)) == Some("tool_use"@) {
            before.push(blocks.len() - 1)
        } else {
            before
        }
    }
}

pub open spec fn str_or_empty(v: Option<JsonValue>) -> Seq<char> {
    match as_str(v) {
        Some(s) => s,
        None => Seq::empty(),
    }
}

/// A tool call of an Anthropic reply.
pub struct ToolUse {
    pub id: String,
    pub name: String,
    /// The position of its block among the reply's content blocks.
    pub block: usize,
}

/// `u` is the tool call of block `k` of `blocks`.
pub open spec fn use_of(u: ToolUse, blocks: Seq<JsonValue>, k: int) -> bool {
    &&& u.block == k
    &&& u.id@ == str_or_empty(get(blocks[k], "id"@))
    &&& u.name@ == str_or_empty(get(blocks[k], "name"@))
}

/// What the program builds the OpenAI-style reply from.
pub struct ReplyParts {
    pub text: String,
    pub tool_uses: Vec<ToolUse>,
    /// The model stopped to use tools (`finish_reason` `tool_calls`, else
    /// `stop`).
    pub stopped_for_tools: bool,
}

/// Reads an Anthropic reply: the text of its `text` blocks, its `tool_use`
/// blocks, and whether it stopped to use tools.
pub fn reply_parts(data: &JsonValue) -> (r: ReplyParts)
    ensures
        r.stopped_for_tools == (as_str(get(*data, "stop_reason"@)) == Some("tool_use"@)),
        ({
            let blocks = match as_array(get(*data, "content"@)) {
                Some(a) => a,
                None => Seq::empty(),
            };
            &&& r.text@ == reply_text(blocks)
            &&& r.tool_uses@.len() == tool_uses(blocks).len()
            &&& forall|i: int|
                0 <= i < r.tool_uses@.len() ==> use_of(#[trigger] r.tool_uses@[i], blocks, tool_uses(blocks)[i])
        }),
{
    let stop = match get_str(data, "stop_reason") {
        Some(s) => crate::text::chars_eq(chars_of(s.as_str()).as_slice(), chars_of("tool_use").as_slice()),
        None => false,
    };
    let empty: Vec<JsonValue> = Vec::new();
    let blocks: &Vec<JsonValue> = match get_array(data, "content") {
        Some(a) => a,
        None => &empty,
    };
    let ghost bv = blocks@;
    assert(bv == match as_array(get(*data, "content"@)) {
        Some(a) => a,
        None => Seq::<JsonValue>::empty(),
    });
    let mut text: Vec<char> = Vec::new();
    let mut uses: Vec<ToolUse> = Vec::new();
    let mut i: usize = 0;
    while i < blocks.len()
        invariant
            i <= blocks.len(),
            bv == blocks@,
            text@ == reply_text(bv.take(i as int)),
            uses@.len() == tool_uses(bv.take(i as int)).len(),
            forall|j: int|
                0 <= j < uses@.len() ==> 0 <= #[trigger] tool_uses(bv.take(i as int))[j] < i && use_of(
                    uses@[j],
                    bv,
                    tool_uses(bv.take(i as int))[j],
                ),
        decreases blocks.len() - i,
    {
        let b = &blocks[i];
        let ghost pre = bv.take(i as int);
        assert(bv.take(i + 1).drop_last() =~= pre);
        assert(bv.take(i + 1).last() == *b);
        let kind = match get_str(b, "type") {
            Some(t) => {
                let tc = chars_of(t.as_str());
                if crate::text::chars_eq(tc.as_slice(), chars_of("text").as_slice()) {
                    1u8
                } else if crate::text::chars_eq(tc.as_slice(), chars_of("tool_use").as_slice()) {
                    2u8
                } else {
                    0u8
                }
            },
            None => 0u8,
        };
        proof {
            reveal_strlit("text");
            reveal_strlit("tool_use");
            assert("text"@ != "tool_use"@) by {
                assert("text"@.len() != "tool_use"@.len());
            }
        }
        if kind == 1 {
            match get_str(b, "text") {
                Some(t) => extend_from(&mut text, chars_of(t.as_str()).as_slice()),
                None => {},
            }
            assert(text@ =~= reply_text(bv.take(i + 1)));
            assert(tool_uses(bv.take(i + 1)) == tool_uses(pre));
            assert forall|j: int| 0 <= j < uses@.len() implies 0 <= #[trigger] tool_uses(bv.take(i + 1))[j] < i
                + 1 && use_of(uses@[j], bv, tool_uses(bv.take(i + 1))[j]) by {
                assert(tool_uses(bv.take(i + 1))[j] == tool_uses(pre)[j]);
            }
        } else if kind == 2 {
            let id = match get_str(b, "id") {
                Some(s) => string_of(chars_of(s.as_str()).as_slice()),
                None => String::new(),
            };
            let name = match get_str(b, "name") {
                Some(s) => string_of(chars_of(s.as_str()).as_slice()),
                None => String::new(),
            };
            let ghost before = uses@;
            uses.push(ToolUse { id, name, block: i });
            proof {
                assert(text@ =~= reply_text(bv.take(i + 1)));
                let tu = tool_uses(bv.take(i + 1));
                assert(tu == tool_uses(pre).push(i as int));
                assert forall|j: int| 0 <= j < uses@.len() implies 0 <= #[trigger] tool_uses(bv.take(i + 1))[j] < i
                    + 1 && use_of(uses@[j], bv, tool_uses(bv.take(i + 1))[j]) by {
                    if j < before.len() {
                        assert(uses@[j] == before[j]);
                        assert(tool_uses(bv.take(i + 1))[j] == tool_uses(pre)[j]);
                    }
                }
            }
        } else {
            assert(text@ =~= reply_text(bv.take(i + 1)));
            assert(tool_uses(bv.take(i + 1)) == tool_uses(pre));
            assert forall|j: int| 0 <= j < uses@.len() implies 0 <= #[trigger] tool_uses(bv.take(i + 1))[j] < i
                + 1 && use_of(uses@[j], bv, tool_uses(bv.take(i + 1))[j]) by {
                assert(tool_uses(bv.take(i + 1))[j] == tool_uses(pre)[j]);
            }
        }
        i += 1;
    }
    assert(bv.take(blocks.len() as int) =~= bv);
    ReplyParts { text: string_of(text.as_slice()), tool_uses: uses, stopped_for_tools: stop }
}

/// `v` is the string `s`.
pub open spec fn str_is(v: JsonValue, s: Seq<char>) -> bool {
    v matches JsonValue::Str(t) && t@ == s
}

/// An OpenAI-style tool call: its id, and the function with its name and
/// its arguments (as JSON text).
pub open spec fn call_json(v: JsonValue, u: ToolUse, args: Seq<char>) -> bool {
    match v {
        JsonValue::Object(fs) => {
            &&& fs@.len() == 3
            &&& fs@[0].0@ == "id"@ && str_is(fs@[0].1, u.id@)
            &&& fs@[1].0@ == "type"@ && str_is(fs@[1].1, "function"@)
            &&& fs@[2].0@ == "function"@
            &&& match fs@[2].1 {
                JsonValue::Object(gs) => {
                    &&& gs@.len() == 2
                    &&& gs@[0].0@ == "name"@ && str_is(gs@[0].1, u.name@)
                    &&& gs@[1].0@ == "arguments"@ && str_is(gs@[1].1, args)
                },
                _ => false,
            }
        },
        _ => false,
    }
}

/// The assistant's message: its text (null when there is none) and its
/// tool calls (left out when there are none).
pub open spec fn message_json(v: JsonValue, parts: ReplyParts, args: Seq<String>) -> bool {
    match v {
        JsonValue::Object(fs) => {
            &&& fs@.len() == if parts.tool_uses@.len() > 0 {
                3int
            } else {
                2int
            }
            &&& fs@[0].0@ == "role"@ && str_is(fs@[0].1, "assistant"@)
            &&& fs@[1].0@ == "content"@
            &&& if parts.text@.len() > 0 {
                str_is(fs@[1].1, parts.text@)
            } else {
                fs@[1].1 is Null
            }
            &&& parts.tool_uses@.len() > 0 ==> {
                &&& fs@[2].0@ == "tool_calls"@
                &&& fs@[2].1 matches JsonValue::Array(cs) && cs@.len() == parts.tool_uses@.len() && forall|i: int|
                    0 <= i < cs@.len() ==> call_json(cs@[i], #[trigger] parts.tool_uses@[i], args[i]@)
            }
        },
        _ => false,
    }
}

/// The OpenAI-style reply: one choice with the message and why the model
/// stopped, then the token counts when the reply gave any.
pub open spec fn openai_reply_json(
    v: JsonValue,
    parts: ReplyParts,
    args: Seq<String>,
    usage: Option<(JsonValue, JsonValue)>,
) -> bool {
    match v {
        JsonValue::Object(fs) => {
            &&& fs@.len() == if usage is Some {
                2int
            } else {
                1int
            }
            &&& fs@[0].0@ == "choices"@
            &&& fs@[0].1 matches JsonValue::Array(cs) && cs@.len() == 1 && (cs@[0] matches JsonValue::Object(
                ch,
            ) && ch@.len() == 2 && ch@[0].0@ == "message"@ && message_json(ch@[0].1, parts, args) && ch@[1].0@
                == "finish_reason"@ && str_is(
                ch@[1].1,
                if parts.stopped_for_tools {
                    "tool_calls"@
                } else {
                    "stop"@
                },
            ))
            &&& (usage matches Some((p, c)) ==> fs@[1].0@ == "usage"@ && (fs@[1].1 matches JsonValue::Object(us)
                && us@.len() == 2 && us@[0].0@ == "prompt_tokens"@ && us@[0].1 == p && us@[1].0@ == "completion_tokens"@
                && us@[1].1 == c))
        },
        _ => false,
    }
}

fn own(s: &str) -> (r: String)
    ensures
        r@ == s@,
{
    string_of(chars_of(s).as_slice())
}

fn str_json(s: &str) -> (r: JsonValue)
    ensures
        str_is(r, s@),
{
    JsonValue::Str(own(s))
}

/// The OpenAI-style reply built from the parts of an Anthropic one:
/// `arguments` holds each tool call's input written as JSON text, and
/// `usage` the reply's input and output token counts when it had a
/// `usage` field.
pub fn openai_reply(parts: &ReplyParts, arguments: &Vec<String>, usage: Option<(JsonValue, JsonValue)>) -> (r: JsonValue)
    requires
        arguments@.len() == parts.tool_uses@.len(),
    ensures
        openai_reply_json(r, *parts, arguments@, usage),
{
    let mut calls: Vec<JsonValue> = Vec::new();
    let mut i: usize = 0;
    while i < parts.tool_uses.len()
        invariant
            i <= parts.tool_uses@.len(),
            arguments@.len() == parts.tool_uses@.len(),
            calls@.len() == i,
            forall|k: int| 0 <= k < i ==> call_json(calls@[k], #[trigger] parts.tool_uses@[k], arguments@[k]@),
        decreases parts.tool_uses.len() - i,
    {
        let u = &parts.tool_uses[i];
        let mut gs: Vec<(String, JsonValue)> = Vec::new();
        gs.push((own("name"), str_json(u.name.as_str())));
        gs.push((own("arguments"), str_json(arguments[i].as_str())));
        let mut fs: Vec<(String, JsonValue)> = Vec::new();
        fs.push((own("id"), str_json(u.id.as_str())));
        fs.push((own("type"), str_json("function")));
        fs.push((own("function"), JsonValue::Object(gs)));
        let c = JsonValue::Object(fs);
        assert(call_json(c, parts.tool_uses@[i as int], arguments@[i as int]@));
        let ghost before = calls@;
        calls.push(c);
        assert forall|k: int| 0 <= k < i + 1 implies call_json(calls@[k], #[trigger] parts.tool_uses@[k], arguments@[k]@) by {
            if k < i {
                assert(calls@[k] == before[k]);
            }
        }
        i += 1;
    }
    let mut m: Vec<(String, JsonValue)> = Vec::new();
    m.push((own("role"), str_json("assistant")));
    if chars_of(parts.text.as_str()).len() > 0 {
        m.push((own("content"), str_json(parts.text.as_str())));
    } else {
        m.push((own("content"), JsonValue::Null));
    }
    if parts.tool_uses.len() > 0 {
        m.push((own("tool_calls"), JsonValue::Array(calls)));
    }
    let message = JsonValue::Object(m);
    assert(message_json(message, *parts, arguments@));
    let reason = if parts.stopped_for_tools {
        str_json("tool_calls")
    } else {
        str_json("stop")
    };
    let mut ch: Vec<(String, JsonValue)> = Vec::new();
    ch.push((own("message"), message));
    ch.push((own("finish_reason"), reason));
    let mut choices: Vec<JsonValue> = Vec::new();
    choices.push(JsonValue::Object(ch));
    let mut out: Vec<(String, JsonValue)> = Vec::new();
    out.push((own("choices"), JsonValue::Array(choices)));
    match usage {
        Some((p, c)) => {
            let mut us: Vec<(String, JsonValue)> = Vec::new();
            us.push((own("prompt_tokens"), p));
            us.push((own("completion_tokens"), c));
            out.push((own("usage"), JsonValue::Object(us)));
        },
        None => {},
    }
    JsonValue::Object(out)
}

} // verus!
