//! The chat-completions stream: decoding the response bytes as UTF-8 text
//! chunk by chunk, splitting the text into server-sent-event lines, and
//! reading stream events out of those lines.

use vstd::prelude::*;
use vstd::utf8::*;

use crate::error::AIApiError;
use crate::text::{
    chars_eq, chars_of, has_prefix_at, string_from_range, string_of, strip_prefixes,
    strip_prefixes_spec, strip_trailing_spec, trim_chars, trim_spec,
};

verus! {

broadcast use {encode_utf8_valid_utf8, encode_utf8_decode_utf8, decode_utf8_encode_utf8};

// ---------------------------------------------------------------------------
// Requests
// ---------------------------------------------------------------------------

/// The function that a chat message's tool call invokes.
#[derive(Debug, Clone, PartialEq, Eq)]
pub struct OpenAIChatToolCallFunction {
    pub name: String,
    pub arguments: String,
}

/// A tool call of an assistant chat message.
#[derive(Debug, Clone, PartialEq, Eq)]
pub struct OpenAIChatToolCall {
    pub id: String,
    pub call_type: &'static str,
    pub function: OpenAIChatToolCallFunction,
}

/// A message of the chat sent to the model.
#[derive(Debug, Clone, PartialEq, Eq)]
pub struct OpenAIChatMessage {
    pub role: &'static str,
    pub content: Option<String>,
    pub tool_call_id: Option<String>,
    pub tool_calls: Option<Vec<OpenAIChatToolCall>>,
}

/// A tool call of a chat message, as text.
pub struct ToolCallModel {
    pub id: Seq<char>,
    pub call_type: Seq<char>,
    pub name: Seq<char>,
    pub arguments: Seq<char>,
}

/// A chat message, as text.
pub struct ChatMessageModel {
    pub role: Seq<char>,
    pub content: Option<Seq<char>>,
    pub tool_call_id: Option<Seq<char>>,
    pub tool_calls: Option<Seq<ToolCallModel>>,
}

impl View for OpenAIChatToolCall {
    type V = ToolCallModel;

    open spec fn view(&self) -> ToolCallModel {
        ToolCallModel {
            id: self.id@,
            call_type: self.call_type@,
            name: self.function.name@,
            arguments: self.function.arguments@,
        }
    }
}

/// The text of an optional string.
pub open spec fn opt_text(s: Option<String>) -> Option<Seq<char>> {
    match s {
        Some(t) => Some(t@),
        None => None,
    }
}

impl View for OpenAIChatMessage {
    type V = ChatMessageModel;

    open spec fn view(&self) -> ChatMessageModel {
        ChatMessageModel {
            role: self.role@,
            content: opt_text(self.content),
            tool_call_id: opt_text(self.tool_call_id),
            tool_calls: match self.tool_calls {
                Some(calls) => Some(calls@.map_values(|c: OpenAIChatToolCall| c@)),
                None => None,
            },
        }
    }
}

/// The text views of a sequence of chat messages.
pub open spec fn chat_messages_view(ms: Seq<OpenAIChatMessage>) -> Seq<ChatMessageModel> {
    ms.map_values(|m: OpenAIChatMessage| m@)
}

/// A function tool offered to the model.
#[derive(Debug, Clone, PartialEq, Eq)]
pub struct OpenAIFunctionTool {
    pub name: String,
    pub description: String,
    /// The JSON schema of the parameters, as JSON text.
    pub parameters: String,
}

/// A tool offered to the model.
#[derive(Debug, Clone, PartialEq, Eq)]
pub struct OpenAITool {
    pub tool_type: &'static str,
    pub function: OpenAIFunctionTool,
}

/// A streamed chat-completion request.
#[derive(Debug, Clone, PartialEq, Eq)]
pub struct ChatCompletionsRequest {
    pub model: String,
    pub messages: Vec<OpenAIChatMessage>,
    pub stream: bool,
    pub max_tokens: u32,
    pub tools: Vec<OpenAITool>,
    pub tool_choice: Option<&'static str>,
}

/// The streamed request for `model` with the chat `messages` and `tools`:
/// tools are left to the model's choice (`auto`) where there are any, and the
/// completion may use `max_tokens` tokens.
pub fn chat_completions_request(
    model: String,
    messages: Vec<OpenAIChatMessage>,
    tools: Vec<OpenAITool>,
    max_tokens: u32,
) -> (r: ChatCompletionsRequest)
    ensures
        r.model == model,
        r.messages == messages,
        r.stream,
        r.max_tokens == max_tokens,
        r.tools == tools,
        tools@.len() == 0 ==> r.tool_choice is None,
        tools@.len() > 0 ==> (r.tool_choice matches Some(c) && c@ == "auto"@),
{
    let tool_choice = if tools.len() > 0 {
        Some("auto")
    } else {
        None
    };
    ChatCompletionsRequest { model, messages, stream: true, max_tokens, tools, tool_choice }
}

/// `base` without trailing slashes, followed by `/chat/completions`.
pub open spec fn chat_completions_url_spec(base_url: Seq<char>) -> Seq<char> {
    strip_trailing_spec(base_url, '/') + "/chat/completions"@
}

/// The URL of the chat-completions endpoint under `base_url`.
pub fn chat_completions_url(base_url: &str) -> (r: String)
    ensures
        r@ == chat_completions_url_spec(base_url@),
{
    let chars = chars_of(base_url);
    let mut end = chars.len();
    assert(chars@.take(chars@.len() as int) =~= chars@);
    while end > 0 && chars[end - 1] == '/'
        invariant
            end <= chars@.len(),
            strip_trailing_spec(chars@.take(end as int), '/') == strip_trailing_spec(chars@, '/'),
        decreases end,
    {
        assert(chars@.take(end as int).drop_last() =~= chars@.take(end - 1));
        end = end - 1;
    }
    assert(chars@.take(end as int) =~= chars@.subrange(0, end as int));
    let mut r = string_from_range(&chars, 0, end);
    r.append("/chat/completions");
    r
}

/// Trailing slashes on the base URL do not change the endpoint's URL.
pub proof fn law_chat_url_ignores_trailing_slash(base_url: Seq<char>)
    ensures
        chat_completions_url_spec(base_url.push('/')) == chat_completions_url_spec(base_url),
{
    assert(base_url.push('/').drop_last() =~= base_url);
}

// ---------------------------------------------------------------------------
// UTF-8
// ---------------------------------------------------------------------------

/// The length of the longest prefix of `bytes[..k]` that is valid UTF-8.
pub open spec fn longest_valid_prefix_upto(bytes: Seq<u8>, k: nat) -> nat
    decreases k,
{
    if k == 0 || valid_utf8(bytes.take(k as int)) {
        k
    } else {
        longest_valid_prefix_upto(bytes, (k - 1) as nat)
    }
}

/// The length of the longest prefix of `bytes` that is valid UTF-8: the
/// `valid_up_to` of a failed UTF-8 decoding.
pub open spec fn longest_valid_prefix(bytes: Seq<u8>) -> nat {
    longest_valid_prefix_upto(bytes, bytes.len())
}

/// The UTF-8 encoding of one character.
pub open spec fn char_encoding(c: char) -> Seq<u8> {
    encode_scalar(c as u32)
}

/// Whether `rest` is the start of one character's UTF-8 encoding, cut off
/// before the character's last byte: what a decoder that reaches the end of
/// its input in the middle of a character holds.
pub open spec fn is_cut_char(rest: Seq<u8>) -> bool {
    exists|c: char|
        0 < rest.len() < (#[trigger] char_encoding(c)).len() && rest == char_encoding(c).take(
            rest.len() as int,
        )
}

/// A failed UTF-8 decoding: the length of the longest valid prefix, and
/// whether an invalid byte sequence follows it (rather than the input ending
/// in the middle of a character).
pub struct Utf8Failure {
    pub valid_up_to: usize,
    pub invalid_sequence: bool,
}

/// Decodes `bytes` as UTF-8 (`std::str::from_utf8`).
///
/// Claims what the documentation of `from_utf8` and `Utf8Error` says: the
/// decoding succeeds exactly on valid UTF-8 and gives its characters; on
/// failure `valid_up_to` is the largest index up to which the input is valid,
/// and `error_len` is `None` exactly when the input ends there in the middle
/// of a character (the bytes from that index to the end start a character's
/// encoding), `Some` when an invalid sequence starts at that index. The
/// length inside `Some` is not passed on.
#[verifier::external_body]
fn str_from_utf8(bytes: &[u8]) -> (r: Result<&str, Utf8Failure>)
    ensures
        r is Ok <==> valid_utf8(bytes@),
        r matches Ok(s) ==> s@ == decode_utf8(bytes@),
        r matches Err(e) ==> {
            &&& e.valid_up_to == longest_valid_prefix(bytes@)
            &&& e.invalid_sequence == !is_cut_char(bytes@.skip(e.valid_up_to as int))
        },
{
    match std::str::from_utf8(bytes) {
        Ok(s) => Ok(s),
        Err(e) => Err(
            Utf8Failure {
                valid_up_to: e.valid_up_to(),
                invalid_sequence: match e.error_len() {
                    Some(_) => true,
                    None => false,
                },
            },
        ),
    }
}

/// `longest_valid_prefix` is a valid prefix, and no longer prefix is valid.
pub proof fn lemma_longest_valid_prefix(bytes: Seq<u8>, k: nat)
    requires
        k <= bytes.len(),
    ensures
        longest_valid_prefix_upto(bytes, k) <= k,
        valid_utf8(bytes.take(longest_valid_prefix_upto(bytes, k) as int)),
        forall|j: nat|
            longest_valid_prefix_upto(bytes, k) < j <= k ==> !valid_utf8(
                #[trigger] bytes.take(j as int),
            ),
    decreases k,
{
    if k == 0 {
        assert(bytes.take(0) =~= Seq::<u8>::empty());
    } else if !valid_utf8(bytes.take(k as int)) {
        lemma_longest_valid_prefix(bytes, (k - 1) as nat);
    }
}

/// The encoding of a concatenation is the concatenation of the encodings.
pub proof fn lemma_encode_utf8_concat(a: Seq<char>, b: Seq<char>)
    ensures
        encode_utf8(a + b) == encode_utf8(a) + encode_utf8(b),
    decreases a.len(),
{
    if a.len() == 0 {
        assert(a + b =~= b);
        assert(encode_utf8(a) =~= Seq::<u8>::empty());
        assert(encode_utf8(a) + encode_utf8(b) =~= encode_utf8(b));
    } else {
        assert((a + b).drop_first() =~= a.drop_first() + b);
        lemma_encode_utf8_concat(a.drop_first(), b);
        assert(encode_utf8(a + b) =~= encode_utf8(a) + encode_utf8(b));
    }
}

/// Decoding two valid UTF-8 sequences one after the other gives the same
/// characters as decoding their concatenation.
pub proof fn lemma_decode_utf8_concat(a: Seq<u8>, b: Seq<u8>)
    requires
        valid_utf8(a),
        valid_utf8(b),
    ensures
        valid_utf8(a + b),
        decode_utf8(a + b) == decode_utf8(a) + decode_utf8(b),
{
    let x = decode_utf8(a);
    let y = decode_utf8(b);
    lemma_encode_utf8_concat(x, y);
    assert(encode_utf8(x + y) == a + b);
}

/// The message of the error for bytes that are not UTF-8.
pub open spec fn invalid_utf8_message() -> Seq<char> {
    "Local OpenAI backend received invalid UTF-8 in SSE response"@
}

/// The message of the error for a stream that ends in the middle of a
/// character.
pub open spec fn incomplete_utf8_message() -> Seq<char> {
    "Local OpenAI backend received incomplete UTF-8 in SSE response"@
}

/// What `push_utf8_text` does to the pending bytes and the text, and whether
/// it succeeds: the pending bytes and the new bytes are decoded as far as
/// they are valid UTF-8; what follows stays pending; the push fails only on
/// an invalid byte sequence, not on a character cut off at the end.
pub open spec fn push_utf8_spec(pending: Seq<u8>, text: Seq<char>, bytes: Seq<u8>) -> (
    Seq<u8>,
    Seq<char>,
    bool,
) {
    let all = pending + bytes;
    if valid_utf8(all) {
        (Seq::empty(), text + decode_utf8(all), true)
    } else {
        let v = longest_valid_prefix(all) as int;
        (all.skip(v), text + decode_utf8(all.take(v)), is_cut_char(all.skip(v)))
    }
}

/// Appends `bytes` to the pending bytes and moves the longest valid UTF-8
/// prefix of them, decoded, to the end of `text_buffer`. Fails where the
/// bytes hold an invalid UTF-8 sequence; a character cut off at the end stays
/// pending until more bytes come.
pub fn push_utf8_text(pending_bytes: &mut Vec<u8>, text_buffer: &mut String, bytes: &[u8]) -> (r:
    Result<(), AIApiError>)
    requires
        old(pending_bytes)@.len() + bytes@.len() <= usize::MAX,
    ensures
        ({
            let (p, t, ok) = push_utf8_spec(old(pending_bytes)@, old(text_buffer)@, bytes@);
            &&& final(pending_bytes)@ == p
            &&& final(text_buffer)@ == t
            &&& (r is Ok <==> ok)
            &&& (r matches Err(e) ==> e.is_other(invalid_utf8_message()))
            &&& (r is Ok ==> p.len() <= 3)
        }),
{
    proof {
        law_flush_after_push(old(pending_bytes)@, old(text_buffer)@, bytes@);
    }
    let ghost all = old(pending_bytes)@ + bytes@;
    let mut i: usize = 0;
    while i < bytes.len()
        invariant
            i <= bytes@.len(),
            old(pending_bytes)@.len() + bytes@.len() <= usize::MAX,
            pending_bytes@ == old(pending_bytes)@ + bytes@.take(i as int),
            text_buffer@ == old(text_buffer)@,
        decreases bytes@.len() - i,
    {
        pending_bytes.push(bytes[i]);
        assert(bytes@.take(i + 1) =~= bytes@.take(i as int).push(bytes@[i as int]));
        i = i + 1;
    }
    assert(bytes@.take(bytes@.len() as int) =~= bytes@);
    assert(pending_bytes@ == all);
    match str_from_utf8(pending_bytes.as_slice()) {
        Ok(text) => {
            text_buffer.append(text);
            pending_bytes.clear();
            Ok(())
        },
        Err(error) => {
            let valid_up_to = error.valid_up_to;
            if valid_up_to > 0 {
                proof {
                    lemma_longest_valid_prefix(all, all.len());
                    assert(all.subrange(0, valid_up_to as int) =~= all.take(valid_up_to as int));
                }
                match str_from_utf8(&pending_bytes.as_slice()[0..valid_up_to]) {
                    Ok(valid_text) => text_buffer.append(valid_text),
                    Err(_) => {
                        proof {
                            assert(false);
                        }
                    },
                }
                let rest = pending_bytes.split_off(valid_up_to);
                *pending_bytes = rest;
            } else {
                assert(all.take(0) =~= Seq::<u8>::empty());
                assert(decode_utf8(Seq::<u8>::empty()) =~= Seq::<char>::empty());
                assert(text_buffer@ =~= old(text_buffer)@ + decode_utf8(all.take(0)));
                assert(all.skip(0) =~= all);
            }
            if error.invalid_sequence {
                let mut message = String::new();
                message.append("Local OpenAI backend received invalid UTF-8 in SSE response");
                return Err(AIApiError::Other(message));
            }
            Ok(())
        },
    }
}

/// What `flush_utf8_text` does at the end of the stream: pending bytes that
/// form whole characters move to the text; bytes that do not make it fail
/// and stay as they are.
pub open spec fn flush_utf8_spec(pending: Seq<u8>, text: Seq<char>) -> (Seq<u8>, Seq<char>, bool) {
    if pending.len() == 0 {
        (pending, text, true)
    } else if valid_utf8(pending) {
        (Seq::empty(), text + decode_utf8(pending), true)
    } else {
        (pending, text, false)
    }
}

/// Moves the bytes still pending at the end of the stream, decoded, to the
/// end of `text_buffer`; fails where they are not whole UTF-8 characters.
pub fn flush_utf8_text(pending_bytes: &mut Vec<u8>, text_buffer: &mut String) -> (r: Result<
    (),
    AIApiError,
>)
    ensures
        ({
            let (p, t, ok) = flush_utf8_spec(old(pending_bytes)@, old(text_buffer)@);
            &&& final(pending_bytes)@ == p
            &&& final(text_buffer)@ == t
            &&& (r is Ok <==> ok)
            &&& (r matches Err(e) ==> e.is_other(incomplete_utf8_message()))
        }),
{
    if pending_bytes.is_empty() {
        return Ok(());
    }
    match str_from_utf8(pending_bytes.as_slice()) {
        Ok(text) => {
            text_buffer.append(text);
            pending_bytes.clear();
            Ok(())
        },
        Err(_) => {
            let mut message = String::new();
            message.append("Local OpenAI backend received incomplete UTF-8 in SSE response");
            Err(AIApiError::Other(message))
        },
    }
}

/// The bytes of all `chunks`, one after another.
pub open spec fn concat_bytes(chunks: Seq<Seq<u8>>) -> Seq<u8>
    decreases chunks.len(),
{
    if chunks.len() == 0 {
        Seq::empty()
    } else {
        chunks[0] + concat_bytes(chunks.drop_first())
    }
}

/// Pushes each of `chunks` in turn with `push_utf8_text`, stopping at the
/// first failure.
pub open spec fn push_all_spec(pending: Seq<u8>, text: Seq<char>, chunks: Seq<Seq<u8>>) -> (
    Seq<u8>,
    Seq<char>,
    bool,
)
    decreases chunks.len(),
{
    if chunks.len() == 0 {
        (pending, text, true)
    } else {
        let (p, t, ok) = push_utf8_spec(pending, text, chunks[0]);
        if ok {
            push_all_spec(p, t, chunks.drop_first())
        } else {
            (p, t, false)
        }
    }
}

/// A push loses, duplicates and reorders no byte, whether it succeeds or
/// not: what it adds to the text, encoded again, followed by what stays
/// pending, is what was pending followed by the pushed bytes.
pub proof fn law_push_utf8_keeps_bytes(pending: Seq<u8>, text: Seq<char>, bytes: Seq<u8>)
    ensures
        ({
            let (p, t, ok) = push_utf8_spec(pending, text, bytes);
            &&& text.is_prefix_of(t)
            &&& encode_utf8(t.skip(text.len() as int)) + p == pending + bytes
        }),
{
    let all = pending + bytes;
    let (p, t, ok) = push_utf8_spec(pending, text, bytes);
    if valid_utf8(all) {
        assert(t.skip(text.len() as int) =~= decode_utf8(all));
        assert(encode_utf8(decode_utf8(all)) + p =~= all);
    } else {
        let v = longest_valid_prefix(all) as int;
        lemma_longest_valid_prefix(all, all.len());
        assert(t.skip(text.len() as int) =~= decode_utf8(all.take(v)));
        assert(all.take(v) + all.skip(v) =~= all);
    }
}

/// Pushing chunks one by one without a failure keeps every byte: the text
/// they add, encoded again, followed by what stays pending, is what was
/// pending followed by all the chunks.
pub proof fn lemma_push_all_keeps_bytes(pending: Seq<u8>, text: Seq<char>, chunks: Seq<Seq<u8>>)
    ensures
        ({
            let (p, t, ok) = push_all_spec(pending, text, chunks);
            &&& text.is_prefix_of(t)
            &&& ok ==> encode_utf8(t.skip(text.len() as int)) + p == pending + concat_bytes(chunks)
        }),
    decreases chunks.len(),
{
    if chunks.len() == 0 {
        assert(text.skip(text.len() as int) =~= Seq::<char>::empty());
        assert(encode_utf8(Seq::<char>::empty()) =~= Seq::<u8>::empty());
        assert(pending + concat_bytes(chunks) =~= pending);
        assert(Seq::<u8>::empty() + pending =~= pending);
    } else {
        let (p1, t1, ok1) = push_utf8_spec(pending, text, chunks[0]);
        law_push_utf8_keeps_bytes(pending, text, chunks[0]);
        let d1 = t1.skip(text.len() as int);
        if ok1 {
            lemma_push_all_keeps_bytes(p1, t1, chunks.drop_first());
            let (p, t, ok) = push_all_spec(p1, t1, chunks.drop_first());
            if ok {
                let d2 = t.skip(t1.len() as int);
                assert(t.skip(text.len() as int) =~= d1 + d2);
                lemma_encode_utf8_concat(d1, d2);
                assert(encode_utf8(d1 + d2) + p =~= encode_utf8(d1) + (encode_utf8(d2) + p));
                assert(pending + concat_bytes(chunks) =~= (pending + chunks[0]) + concat_bytes(
                    chunks.drop_first(),
                ));
            }
        }
    }
}

/// The end of a valid UTF-8 prefix is a character boundary of any valid
/// sequence that it starts.
pub proof fn lemma_valid_prefix_is_boundary(a: Seq<u8>, b: Seq<u8>)
    requires
        valid_utf8(a),
        valid_utf8(a + b),
    ensures
        is_char_boundary(a + b, a.len() as int),
    decreases a.len(),
{
    if a.len() > 0 {
        let ab = a + b;
        let l = length_of_first_scalar(a);
        assert(ab[0] == a[0]);
        assert(length_of_first_scalar(ab) == l);
        assert(l <= a.len());
        assert(pop_first_scalar(ab) =~= pop_first_scalar(a) + b);
        lemma_valid_prefix_is_boundary(pop_first_scalar(a), b);
    }
}

/// Decoding a response chunk by chunk gives the text of the whole response:
/// where every push succeeds, the final flush succeeds exactly when the bytes
/// of all chunks are valid UTF-8; and then the text gained exactly their
/// decoding, and nothing stays pending.
pub proof fn law_incremental_utf8_decoding(text: Seq<char>, chunks: Seq<Seq<u8>>)
    ensures
        ({
            let (p, t, ok) = push_all_spec(Seq::empty(), text, chunks);
            let (p2, t2, ok2) = flush_utf8_spec(p, t);
            &&& ok ==> (ok2 <==> valid_utf8(concat_bytes(chunks)))
            &&& ok && ok2 ==> {
                &&& t2 == text + decode_utf8(concat_bytes(chunks))
                &&& p2.len() == 0
            }
        }),
{
    let (p, t, ok) = push_all_spec(Seq::empty(), text, chunks);
    let (p2, t2, ok2) = flush_utf8_spec(p, t);
    lemma_push_all_keeps_bytes(Seq::empty(), text, chunks);
    let all = concat_bytes(chunks);
    assert(Seq::<u8>::empty() + all =~= all);
    if ok {
        let d = t.skip(text.len() as int);
        let a = encode_utf8(d);
        if ok2 {
            let d2 = if p.len() == 0 {
                d
            } else {
                d + decode_utf8(p)
            };
            if p.len() == 0 {
                assert(encode_utf8(d) =~= all);
            } else {
                lemma_encode_utf8_concat(d, decode_utf8(p));
                assert(encode_utf8(d2) =~= all);
            }
            assert(decode_utf8(all) == d2);
            assert(t2 =~= text + d2);
        }
        if valid_utf8(all) && p.len() > 0 {
            assert(a + p == all);
            lemma_valid_prefix_is_boundary(a, p);
            valid_utf8_split(all, a.len() as int);
            assert(all.subrange(a.len() as int, all.len() as int) =~= p);
        }
    }
}

/// The first byte of a character's encoding is the leading byte of the
/// encoding's width, and the encoding is one to four bytes long.
pub proof fn lemma_char_encoding_lead(c: char)
    ensures
        ({
            let e = char_encoding(c);
            &&& 1 <= e.len() <= 4
            &&& e.len() == 1 ==> is_leading_byte_width_1(e[0])
            &&& e.len() == 2 ==> is_leading_byte_width_2(e[0])
            &&& e.len() == 3 ==> is_leading_byte_width_3(e[0])
            &&& e.len() == 4 ==> is_leading_byte_width_4(e[0])
        }),
{
    let s = c as u32;
    char_is_scalar(c);
    if has_width_1_encoding(s) {
        assert(leading_byte_width_1(s) <= 0x7f) by (bit_vector);
    } else if has_width_2_encoding(s) {
        assert(0xc0 <= leading_byte_width_2(s) <= 0xdf) by (bit_vector);
    } else if has_width_3_encoding(s) {
        assert(0xe0 <= leading_byte_width_3(s) <= 0xef) by (bit_vector);
    } else {
        assert(0xf0 <= leading_byte_width_4(s) <= 0xf7) by (bit_vector);
    }
}

/// A character cut off before its last byte is one to three bytes long and
/// is not valid UTF-8.
pub proof fn lemma_cut_char(rest: Seq<u8>)
    requires
        is_cut_char(rest),
    ensures
        1 <= rest.len() <= 3,
        !valid_utf8(rest),
{
    let c = choose|c: char|
        0 < rest.len() < (#[trigger] char_encoding(c)).len() && rest == char_encoding(c).take(
            rest.len() as int,
        );
    lemma_char_encoding_lead(c);
    let e = char_encoding(c);
    assert(rest[0] == e[0]);
}

/// A byte that starts no character's encoding: a continuation byte, or one
/// of the bytes that UTF-8 never uses as a leading byte.
pub open spec fn is_stray_byte(b: u8) -> bool {
    is_continuation_byte(b) || 0xf8 <= b
}

/// Bytes that begin with a stray byte are not a cut-off character.
pub proof fn lemma_stray_byte_not_cut(rest: Seq<u8>)
    requires
        rest.len() > 0,
        is_stray_byte(rest[0]),
    ensures
        !is_cut_char(rest),
{
    if is_cut_char(rest) {
        let c = choose|c: char|
            0 < rest.len() < (#[trigger] char_encoding(c)).len() && rest == char_encoding(
                c,
            ).take(rest.len() as int);
        lemma_char_encoding_lead(c);
        assert(rest[0] == char_encoding(c)[0]);
    }
}

/// A byte that starts no character fails a push at once.
pub proof fn law_stray_byte_is_invalid(text: Seq<char>, b: u8)
    requires
        is_stray_byte(b),
    ensures
        !push_utf8_spec(Seq::empty(), text, seq![b]).2,
{
    let all = Seq::<u8>::empty() + seq![b];
    assert(all =~= seq![b]);
    assert(!valid_utf8(all));
    assert(all.take(1) =~= all);
    assert(longest_valid_prefix(all) == 0) by {
        reveal_with_fuel(longest_valid_prefix_upto, 2);
    }
    assert(all.skip(0) =~= all);
    lemma_stray_byte_not_cut(all);
}

/// `push_utf8_spec` in one form: the pending bytes and the new bytes are
/// split at their longest valid prefix, which is all of them exactly when
/// they are valid; the push fails only where what follows that prefix is not
/// a cut-off character.
pub proof fn lemma_push_utf8_split(pending: Seq<u8>, text: Seq<char>, bytes: Seq<u8>)
    ensures
        ({
            let all = pending + bytes;
            let v = longest_valid_prefix(all) as int;
            &&& v <= all.len()
            &&& valid_utf8(all.take(v))
            &&& (v == all.len() <==> valid_utf8(all))
            &&& push_utf8_spec(pending, text, bytes) == (
                all.skip(v),
                text + decode_utf8(all.take(v)),
                v == all.len() || is_cut_char(all.skip(v)),
            )
        }),
{
    let all = pending + bytes;
    lemma_longest_valid_prefix(all, all.len());
    let v = longest_valid_prefix(all) as int;
    assert(all.take(all.len() as int) =~= all);
    if valid_utf8(all) {
        assert(v == all.len());
        assert(all.skip(v) =~= Seq::<u8>::empty());
    }
}

/// A valid prefix carries over: after valid bytes `a`, the longest valid
/// prefix of `a + b` is `a` followed by the longest valid prefix of `b`.
pub proof fn lemma_longest_valid_prefix_after_valid(a: Seq<u8>, b: Seq<u8>)
    requires
        valid_utf8(a),
    ensures
        longest_valid_prefix(a + b) == a.len() + longest_valid_prefix(b),
{
    let ab = a + b;
    lemma_longest_valid_prefix(ab, ab.len());
    lemma_longest_valid_prefix(b, b.len());
    let m = longest_valid_prefix(ab);
    let lb = longest_valid_prefix(b);
    let x = b.take(lb as int);
    lemma_decode_utf8_concat(a, x);
    assert(ab.take((a.len() + lb) as int) =~= a + x);
    if a.len() + lb > m {
        let j: nat = (a.len() + lb) as nat;
        assert(!valid_utf8(ab.take(j as int)));
        assert(false);
    }
    let y = ab.take(m as int);
    assert(y.subrange(0, a.len() as int) =~= a);
    let z = y.subrange(a.len() as int, y.len() as int);
    assert(z =~= b.take(m - a.len()));
    if !valid_utf8(z) {
        partial_valid_partial_invalid_utf8(y, a.len() as int);
        assert(false);
    }
    if m - a.len() > lb {
        let j: nat = (m - a.len()) as nat;
        assert(!valid_utf8(b.take(j as int)));
        assert(false);
    }
}

/// Cutting the byte stream into chunks does not change the decoding: pushing
/// `x` and then `y` leaves the same text and the same pending bytes as
/// pushing `x` followed by `y` at once, and the second push succeeds exactly
/// when the single push does.
pub proof fn law_push_utf8_in_two_chunks(pending: Seq<u8>, text: Seq<char>, x: Seq<u8>, y: Seq<u8>)
    ensures
        ({
            let (p1, t1, ok1) = push_utf8_spec(pending, text, x);
            let (p2, t2, ok2) = push_utf8_spec(p1, t1, y);
            let (p, t, ok) = push_utf8_spec(pending, text, x + y);
            &&& p2 == p
            &&& t2 == t
            &&& ok2 == ok
        }),
{
    let big_a = pending + x;
    lemma_push_utf8_split(pending, text, x);
    let v1 = longest_valid_prefix(big_a) as int;
    let a = big_a.take(v1);
    let p1 = big_a.skip(v1);
    let t1 = text + decode_utf8(a);
    lemma_push_utf8_split(p1, t1, y);
    let big_b = p1 + y;
    let v2 = longest_valid_prefix(big_b) as int;
    lemma_push_utf8_split(pending, text, x + y);
    let all = pending + (x + y);
    assert(all =~= a + big_b);
    lemma_longest_valid_prefix_after_valid(a, big_b);
    assert(longest_valid_prefix(all) == a.len() + v2);
    assert(all.skip(a.len() + v2) =~= big_b.skip(v2));
    assert(all.take(a.len() + v2) =~= a + big_b.take(v2));
    lemma_decode_utf8_concat(a, big_b.take(v2));
    assert(text + decode_utf8(all.take(a.len() + v2)) =~= t1 + decode_utf8(big_b.take(v2)));
}

/// After a successful push at most three bytes stay pending, the start of a
/// character cut off at the end of the bytes so far; flushing then succeeds
/// exactly when nothing is pending, and leaves the bytes and the text as
/// they are: a response that ends inside a character is reported, never
/// dropped.
pub proof fn law_flush_after_push(pending: Seq<u8>, text: Seq<char>, bytes: Seq<u8>)
    ensures
        ({
            let (p, t, ok) = push_utf8_spec(pending, text, bytes);
            let (p2, t2, ok2) = flush_utf8_spec(p, t);
            ok ==> {
                &&& p.len() <= 3
                &&& p2 == p
                &&& t2 == t
                &&& (ok2 <==> p.len() == 0)
            }
        }),
{
    lemma_push_utf8_split(pending, text, bytes);
    let all = pending + bytes;
    let v = longest_valid_prefix(all) as int;
    if v < all.len() && is_cut_char(all.skip(v)) {
        lemma_cut_char(all.skip(v));
    }
}

// ---------------------------------------------------------------------------
// Lines
// ---------------------------------------------------------------------------

/// The index of the first `c` in `s`, or the length of `s` where there is
/// none.
pub open spec fn first_index_of(s: Seq<char>, c: char) -> nat
    decreases s.len(),
{
    if s.len() == 0 || s[0] == c {
        0
    } else {
        1 + first_index_of(s.drop_first(), c)
    }
}

/// `line` without one trailing carriage return.
pub open spec fn without_trailing_cr(line: Seq<char>) -> Seq<char> {
    if line.len() > 0 && line.last() == '\r' {
        line.drop_last()
    } else {
        line
    }
}

/// What `take_sse_line` gives for the text `s`: the text up to the first
/// newline, without it and without a carriage return before it, and the text
/// after that newline; or nothing, with the text unchanged, where there is no
/// newline yet.
pub open spec fn take_sse_line_spec(s: Seq<char>) -> (Option<Seq<char>>, Seq<char>) {
    let i = first_index_of(s, '\n') as int;
    if i == s.len() {
        (None, s)
    } else {
        (Some(without_trailing_cr(s.take(i))), s.skip(i + 1))
    }
}

/// `first_index_of` is the first index holding `c`.
pub proof fn lemma_first_index_of(s: Seq<char>, c: char, i: int)
    requires
        0 <= i <= s.len(),
        forall|k: int| 0 <= k < i ==> #[trigger] s[k] != c,
        i < s.len() ==> s[i] == c,
    ensures
        first_index_of(s, c) == i,
    decreases i,
{
    if i > 0 {
        assert forall|k: int| 0 <= k < i - 1 implies #[trigger] s.drop_first()[k] != c by {
            assert(s.drop_first()[k] == s[k + 1]);
        }
        lemma_first_index_of(s.drop_first(), c, i - 1);
    }
}

/// Removes the first complete line from `text_buffer` and returns it without
/// its line ending (`\n` or `\r\n`); returns nothing while no line is
/// complete.
pub fn take_sse_line(text_buffer: &mut String) -> (r: Option<String>)
    ensures
        ({
            let (line, rest) = take_sse_line_spec(old(text_buffer)@);
            &&& final(text_buffer)@ == rest
            &&& (match r {
                Some(l) => line == Some(l@),
                None => line is None,
            })
        }),
{
    let chars = chars_of(text_buffer.as_str());
    let n = chars.len();
    let mut i: usize = 0;
    while i < n && chars[i] != '\n'
        invariant
            i <= n == chars@.len(),
            chars@ == text_buffer@,
            forall|k: int| 0 <= k < i ==> #[trigger] chars@[k] != '\n',
        decreases n - i,
    {
        i = i + 1;
    }
    proof {
        lemma_first_index_of(chars@, '\n', i as int);
    }
    if i == n {
        return None;
    }
    let mut end = i;
    if end > 0 && chars[end - 1] == '\r' {
        end = end - 1;
    }
    let line = string_from_range(&chars, 0, end);
    let rest = string_from_range(&chars, i + 1, n);
    proof {
        assert(chars@.subrange(0, end as int) =~= without_trailing_cr(chars@.take(i as int)));
        assert(chars@.subrange(i + 1, n as int) =~= chars@.skip(i + 1));
    }
    *text_buffer = rest;
    Some(line)
}

/// Taking a line loses no text: the text is the line, its line ending
/// (`\n`, or `\r\n` where a carriage return was removed), and what stays; and
/// the line holds no newline. Where no line is complete the text holds no
/// newline and stays as it is.
pub proof fn law_take_sse_line_keeps_text(s: Seq<char>)
    ensures
        ({
            let (line, rest) = take_sse_line_spec(s);
            match line {
                None => rest == s && !s.contains('\n'),
                Some(l) => !l.contains('\n') && (s == l + seq!['\n'] + rest || s == l + seq![
                    '\r',
                    '\n',
                ] + rest),
            }
        }),
{
    let i = first_index_of(s, '\n') as int;
    lemma_first_index_of_props(s, '\n');
    let (line, rest) = take_sse_line_spec(s);
    if i < s.len() {
        let l = line->Some_0;
        assert(!l.contains('\n')) by {
            if l.contains('\n') {
                let k = choose|k: int| 0 <= k < l.len() && l[k] == '\n';
                assert(s[k] == l[k]);
            }
        }
        if s.take(i).len() > 0 && s.take(i).last() == '\r' {
            assert(s =~= l + seq!['\r', '\n'] + rest);
        } else {
            assert(s =~= l + seq!['\n'] + rest);
        }
    } else {
        assert(!s.contains('\n')) by {
            if s.contains('\n') {
                let k = choose|k: int| 0 <= k < s.len() && s[k] == '\n';
                assert(s[k] != '\n');
            }
        }
    }
}

/// `first_index_of` is at most the length; no earlier index holds `c`; and
/// the index holds `c` where it is within `s`.
pub proof fn lemma_first_index_of_props(s: Seq<char>, c: char)
    ensures
        first_index_of(s, c) <= s.len(),
        forall|k: int| 0 <= k < first_index_of(s, c) ==> s[k] != c,
        first_index_of(s, c) < s.len() ==> s[first_index_of(s, c) as int] == c,
    decreases s.len(),
{
    if s.len() > 0 && s[0] != c {
        lemma_first_index_of_props(s.drop_first(), c);
        assert forall|k: int| 0 <= k < first_index_of(s, c) implies s[k] != c by {
            if k > 0 {
                assert(s[k] == s.drop_first()[k - 1]);
            }
        }
    }
}

/// A reader of an event stream: the bytes received that do not yet make a
/// whole character, and the decoded text not yet taken as lines.
pub struct SseReader {
    pub pending_bytes: Vec<u8>,
    pub text_buffer: String,
}

impl SseReader {
    /// A reader that has received nothing.
    pub fn new() -> (r: SseReader)
        ensures
            r.pending_bytes@.len() == 0,
            r.text_buffer@.len() == 0,
    {
        SseReader { pending_bytes: Vec::new(), text_buffer: String::new() }
    }

    /// Receives a chunk of the response's bytes.
    pub fn push(&mut self, bytes: &[u8]) -> (r: Result<(), AIApiError>)
        requires
            old(self).pending_bytes@.len() + bytes@.len() <= usize::MAX,
        ensures
            ({
                let (p, t, ok) = push_utf8_spec(old(self).pending_bytes@, old(self).text_buffer@, bytes@);
                &&& final(self).pending_bytes@ == p
                &&& final(self).text_buffer@ == t
                &&& (r is Ok <==> ok)
                &&& (r matches Err(e) ==> e.is_other(invalid_utf8_message()))
                &&& (r is Ok ==> p.len() <= 3)
            }),
    {
        push_utf8_text(&mut self.pending_bytes, &mut self.text_buffer, bytes)
    }

    /// Takes the next complete line, if any.
    pub fn next_line(&mut self) -> (r: Option<String>)
        ensures
            final(self).pending_bytes == old(self).pending_bytes,
            ({
                let (line, rest) = take_sse_line_spec(old(self).text_buffer@);
                &&& final(self).text_buffer@ == rest
                &&& (match r {
                    Some(l) => line == Some(l@),
                    None => line is None,
                })
            }),
    {
        take_sse_line(&mut self.text_buffer)
    }

    /// Takes all the complete lines, in order.
    pub fn take_lines(&mut self) -> (lines: Vec<String>)
        ensures
            final(self).pending_bytes == old(self).pending_bytes,
            lines@.map_values(|l: String| l@) == drain_lines(old(self).text_buffer@).0,
            final(self).text_buffer@ == drain_lines(old(self).text_buffer@).1,
    {
        let ghost initial = self.text_buffer@;
        let mut lines: Vec<String> = Vec::new();
        loop
            invariant
                self.pending_bytes == old(self).pending_bytes,
                lines@.map_values(|l: String| l@) + drain_lines(self.text_buffer@).0 == drain_lines(
                    initial,
                ).0,
                drain_lines(self.text_buffer@).1 == drain_lines(initial).1,
            ensures
                self.pending_bytes == old(self).pending_bytes,
                lines@.map_values(|l: String| l@) == drain_lines(initial).0,
                self.text_buffer@ == drain_lines(initial).1,
            decreases self.text_buffer@.len(),
        {
            let ghost before = self.text_buffer@;
            proof {
                lemma_first_index_of_props(before, '\n');
            }
            match self.next_line() {
                Some(line) => {
                    let ghost old_lines = lines@.map_values(|l: String| l@);
                    lines.push(line);
                    proof {
                        let (ls, r) = drain_lines(self.text_buffer@);
                        assert(lines@.map_values(|l: String| l@) =~= old_lines.push(line@));
                        assert(old_lines.push(line@) + ls =~= old_lines + (seq![line@] + ls));
                    }
                },
                None => {
                    proof {
                        assert(lines@.map_values(|l: String| l@) + Seq::<Seq<char>>::empty()
                            =~= lines@.map_values(|l: String| l@));
                    }
                    break;
                },
            }
        }
        lines
    }

    /// Ends the stream: decodes the bytes still pending and gives the text
    /// that follows the last complete line, where there is any; fails where
    /// the pending bytes are not whole characters.
    pub fn finish(&mut self) -> (r: Result<Option<String>, AIApiError>)
        ensures
            ({
                let (p, t, ok) = flush_utf8_spec(old(self).pending_bytes@, old(self).text_buffer@);
                &&& ok ==> (match r {
                    Ok(Some(l)) => t.len() > 0 && l@ == t,
                    Ok(None) => t.len() == 0,
                    Err(_) => false,
                })
                &&& !ok ==> (r matches Err(e) && e.is_other(incomplete_utf8_message()))
                &&& !ok ==> final(self).pending_bytes@ == old(self).pending_bytes@
                    && final(self).text_buffer@ == old(self).text_buffer@
                &&& ok ==> final(self).pending_bytes@.len() == 0 && final(self).text_buffer@.len() == 0
            }),
    {
        match flush_utf8_text(&mut self.pending_bytes, &mut self.text_buffer) {
            Err(e) => Err(e),
            Ok(()) => {
                let mut rest = String::new();
                std::mem::swap(&mut rest, &mut self.text_buffer);
                if rest.as_str().is_empty() {
                    Ok(None)
                } else {
                    Ok(Some(rest))
                }
            },
        }
    }
}

// ---------------------------------------------------------------------------
// Reading a whole response
// ---------------------------------------------------------------------------

/// The complete lines of `s`, in order and without their line endings, and
/// the text after the last line break.
pub open spec fn drain_lines(s: Seq<char>) -> (Seq<Seq<char>>, Seq<char>)
    decreases s.len(),
{
    let i = first_index_of(s, '\n') as int;
    if i >= s.len() {
        (Seq::empty(), s)
    } else {
        let (ls, r) = drain_lines(s.skip(i + 1));
        (seq![without_trailing_cr(s.take(i))] + ls, r)
    }
}

/// The text `t` as the last line of a response, where it is not empty.
pub open spec fn last_line(t: Seq<char>) -> Seq<Seq<char>> {
    if t.len() > 0 {
        seq![t]
    } else {
        Seq::empty()
    }
}

/// The lines of a whole text: its complete lines, then the text after the
/// last line break, where there is any.
pub open spec fn text_lines(s: Seq<char>) -> Seq<Seq<char>> {
    drain_lines(s).0 + last_line(drain_lines(s).1)
}

/// What a reader does with a response that arrives as `chunks`, starting
/// from the pending bytes `pending` and the text `text`: each chunk is
/// pushed and the complete lines are then taken, until a push fails. Gives
/// the lines taken, the pending bytes and the text left, and whether every
/// push succeeded.
pub open spec fn read_chunks(pending: Seq<u8>, text: Seq<char>, chunks: Seq<Seq<u8>>) -> (
    Seq<Seq<char>>,
    Seq<u8>,
    Seq<char>,
    bool,
)
    decreases chunks.len(),
{
    if chunks.len() == 0 {
        (Seq::empty(), pending, text, true)
    } else {
        let (p, t, ok) = push_utf8_spec(pending, text, chunks[0]);
        if !ok {
            (Seq::empty(), p, t, false)
        } else {
            let (ls, r) = drain_lines(t);
            let (ls2, p2, t2, ok2) = read_chunks(p, r, chunks.drop_first());
            (ls + ls2, p2, t2, ok2)
        }
    }
}

/// The lines that a reader gives for a whole response that arrives as
/// `chunks`: the lines taken while reading, then, once the pending bytes are
/// flushed, the text after the last line break, where there is any; `None`
/// where a push or the final flush fails.
pub open spec fn reader_lines(chunks: Seq<Seq<u8>>) -> Option<Seq<Seq<char>>> {
    let (ls, p, t, ok) = read_chunks(Seq::empty(), Seq::empty(), chunks);
    let (p2, t2, ok2) = flush_utf8_spec(p, t);
    if ok && ok2 {
        Some(ls + last_line(t2))
    } else {
        None
    }
}

/// Text without a line break has no complete line.
pub proof fn lemma_drain_without_newline(s: Seq<char>)
    requires
        !s.contains('\n'),
    ensures
        drain_lines(s) == (Seq::<Seq<char>>::empty(), s),
{
    assert forall|k: int| 0 <= k < s.len() implies #[trigger] s[k] != '\n' by {
        if s[k] == '\n' {
            assert(s.contains('\n'));
        }
    }
    lemma_first_index_of(s, '\n', s.len() as int);
}

/// What stays after the complete lines are taken holds no line break.
pub proof fn lemma_drain_rest(s: Seq<char>)
    ensures
        !drain_lines(s).1.contains('\n'),
    decreases s.len(),
{
    let i = first_index_of(s, '\n') as int;
    lemma_first_index_of_props(s, '\n');
    if i >= s.len() {
        if s.contains('\n') {
            let k = choose|k: int| 0 <= k < s.len() && s[k] == '\n';
            assert(s[k] != '\n');
        }
    } else {
        lemma_drain_rest(s.skip(i + 1));
    }
}

/// Text that comes after the taken lines joins what stayed: the lines of
/// `s + u` are those of `s`, then those of what stayed of `s` followed by
/// `u`.
pub proof fn lemma_drain_append(s: Seq<char>, u: Seq<char>)
    ensures
        ({
            let (ls, r) = drain_lines(s);
            let (ls2, r2) = drain_lines(r + u);
            drain_lines(s + u) == (ls + ls2, r2)
        }),
    decreases s.len(),
{
    let i = first_index_of(s, '\n') as int;
    lemma_first_index_of_props(s, '\n');
    if i >= s.len() {
        let (ls2, r2) = drain_lines(s + u);
        assert(Seq::<Seq<char>>::empty() + ls2 =~= ls2);
    } else {
        let su = s + u;
        assert forall|k: int| 0 <= k < i implies #[trigger] su[k] != '\n' by {
            assert(su[k] == s[k]);
        }
        assert(su[i] == s[i]);
        lemma_first_index_of(su, '\n', i);
        assert(su.take(i) =~= s.take(i));
        assert(su.skip(i + 1) =~= s.skip(i + 1) + u);
        lemma_drain_append(s.skip(i + 1), u);
        let (ls, r) = drain_lines(s.skip(i + 1));
        let (ls2, r2) = drain_lines(r + u);
        let l = without_trailing_cr(s.take(i));
        assert(seq![l] + (ls + ls2) =~= (seq![l] + ls) + ls2);
    }
}

/// Valid UTF-8 gives its length as its longest valid prefix.
pub proof fn lemma_longest_valid_prefix_of_valid(b: Seq<u8>)
    requires
        valid_utf8(b),
    ensures
        longest_valid_prefix(b) == b.len(),
{
    assert(b.take(b.len() as int) =~= b);
}

/// A prefix of the encoding of `d` is the encoding of the first `i`
/// characters, followed by the start of the next character's encoding, cut
/// before its end.
pub proof fn lemma_prefix_of_encoding(d: Seq<char>, n: int) -> (i: int)
    requires
        0 <= n <= encode_utf8(d).len(),
    ensures
        0 <= i <= d.len(),
        encode_utf8(d.take(i)).len() <= n,
        n == encode_utf8(d.take(i)).len() ==> encode_utf8(d).take(n) == encode_utf8(d.take(i)),
        n != encode_utf8(d.take(i)).len() ==> {
            &&& i < d.len()
            &&& n - encode_utf8(d.take(i)).len() < char_encoding(d[i]).len()
            &&& encode_utf8(d).take(n) == encode_utf8(d.take(i)) + char_encoding(d[i]).take(
                n - encode_utf8(d.take(i)).len(),
            )
        },
    decreases d.len(),
{
    assert(d.take(0) =~= Seq::<char>::empty());
    assert(encode_utf8(Seq::<char>::empty()) =~= Seq::<u8>::empty());
    if d.len() == 0 {
        assert(encode_utf8(d).take(n) =~= Seq::<u8>::empty());
        0
    } else {
        let e0 = char_encoding(d[0]);
        let tail = d.drop_first();
        assert(encode_utf8(d) == e0 + encode_utf8(tail));
        if n < e0.len() {
            assert(encode_utf8(d).take(n) =~= Seq::<u8>::empty() + e0.take(n));
            0
        } else {
            let i2 = lemma_prefix_of_encoding(tail, n - e0.len());
            let i = i2 + 1;
            assert(d.take(i).drop_first() =~= tail.take(i2));
            assert(d.take(i)[0] == d[0]);
            assert(encode_utf8(d.take(i)) == e0 + encode_utf8(tail.take(i2)));
            if i2 < tail.len() {
                assert(d[i] == tail[i2]);
            }
            assert(encode_utf8(d).take(n) =~= e0 + encode_utf8(tail).take(n - e0.len()));
            if n - e0.len() != encode_utf8(tail.take(i2)).len() {
                assert(encode_utf8(d).take(n) =~= encode_utf8(d.take(i)) + char_encoding(
                    d[i],
                ).take(n - encode_utf8(d.take(i)).len()));
            }
            i
        }
    }
}

/// Any prefix of valid UTF-8 pushes without failure: its longest valid
/// prefix is all of it, or is followed by a character cut off at the end.
pub proof fn lemma_prefix_push_ok(x: Seq<u8>, n: int)
    requires
        valid_utf8(x),
        0 <= n <= x.len(),
    ensures
        ({
            let pre = x.take(n);
            let v = longest_valid_prefix(pre) as int;
            v == n || is_cut_char(pre.skip(v))
        }),
{
    let d = decode_utf8(x);
    assert(encode_utf8(d) == x);
    let pre = x.take(n);
    let i = lemma_prefix_of_encoding(d, n);
    let a = encode_utf8(d.take(i));
    if n == a.len() {
        lemma_longest_valid_prefix_of_valid(pre);
    } else {
        let e = char_encoding(d[i]);
        let c = e.take(n - a.len());
        assert(is_cut_char(c));
        lemma_longest_valid_prefix_after_valid(a, c);
        lemma_longest_valid_prefix(c, c.len());
        let m = longest_valid_prefix(c);
        if m > 0 {
            assert(c.take(m as int) =~= e.take(m as int));
            assert(is_cut_char(c.take(m as int)));
            lemma_cut_char(c.take(m as int));
        }
        assert(pre.skip(a.len() as int) =~= c);
    }
}

/// Reading chunks from a state with at most a cut-off character pending and
/// no line break in the text, where the pending bytes and all the chunks make
/// valid UTF-8: every push succeeds, and the lines and the state are those of
/// one push of all the chunks at once followed by taking the lines.
pub proof fn lemma_read_chunks(p: Seq<u8>, t: Seq<char>, chunks: Seq<Seq<u8>>)
    requires
        p.len() == 0 || is_cut_char(p),
        !t.contains('\n'),
        valid_utf8(p + concat_bytes(chunks)),
    ensures
        ({
            let (ls, p2, t2, ok) = read_chunks(p, t, chunks);
            let (q, big_t, ok1) = push_utf8_spec(p, t, concat_bytes(chunks));
            &&& ok
            &&& p2 == q
            &&& (ls, t2) == drain_lines(big_t)
        }),
    decreases chunks.len(),
{
    let all = concat_bytes(chunks);
    lemma_push_utf8_split(p, t, all);
    if chunks.len() == 0 {
        assert(p + all =~= p);
        if p.len() > 0 {
            lemma_cut_char(p);
        }
        assert(p + all =~= Seq::<u8>::empty());
        assert(decode_utf8(Seq::<u8>::empty()) =~= Seq::<char>::empty());
        assert((p + all).take(0) =~= Seq::<u8>::empty());
        assert((p + all).skip(0) =~= Seq::<u8>::empty());
        assert(t + Seq::<char>::empty() =~= t);
        lemma_drain_without_newline(t);
    } else {
        let c0 = chunks[0];
        let rest = chunks.drop_first();
        let y = concat_bytes(rest);
        assert(all == c0 + y);
        let whole = p + all;
        assert(whole =~= (p + c0) + y);
        lemma_prefix_push_ok(whole, (p + c0).len() as int);
        assert(whole.take((p + c0).len() as int) =~= p + c0);
        lemma_push_utf8_split(p, t, c0);
        let pc = p + c0;
        let v1 = longest_valid_prefix(pc) as int;
        let a = pc.take(v1);
        let p1 = pc.skip(v1);
        let t1 = t + decode_utf8(a);
        let (ls, r) = drain_lines(t1);
        lemma_drain_rest(t1);
        assert(whole =~= a + (p1 + y));
        if !valid_utf8(p1 + y) {
            assert(whole.subrange(0, a.len() as int) =~= a);
            assert(whole.subrange(a.len() as int, whole.len() as int) =~= p1 + y);
            partial_valid_partial_invalid_utf8(whole, a.len() as int);
        }
        lemma_read_chunks(p1, r, rest);
        law_push_utf8_in_two_chunks(p, t, c0, y);
        lemma_push_utf8_split(p1, t1, y);
        lemma_push_utf8_split(p1, r, y);
        let b = p1 + y;
        let d = decode_utf8(b.take(longest_valid_prefix(b) as int));
        lemma_drain_append(t1, d);
        assert(t1 + d =~= t + decode_utf8(a) + d);
    }
}

/// However a response that is valid UTF-8 is cut into chunks (inside a line
/// or inside a character), reading it gives the lines of its whole text.
pub proof fn law_reader_lines_ignore_chunking(chunks: Seq<Seq<u8>>)
    requires
        valid_utf8(concat_bytes(chunks)),
    ensures
        reader_lines(chunks) == Some(text_lines(decode_utf8(concat_bytes(chunks)))),
{
    let all = concat_bytes(chunks);
    let e = Seq::<u8>::empty();
    assert(e + all =~= all);
    assert(!Seq::<char>::empty().contains('\n'));
    lemma_read_chunks(e, Seq::<char>::empty(), chunks);
    lemma_push_utf8_split(e, Seq::<char>::empty(), all);
    lemma_longest_valid_prefix_of_valid(all);
    assert(all.take(all.len() as int) =~= all);
    assert(all.skip(all.len() as int) =~= e);
    assert(Seq::<char>::empty() + decode_utf8(all) =~= decode_utf8(all));
}

/// Two ways of cutting the same valid UTF-8 response into chunks give the
/// same lines.
pub proof fn law_reader_lines_same_for_any_chunking(a: Seq<Seq<u8>>, b: Seq<Seq<u8>>)
    requires
        concat_bytes(a) == concat_bytes(b),
        valid_utf8(concat_bytes(a)),
    ensures
        reader_lines(a) == reader_lines(b),
{
    law_reader_lines_ignore_chunking(a);
    law_reader_lines_ignore_chunking(b);
}

// ---------------------------------------------------------------------------
// Server-sent events
// ---------------------------------------------------------------------------

/// A line of the event stream: one that carries no data, the `[DONE]` marker
/// that ends the stream, or a data payload (the payload's text, or what it
/// decodes to).
#[derive(Debug, Clone, PartialEq, Eq)]
pub enum SseLine<T> {
    Ignored,
    Done,
    Data(T),
}

/// The data payload of a stream line: the trimmed line must start with
/// `data:`; every leading `data:` is then removed and the rest trimmed.
pub open spec fn sse_data_payload(line: Seq<char>) -> Option<Seq<char>> {
    let t = trim_spec(line);
    if t.len() == 0 || !"data:"@.is_prefix_of(t) {
        None
    } else {
        Some(trim_spec(strip_prefixes_spec(t, "data:"@)))
    }
}

/// Whether `r` is the classification of the stream line `line`.
pub open spec fn is_sse_line_of(line: Seq<char>, r: SseLine<String>) -> bool {
    match r {
        SseLine::Ignored => sse_data_payload(line) is None,
        SseLine::Done => sse_data_payload(line) == Some("[DONE]"@),
        SseLine::Data(p) => sse_data_payload(line) == Some(p@) && p@ != "[DONE]"@,
    }
}

/// Classifies a line of the event stream: lines that do not start with
/// `data:` carry nothing, `data: [DONE]` ends the stream, and any other data
/// line carries its payload.
pub fn classify_sse_line(line: &str) -> (r: SseLine<String>)
    ensures
        is_sse_line_of(line@, r),
{
    let chars = chars_of(line);
    let t = trim_chars(&chars);
    let data = chars_of("data:");
    if t.len() == 0 || !has_prefix_at(&t, 0, &data) {
        assert(t@.skip(0) =~= t@);
        return SseLine::Ignored;
    }
    assert(t@.skip(0) =~= t@);
    proof {
        reveal_strlit("data:");
    }
    let stripped = strip_prefixes(&t, &data);
    let payload = trim_chars(&stripped);
    let done = chars_of("[DONE]");
    if chars_eq(&payload, &done) {
        SseLine::Done
    } else {
        SseLine::Data(string_of(&payload))
    }
}

/// The function part of a tool call fragment.
#[derive(Debug, Clone, PartialEq, Eq)]
pub struct ChatCompletionToolCallFunctionDelta {
    pub name: Option<String>,
    pub arguments: Option<String>,
}

/// A fragment of a tool call, as a chunk carries it.
#[derive(Debug, Clone, PartialEq, Eq)]
pub struct ChatCompletionToolCallDelta {
    pub index: usize,
    pub id: Option<String>,
    pub function: Option<ChatCompletionToolCallFunctionDelta>,
}

/// What a choice of a chunk adds to the reply.
#[derive(Debug, Clone, PartialEq, Eq)]
pub struct ChatCompletionDelta {
    pub content: Option<String>,
    pub tool_calls: Option<Vec<ChatCompletionToolCallDelta>>,
}

/// One choice of a chunk.
#[derive(Debug, Clone, PartialEq, Eq)]
pub struct ChatCompletionChoice {
    pub delta: ChatCompletionDelta,
    pub finish_reason: Option<String>,
}

/// One chunk of a streamed chat completion: the decoded payload of a data
/// line.
#[derive(Debug, Clone, PartialEq, Eq)]
pub struct ChatCompletionChunk {
    pub choices: Vec<ChatCompletionChoice>,
}

/// A fragment of a tool call, as the stream reports it.
#[derive(Debug, Clone, PartialEq, Eq)]
pub struct OpenAIToolCallDelta {
    pub index: usize,
    pub id: Option<String>,
    pub function_name: Option<String>,
    pub arguments_delta: String,
}

/// An event of the chat-completion stream.
#[derive(Debug, Clone, PartialEq, Eq)]
pub enum OpenAIStreamEvent {
    /// A piece of the reply's text.
    Content(String),
    /// A fragment of a tool call.
    ToolCallDelta(OpenAIToolCallDelta),
    /// The end of the stream.
    Done,
}

/// The non-empty content of the first choice of `chunk`, if any.
pub open spec fn chunk_content(chunk: ChatCompletionChunk) -> Option<String> {
    if chunk.choices@.len() == 0 {
        None
    } else {
        match chunk.choices@[0].delta.content {
            Some(c) => if c@.len() > 0 {
                Some(c)
            } else {
                None
            },
            None => None,
        }
    }
}

/// The text that a stream line adds to the reply: the content of its chunk.
pub open spec fn sse_delta_of(line: SseLine<ChatCompletionChunk>) -> Option<String> {
    match line {
        SseLine::Data(chunk) => chunk_content(chunk),
        _ => None,
    }
}

/// Whether `r` is the event that the chunk `chunk` reports: the first
/// choice's non-empty content; else its first tool call fragment; else
/// nothing.
pub open spec fn is_chunk_event(chunk: ChatCompletionChunk, r: Option<OpenAIStreamEvent>) -> bool {
    if chunk.choices@.len() == 0 {
        r is None
    } else {
        let d = chunk.choices@[0].delta;
        let content = chunk_content(chunk);
        let call = match d.tool_calls {
            Some(calls) => if calls@.len() > 0 { Some(calls@[0]) } else { None },
            None => None,
        };
        match (content, call) {
            (Some(c), _) => r == Some(OpenAIStreamEvent::Content(c)),
            (None, Some(tc)) => {
                &&& r matches Some(OpenAIStreamEvent::ToolCallDelta(t))
                &&& t.index == tc.index
                &&& t.id == tc.id
                &&& t.function_name == (match tc.function {
                    Some(f) => f.name,
                    None => None,
                })
                &&& t.arguments_delta@ == (match tc.function {
                    Some(f) => match f.arguments {
                        Some(a) => a@,
                        None => Seq::<char>::empty(),
                    },
                    None => Seq::<char>::empty(),
                })
            },
            (None, None) => r is None,
        }
    }
}

/// Whether `r` is the event that the stream line `line` reports: none for a
/// line without data, `Done` for the end marker, and the chunk's event for a
/// data line.
pub open spec fn is_sse_event_of(line: SseLine<ChatCompletionChunk>, r: Option<OpenAIStreamEvent>) -> bool {
    match line {
        SseLine::Ignored => r is None,
        SseLine::Done => r == Some(OpenAIStreamEvent::Done),
        SseLine::Data(chunk) => is_chunk_event(chunk, r),
    }
}

/// The event that a chunk reports.
pub fn chunk_event(chunk: ChatCompletionChunk) -> (r: Option<OpenAIStreamEvent>)
    ensures
        is_chunk_event(chunk, r),
{
    let mut choices = chunk.choices;
    if choices.len() == 0 {
        return None;
    }
    let choice = choices.remove(0);
    let delta = choice.delta;
    if let Some(content) = delta.content {
        if content.as_str().is_empty() == false {
            return Some(OpenAIStreamEvent::Content(content));
        }
    }
    if let Some(mut calls) = delta.tool_calls {
        if calls.len() > 0 {
            let tool_call = calls.remove(0);
            let (function_name, arguments_delta) = match tool_call.function {
                Some(f) => (
                    f.name,
                    match f.arguments {
                        Some(a) => a,
                        None => String::new(),
                    },
                ),
                None => (None, String::new()),
            };
            return Some(
                OpenAIStreamEvent::ToolCallDelta(
                    OpenAIToolCallDelta {
                        index: tool_call.index,
                        id: tool_call.id,
                        function_name,
                        arguments_delta,
                    },
                ),
            );
        }
    }
    None
}

/// The event that a stream line reports, once its data is decoded.
pub fn parse_sse_event(line: SseLine<ChatCompletionChunk>) -> (r: Option<OpenAIStreamEvent>)
    ensures
        is_sse_event_of(line, r),
{
    match line {
        SseLine::Ignored => None,
        SseLine::Done => Some(OpenAIStreamEvent::Done),
        SseLine::Data(chunk) => chunk_event(chunk),
    }
}

/// What the event stream does with a decoded line: pass an event on, skip a
/// line that reports none, or stop at the end marker.
#[derive(Debug, Clone, PartialEq, Eq)]
pub enum LineStep {
    Yield(OpenAIStreamEvent),
    Skip,
    Stop,
}

/// What the event stream does with a decoded line: the end marker stops the
/// stream (a marker on the last, unterminated line too, where nothing follows
/// it), a line that reports no event is skipped, and any other event is
/// passed on.
pub fn line_step(line: SseLine<ChatCompletionChunk>) -> (s: LineStep)
    ensures
        (s is Stop) <==> (line is Done),
        s is Skip ==> is_sse_event_of(line, None),
        s matches LineStep::Yield(e) ==> is_sse_event_of(line, Some(e)) && !(e is Done),
{
    match parse_sse_event(line) {
        Some(OpenAIStreamEvent::Done) => LineStep::Stop,
        Some(e) => LineStep::Yield(e),
        None => LineStep::Skip,
    }
}

/// The text that a line adds to the reply is the content event that it
/// reports, and nothing where it reports another event or none.
pub proof fn law_delta_is_content_event(line: SseLine<ChatCompletionChunk>, e: Option<OpenAIStreamEvent>)
    requires
        is_sse_event_of(line, e),
    ensures
        sse_delta_of(line) == (match e {
            Some(OpenAIStreamEvent::Content(c)) => Some(c),
            _ => None,
        }),
{
}

/// Any non-empty text that the first choice of a chunk carries is passed on
/// as it is, white space included: the chunk's event is that text, and so is
/// the event and the text of a data line carrying the chunk.
pub proof fn law_nonempty_content_is_passed_on(
    chunk: ChatCompletionChunk,
    c: String,
    r: Option<OpenAIStreamEvent>,
    e: Option<OpenAIStreamEvent>,
)
    requires
        chunk.choices@.len() > 0,
        chunk.choices@[0].delta.content == Some(c),
        c@.len() > 0,
        is_chunk_event(chunk, r),
        is_sse_event_of(SseLine::Data(chunk), e),
    ensures
        r == Some(OpenAIStreamEvent::Content(c)),
        e == Some(OpenAIStreamEvent::Content(c)),
        sse_delta_of(SseLine::Data(chunk)) == Some(c),
{
}

/// A chunk whose first choice carries no text, or empty text, reports that
/// choice's first tool call fragment, with its index and id, where it has
/// one, and no event where it has none; a chunk without choices reports
/// none.
pub proof fn law_chunk_without_text(chunk: ChatCompletionChunk, r: Option<OpenAIStreamEvent>)
    requires
        is_chunk_event(chunk, r),
        chunk.choices@.len() == 0 || (match chunk.choices@[0].delta.content {
            Some(c) => c@.len() == 0,
            None => true,
        }),
    ensures
        chunk.choices@.len() == 0 ==> r is None,
        chunk.choices@.len() > 0 ==> match chunk.choices@[0].delta.tool_calls {
            Some(calls) => if calls@.len() > 0 {
                r matches Some(OpenAIStreamEvent::ToolCallDelta(t)) && t.index == calls@[0].index
                    && t.id == calls@[0].id
            } else {
                r is None
            },
            None => r is None,
        },
{
}

/// The text that a stream line adds to the reply, if any.
pub fn parse_sse_delta(line: SseLine<ChatCompletionChunk>) -> (r: Option<String>)
    ensures
        r == sse_delta_of(line),
{
    match parse_sse_event(line) {
        Some(OpenAIStreamEvent::Content(c)) => Some(c),
        _ => None,
    }
}

} // verus!
