//! Talking to a local Ollama server: endpoints, request contents, prompts,
//! and how replies (whole or streamed line by line) become chat responses.
//! The HTTP exchange itself runs outside the library.
use vstd::prelude::*;
use crate::text::{chars_of, eq_str, string_of, trim};

verus! {

/// Sets up the AI module; nothing needs preparing before the first request.
pub fn init_ai() {
}

/// Where the Ollama server listens unless told otherwise.
pub const DEFAULT_OLLAMA_URL: &'static str = "http://localhost:11434";

/// A model the server offers.
pub struct OllamaModel {
    pub name: String,
    pub modified_at: String,
    pub size: u64,
}

/// The server's list of models.
pub struct OllamaModelsResponse {
    pub models: Vec<OllamaModel>,
}

/// A message of a chat: who says it (`system`, `user`, ...) and what.
pub struct ChatMessage {
    pub role: String,
    pub content: String,
}

/// What the server is asked in a chat.
pub struct ChatRequest {
    pub model: String,
    pub messages: Vec<ChatMessage>,
    pub stream: bool,
}

/// A reply, or a piece of a streamed reply, as the application sees it.
pub struct AIChatResponse {
    pub content: String,
    pub done: bool,
    pub error: Option<String>,
}

/// The address of the server's list of models.
pub fn tags_url(base_url: &str) -> (r: String)
    ensures
        r@ == base_url@ + "/api/tags"@,
{
    let mut r = String::from_str(base_url);
    r.append("/api/tags");
    r
}

/// The address of the server's chat endpoint.
pub fn chat_url(base_url: &str) -> (r: String)
    ensures
        r@ == base_url@ + "/api/chat"@,
{
    let mut r = String::from_str(base_url);
    r.append("/api/chat");
    r
}

/// A chat request for a model.
pub fn chat_request(model: String, messages: Vec<ChatMessage>, stream: bool) -> (r: ChatRequest)
    ensures
        r.model == model,
        r.messages == messages,
        r.stream == stream,
{
    ChatRequest { model, messages, stream }
}

/// The messages of a completion: the system prompt, if any, then the user's
/// prompt.
pub fn completion_messages(prompt: String, system_prompt: Option<String>) -> (r: Vec<ChatMessage>)
    ensures
        match system_prompt {
            Some(sys) => r@.len() == 2 && r@[0].role@ == "system"@ && r@[0].content == sys
                && r@[1].role@ == "user"@ && r@[1].content == prompt,
            None => r@.len() == 1 && r@[0].role@ == "user"@ && r@[0].content == prompt,
        },
{
    let mut messages: Vec<ChatMessage> = Vec::new();
    match system_prompt {
        Some(sys) => {
            messages.push(ChatMessage { role: String::from_str("system"), content: sys });
        },
        None => {},
    }
    messages.push(ChatMessage { role: String::from_str("user"), content: prompt });
    messages
}

/// The instructions given to the model for a kind of suggestion.
pub open spec fn suggestion_system_prompt(kind: Seq<char>) -> Seq<char> {
    if kind == "grammar"@ {
        "You are a professional editor. Review the following text and suggest grammar and spelling corrections. Be concise and specific."@
    } else if kind == "style"@ {
        "You are a writing coach. Review the following text and suggest style improvements to make it more professional and clear. Be concise and specific."@
    } else if kind == "rfp"@ {
        "You are an RFP response expert. Review the following text and suggest improvements to make it more compelling and compliant. Be concise and specific."@
    } else {
        "You are a helpful writing assistant. Review the following text and suggest improvements."@
    }
}

/// The system prompt and the user prompt that ask for suggestions on a text.
pub fn suggestion_prompts(content: &str, suggestion_type: &str) -> (r: (String, String))
    ensures
        r.0@ == suggestion_system_prompt(suggestion_type@),
        r.1@ == "Please review and suggest improvements for:\n\n"@ + content@,
{
    let system = if eq_str(suggestion_type, "grammar") {
        "You are a professional editor. Review the following text and suggest grammar and spelling corrections. Be concise and specific."
    } else if eq_str(suggestion_type, "style") {
        "You are a writing coach. Review the following text and suggest style improvements to make it more professional and clear. Be concise and specific."
    } else if eq_str(suggestion_type, "rfp") {
        "You are an RFP response expert. Review the following text and suggest improvements to make it more compelling and compliant. Be concise and specific."
    } else {
        "You are a helpful writing assistant. Review the following text and suggest improvements."
    };
    let mut prompt = String::from_str("Please review and suggest improvements for:\n\n");
    prompt.append(content);
    (String::from_str(system), prompt)
}

/// The instructions given to the model for analysing an RFP.
pub const RFP_ANALYSIS_PROMPT: &'static str = r#"You are an RFP analysis expert. Analyze the following RFP content and extract:
1. Key requirements (numbered list)
2. Deadlines and milestones
3. Evaluation criteria
4. Critical compliance items
5. Potential risks or concerns

Format your response clearly with headers for each section."#;

/// The system prompt for analysing an RFP.
pub fn rfp_analysis_prompt() -> (r: String)
    ensures
        r@ == RFP_ANALYSIS_PROMPT@,
{
    String::from_str(RFP_ANALYSIS_PROMPT)
}

/// The response for a reply of the server.
pub fn chat_reply(content: String, done: bool) -> (r: AIChatResponse)
    ensures
        r.content == content,
        r.done == done,
        r.error is None,
{
    AIChatResponse { content, done, error: None }
}

/// The response when the server answers with an error status (given as the
/// text of the status).
pub fn status_error(status: &str) -> (r: AIChatResponse)
    ensures
        r.content@ == Seq::<char>::empty(),
        r.done,
        r.error matches Some(e) && e@ == "Ollama returned error: "@ + status@,
{
    let mut message = String::from_str("Ollama returned error: ");
    message.append(status);
    AIChatResponse { content: String::new(), done: true, error: Some(message) }
}

/// The response when a stream breaks off with an error.
pub fn stream_error(error: &str) -> (r: AIChatResponse)
    ensures
        r.content@ == Seq::<char>::empty(),
        r.done,
        r.error matches Some(e) && e@ == "Stream error: "@ + error@,
{
    let mut message = String::from_str("Stream error: ");
    message.append(error);
    AIChatResponse { content: String::new(), done: true, error: Some(message) }
}

/// The response for one line of a stream: its message's text (empty when it
/// has none) and whether the reply is done.
pub fn stream_piece(content: Option<String>, done: bool) -> (r: AIChatResponse)
    ensures
        r.content@ == match content {
            Some(c) => c@,
            None => Seq::<char>::empty(),
        },
        r.done == done,
        r.error is None,
{
    let content = match content {
        Some(c) => c,
        None => String::new(),
    };
    AIChatResponse { content, done, error: None }
}

/// The name of the event that carries the pieces of a streamed reply.
pub fn stream_event_name(request_id: &str) -> (r: String)
    ensures
        r@ == "ollama-stream-"@ + request_id@,
{
    let mut r = String::from_str("ollama-stream-");
    r.append(request_id);
    r
}

// ---- Splitting a stream into lines ------------------------------------------

/// The complete lines of `s` (each without its `\n`) and what follows the
/// last line ending.
pub open spec fn split_lines(s: Seq<char>) -> (Seq<Seq<char>>, Seq<char>)
    decreases s.len(),
{
    if s.len() == 0 {
        (seq![], seq![])
    } else {
        let (ls, rest) = split_lines(s.drop_last());
        if s.last() == '\n' {
            (ls.push(rest), seq![])
        } else {
            (ls, rest.push(s.last()))
        }
    }
}

/// The lines that hold more than whitespace.
pub open spec fn nonblank(ls: Seq<Seq<char>>) -> Seq<Seq<char>>
    decreases ls.len(),
{
    if ls.len() == 0 {
        seq![]
    } else if trim(ls.last()).len() > 0 {
        nonblank(ls.drop_last()).push(ls.last())
    } else {
        nonblank(ls.drop_last())
    }
}

fn is_blank(v: &Vec<char>) -> (b: bool)
    ensures
        b == (trim(v@).len() == 0),
{
    let t = crate::text::trim_chars(v.as_slice());
    t.len() == 0
}

/// Adds a piece of a stream to the buffer of a partial line and takes out
/// every complete line that holds more than whitespace, in order; what follows
/// the last line ending stays in the buffer.
pub fn take_lines(buffer: &mut String, text: &str) -> (r: Vec<String>)
    ensures
        final(buffer)@ == split_lines(old(buffer)@ + text@).1,
        r.deep_view() == nonblank(split_lines(old(buffer)@ + text@).0),
{
    let mut all = chars_of(buffer.as_str());
    let more = chars_of(text);
    let ghost s = old(buffer)@ + text@;
    let mut k: usize = 0;
    while k < more.len()
        invariant
            k <= more.len(),
            more@ == text@,
            all@ == old(buffer)@ + text@.take(k as int),
        decreases more.len() - k,
    {
        all.push(more[k]);
        k = k + 1;
        assert(text@.take(k as int) == text@.take(k - 1).push(text@[k - 1]));
    }
    assert(text@.take(text@.len() as int) == text@);
    let mut lines: Vec<String> = Vec::new();
    let mut cur: Vec<char> = Vec::new();
    let ghost mut done_lines: Seq<Seq<char>> = seq![];
    let mut i: usize = 0;
    while i < all.len()
        invariant
            i <= all.len(),
            all@ == s,
            (done_lines, cur@) == split_lines(s.take(i as int)),
            lines.deep_view() == nonblank(done_lines),
        decreases all.len() - i,
    {
        proof {
            assert(s.take(i + 1).drop_last() == s.take(i as int));
        }
        let c = all[i];
        if c == '\n' {
            let ghost old_cur = cur@;
            if !is_blank(&cur) {
                let line = string_of(cur.as_slice());
                let ghost before = lines.deep_view();
                lines.push(line);
                assert(lines.deep_view() =~= before.push(old_cur));
            }
            proof {
                assert(done_lines.push(old_cur).drop_last() == done_lines);
                assert(done_lines.push(old_cur).last() == old_cur);
                done_lines = done_lines.push(old_cur);
            }
            cur = Vec::new();
        } else {
            cur.push(c);
        }
        i = i + 1;
    }
    assert(s.take(all.len() as int) == s);
    *buffer = string_of(cur.as_slice());
    lines
}

} // verus!

verus! {

proof fn lemma_rest_has_no_newline(s: Seq<char>)
    ensures
        forall|i: int| 0 <= i < split_lines(s).1.len() ==> split_lines(s).1[i] != '\n',
    decreases s.len(),
{
    if s.len() > 0 {
        lemma_rest_has_no_newline(s.drop_last());
        let rest = split_lines(s.drop_last()).1;
        if s.last() != '\n' {
            assert forall|i: int| 0 <= i < rest.push(s.last()).len() implies rest.push(s.last())[i]
                != '\n' by {
                if i < rest.len() {
                    assert(rest.push(s.last())[i] == rest[i]);
                }
            }
        }
    }
}

proof fn lemma_no_newline_split(s: Seq<char>)
    requires
        forall|i: int| 0 <= i < s.len() ==> s[i] != '\n',
    ensures
        split_lines(s) == (Seq::<Seq<char>>::empty(), s),
    decreases s.len(),
{
    if s.len() > 0 {
        lemma_no_newline_split(s.drop_last());
        assert(s.drop_last().push(s.last()) == s);
    }
}

proof fn lemma_split_concat(a: Seq<char>, b: Seq<char>)
    ensures
        split_lines(a + b) == (split_lines(a).0 + split_lines(split_lines(a).1 + b).0, split_lines(
            split_lines(a).1 + b,
        ).1),
    decreases b.len(),
{
    let (la, ra) = split_lines(a);
    if b.len() == 0 {
        assert(a + b == a);
        assert(ra + b == ra);
        lemma_rest_has_no_newline(a);
        lemma_no_newline_split(ra);
        assert(la + Seq::<Seq<char>>::empty() == la);
    } else {
        let b1 = b.drop_last();
        lemma_split_concat(a, b1);
        assert((a + b).drop_last() == a + b1);
        assert((a + b).last() == b.last());
        assert((ra + b).drop_last() == ra + b1);
        assert((ra + b).last() == b.last());
        let (lm, rm) = split_lines(ra + b1);
        if b.last() == '\n' {
            assert((la + lm).push(rm) == la + lm.push(rm));
        }
    }
}

proof fn lemma_nonblank_concat(x: Seq<Seq<char>>, y: Seq<Seq<char>>)
    ensures
        nonblank(x + y) == nonblank(x) + nonblank(y),
    decreases y.len(),
{
    if y.len() == 0 {
        assert(x + y == x);
        assert(nonblank(x) + nonblank(y) == nonblank(x));
    } else {
        lemma_nonblank_concat(x, y.drop_last());
        assert((x + y).drop_last() == x + y.drop_last());
        assert((x + y).last() == y.last());
        if trim(y.last()).len() > 0 {
            assert((nonblank(x) + nonblank(y.drop_last())).push(y.last()) == nonblank(x) + nonblank(
                y.drop_last(),
            ).push(y.last()));
        }
    }
}

/// Law: a stream gives the same lines, and leaves the same partial line,
/// whether two pieces of it arrive one after the other or together.
pub proof fn lemma_stream_chunking(buffer: Seq<char>, t1: Seq<char>, t2: Seq<char>)
    ensures
        nonblank(split_lines(buffer + t1).0) + nonblank(split_lines(split_lines(buffer + t1).1 + t2).0)
            == nonblank(split_lines(buffer + t1 + t2).0),
        split_lines(split_lines(buffer + t1).1 + t2).1 == split_lines(buffer + t1 + t2).1,
{
    lemma_split_concat(buffer + t1, t2);
    lemma_nonblank_concat(
        split_lines(buffer + t1).0,
        split_lines(split_lines(buffer + t1).1 + t2).0,
    );
}

} // verus!
