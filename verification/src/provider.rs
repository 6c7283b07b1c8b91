//! Reply providers: the offline mock one, and the request and reply handling of
//! an OpenAI-compatible chat service (the HTTP exchange itself is the caller's),
//! with the worker channel between the interface and the provider.
use vstd::prelude::*;
use std::sync::mpsc::{Receiver, Sender};
use crate::config::AgentConfig;
use crate::conversation::ChatMessage;
use crate::json::{decimal, json_string, push_decimal, push_json_string};
use crate::text::{chars_of, has_char, push_str, str_eq, string_from_range, trim, trim_bounds};

verus! {

/// Replies without any service, for trying the whole path offline.
#[derive(Debug)]
pub struct MockProvider;

/// The mock reply to a user text.
pub open spec fn spec_mock_reply(u: Seq<char>) -> Seq<char> {
    let t = trim(u);
    if t.len() == 0 {
        "……"@
    } else if has_char(t, '?') || has_char(t, '？') {
        "嗯？"@ + t
    } else if t == "你好"@ || t == "hi"@ || t == "hello"@ {
        "你好。"@
    } else {
        "（mock）我听到了："@ + t
    }
}

fn has_char_exec(v: &[char], c: char) -> (r: bool)
    ensures
        r == has_char(v@, c),
{
    let mut i: usize = 0;
    while i < v.len()
        invariant
            i <= v@.len(),
            forall|k: int| 0 <= k < i ==> v@[k] != c,
        decreases v@.len() - i,
    {
        if v[i] == c {
            return true;
        }
        i = i + 1;
    }
    false
}

/// A source of replies to a conversation.
pub trait Provider {
    /// The provider's name, for display.
    fn name(&self) -> &str;

    /// A reply to `user_text` after `messages`, or why there is none.
    fn generate(&self, messages: &[ChatMessage], user_text: &str) -> Result<String, String>;
}

impl Provider for MockProvider {
    fn name(&self) -> (r: &str)
        ensures
            r@ == "mock"@,
    {
        "mock"
    }

    /// Always succeeds with `spec_mock_reply` of the user text.
    fn generate(&self, _messages: &[ChatMessage], user_text: &str) -> (r: Result<String, String>)
        ensures
            r is Ok,
            r->Ok_0@ == spec_mock_reply(user_text@),
    {
        let v = chars_of(user_text);
        let (a, b) = trim_bounds(v.as_slice());
        let t = string_from_range(v.as_slice(), a, b);
        let tv = chars_of(t.as_str());
        let reply = if tv.len() == 0 {
            String::from_str("……")
        } else if has_char_exec(tv.as_slice(), '?') || has_char_exec(tv.as_slice(), '？') {
            let mut s = String::from_str("嗯？");
            push_str(&mut s, t.as_str());
            s
        } else if str_eq(t.as_str(), "你好") || str_eq(t.as_str(), "hi") || str_eq(t.as_str(), "hello") {
            String::from_str("你好。")
        } else {
            let mut s = String::from_str("（mock）我听到了：");
            push_str(&mut s, t.as_str());
            s
        };
        Ok(reply)
    }
}

/// Settings for an OpenAI-compatible chat service.
#[derive(Debug)]
pub struct OpenAiCompatibleProvider {
    pub base_url: String,
    pub model: String,
    pub api_key: Option<String>,
    pub timeout_secs: u64,
}

/// Number of slashes at the back of `s` (`trim_end_matches('/')`).
pub open spec fn trail_slashes(s: Seq<char>) -> nat
    decreases s.len(),
{
    if s.len() > 0 && s.last() == '/' {
        1 + trail_slashes(s.drop_last())
    } else {
        0
    }
}

/// `s` without its trailing slashes.
pub open spec fn strip_slashes(s: Seq<char>) -> Seq<char> {
    s.take(s.len() - trail_slashes(s))
}

/// An HTTP request to make: where, what, with which credentials and timeout.
#[derive(Debug)]
pub struct ChatRequest {
    pub url: String,
    pub body: String,
    pub authorization: Option<String>,
    pub timeout_secs: u64,
}

/// JSON of one message: `{"content":…,"role":…}`.
pub open spec fn message_json(m: ChatMessage) -> Seq<char> {
    "{\"content\":"@ + json_string(m.content@) + ",\"role\":"@ + json_string(m.role@) + "}"@
}

/// JSON objects of the messages, separated by commas.
pub open spec fn messages_json(ms: Seq<ChatMessage>) -> Seq<char>
    decreases ms.len(),
{
    if ms.len() == 0 {
        Seq::empty()
    } else if ms.len() == 1 {
        message_json(ms[0])
    } else {
        messages_json(ms.drop_last()) + ","@ + message_json(ms.last())
    }
}

/// The request body: messages, model, no streaming (keys in lexicographic order).
pub open spec fn spec_body(ms: Seq<ChatMessage>, model: Seq<char>) -> Seq<char> {
    "{\"messages\":["@ + messages_json(ms) + "],\"model\":"@ + json_string(model)
        + ",\"stream\":false}"@
}

/// What `serde_json::from_str::<serde_json::Value>` makes of `body`, read at
/// `value[list][index][object][field]`: the error's text when the body is not
/// JSON, otherwise the string found there, or `None` when there is none.
pub uninterp spec fn json_text_at(
    body: Seq<char>,
    list: Seq<char>,
    index: usize,
    object: Seq<char>,
    field: Seq<char>,
) -> Result<Option<Seq<char>>, Seq<char>>;

/// A parse result by its views.
pub open spec fn parsed_view(p: Result<Option<String>, String>) -> Result<
    Option<Seq<char>>,
    Seq<char>,
> {
    match p {
        Ok(Some(s)) => Ok(Some(s@)),
        Ok(None) => Ok(None),
        Err(e) => Err(e@),
    }
}

/// A result by its views.
pub open spec fn result_view(r: Result<String, String>) -> Result<Seq<char>, Seq<char>> {
    match r {
        Ok(s) => Ok(s@),
        Err(e) => Err(e@),
    }
}

/// The reply for a message content: the content trimmed, or an error when
/// there is none or it is blank.
pub open spec fn spec_reply(content: Option<Seq<char>>) -> Result<Seq<char>, Seq<char>> {
    match content {
        Some(c) => if trim(c).len() > 0 {
            Ok(trim(c))
        } else {
            Err("empty response"@)
        },
        None => Err("empty response"@),
    }
}

/// The reply for a parsed body: a body that is not JSON is a malformed
/// response that reports the JSON error (as the HTTP client's JSON reader
/// words it), otherwise the reply for the content found.
pub open spec fn spec_reply_of(p: Result<Option<Seq<char>>, Seq<char>>) -> Result<
    Seq<char>,
    Seq<char>,
> {
    match p {
        Err(e) => Err("malformed response: Failed to read JSON: "@ + e),
        Ok(c) => spec_reply(c),
    }
}

/// `serde_json::from_str::<serde_json::Value>` on a body, then indexing the
/// value by `list`, `index`, `object` and `field` and reading a string there;
/// a parse error is returned as its text.
///
/// The contract names the outcome only: it depends on the arguments alone;
/// the JSON grammar and the error texts are not stated.
#[verifier::external_body]
fn json_text_at_exec(
    body: &str,
    list: &str,
    index: usize,
    object: &str,
    field: &str,
) -> (r: Result<Option<String>, String>)
    ensures
        parsed_view(r) == json_text_at(body@, list@, index, object@, field@),
{
    match serde_json::from_str::<serde_json::Value>(body) {
        Ok(v) => Ok(v[list][index][object][field].as_str().map(String::from)),
        Err(e) => Err(e.to_string()),
    }
}

impl OpenAiCompatibleProvider {
    /// The provider's name.
    pub fn name(&self) -> (r: &'static str)
        ensures
            r@ == "openai_compatible"@,
    {
        "openai_compatible"
    }

    /// Takes the service settings from the configuration, the base URL
    /// without trailing slashes.
    pub fn new(cfg: &AgentConfig) -> (r: OpenAiCompatibleProvider)
        ensures
            r.base_url@ == strip_slashes(cfg.base_url@),
            r.model@ == cfg.model@,
            r.api_key == cfg.api_key,
            r.timeout_secs == cfg.timeout_secs,
    {
        let v = chars_of(cfg.base_url.as_str());
        let mut n = v.len();
        assert(v@.take(v@.len() as int) == v@);
        while n > 0 && v[n - 1] == '/'
            invariant
                n <= v@.len(),
                v@ == cfg.base_url@,
                trail_slashes(v@) == (v@.len() - n) + trail_slashes(v@.take(n as int)),
            decreases n,
        {
            proof {
                let p = v@.take(n as int);
                assert(p.drop_last() == v@.take(n - 1));
                assert(p.last() == v@[n - 1]);
            }
            n = n - 1;
        }
        proof {
            let p = v@.take(n as int);
            if n > 0 {
                assert(p.last() == v@[n - 1]);
            }
            assert(trail_slashes(p) == 0);
        }
        let api_key = match &cfg.api_key {
            Some(k) => Some(k.clone()),
            None => None,
        };
        OpenAiCompatibleProvider {
            base_url: string_from_range(v.as_slice(), 0, n),
            model: cfg.model.clone(),
            api_key,
            timeout_secs: cfg.timeout_secs,
        }
    }

    /// The chat-completions request for `messages`; an error when the base
    /// URL or the model is not configured.
    pub fn request(&self, messages: &[ChatMessage]) -> (r: Result<ChatRequest, String>)
        ensures
            self.base_url@.len() == 0 ==> r is Err && r->Err_0@ == "base_url not configured"@,
            self.base_url@.len() > 0 && self.model@.len() == 0 ==> r is Err && r->Err_0@
                == "model not configured"@,
            self.base_url@.len() > 0 && self.model@.len() > 0 ==> r is Ok,
            r matches Ok(req) ==> {
                &&& req.url@ == self.base_url@ + "/chat/completions"@
                &&& req.body@ == spec_body(messages@, self.model@)
                &&& req.timeout_secs == self.timeout_secs
                &&& req.authorization is Some <==> (self.api_key is Some
                    && self.api_key->0@.len() > 0)
                &&& req.authorization is Some ==> req.authorization->0@ == "Bearer "@
                    + self.api_key->0@
            },
    {
        if self.base_url.as_str().is_empty() {
            return Err(String::from_str("base_url not configured"));
        }
        if self.model.as_str().is_empty() {
            return Err(String::from_str("model not configured"));
        }
        let mut url = self.base_url.clone();
        push_str(&mut url, "/chat/completions");
        let mut body = String::from_str("{\"messages\":[");
        let ghost head = body@;
        let mut i: usize = 0;
        while i < messages.len()
            invariant
                i <= messages@.len(),
                body@ == head + messages_json(messages@.take(i as int)),
            decreases messages@.len() - i,
        {
            let ghost b0 = body@;
            if i > 0 {
                push_str(&mut body, ",");
            }
            push_str(&mut body, "{\"content\":");
            push_json_string(&mut body, messages[i].content.as_str());
            push_str(&mut body, ",\"role\":");
            push_json_string(&mut body, messages[i].role);
            push_str(&mut body, "}");
            proof {
                let t = messages@.take(i + 1);
                assert(t.drop_last() == messages@.take(i as int));
                assert(t.last() == messages@[i as int]);
                if i == 0 {
                    assert(t.len() == 1);
                    assert(t[0] == messages@[0]);
                    assert(body@ =~= b0 + message_json(messages@[i as int]));
                    assert(messages_json(messages@.take(0)) == Seq::<char>::empty());
                } else {
                    assert(body@ =~= b0 + ","@ + message_json(messages@[i as int]));
                }
            }
            i = i + 1;
        }
        assert(messages@.take(messages@.len() as int) == messages@);
        push_str(&mut body, "],\"model\":");
        push_json_string(&mut body, self.model.as_str());
        push_str(&mut body, ",\"stream\":false}");
        let authorization = match &self.api_key {
            Some(key) => {
                if !key.as_str().is_empty() {
                    let mut a = String::from_str("Bearer ");
                    push_str(&mut a, key.as_str());
                    Some(a)
                } else {
                    None
                }
            },
            None => None,
        };
        Ok(ChatRequest { url, body, authorization, timeout_secs: self.timeout_secs })
    }

    /// The reply from the service's message content: trimmed, or an error
    /// when there is none or it is blank.
    pub fn reply(content: Option<&str>) -> (r: Result<String, String>)
        ensures
            content is None ==> r is Err && r->Err_0@ == "empty response"@,
            content is Some && trim(content->0@).len() == 0 ==> r is Err && r->Err_0@
                == "empty response"@,
            content is Some && trim(content->0@).len() > 0 ==> r is Ok && r->Ok_0@ == trim(
                content->0@,
            ),
    {
        match content {
            None => Err(String::from_str("empty response")),
            Some(c) => {
                let t = crate::text::trimmed(c);
                if t.as_str().is_empty() {
                    Err(String::from_str("empty response"))
                } else {
                    Ok(t)
                }
            },
        }
    }

    /// What to make of a reply body as [`json_text_at`] read it: a body that
    /// is not JSON is a malformed response; otherwise the content is taken as
    /// [`OpenAiCompatibleProvider::reply`] takes it.
    pub fn reply_of_parsed(parsed: Result<Option<String>, String>) -> (r: Result<String, String>)
        ensures
            result_view(r) == spec_reply_of(parsed_view(parsed)),
    {
        match parsed {
            Err(e) => {
                let mut s = String::from_str("malformed response: Failed to read JSON: ");
                push_str(&mut s, e.as_str());
                Err(s)
            },
            Ok(None) => OpenAiCompatibleProvider::reply(None),
            Ok(Some(c)) => OpenAiCompatibleProvider::reply(Some(c.as_str())),
        }
    }

    /// The reply in a chat-completions response body: the text at
    /// `choices[0].message.content`, taken as
    /// [`OpenAiCompatibleProvider::reply_of_parsed`] says.
    pub fn read_reply(body: &str) -> (r: Result<String, String>)
        ensures
            result_view(r) == spec_reply_of(
                json_text_at(body@, "choices"@, 0, "message"@, "content"@),
            ),
    {
        let parsed = json_text_at_exec(body, "choices", 0, "message", "content");
        OpenAiCompatibleProvider::reply_of_parsed(parsed)
    }

    /// The error for an HTTP status that is not a success.
    pub fn status_error(code: u16) -> (r: String)
        ensures
            r@ == "http status "@ + decimal(code as nat),
    {
        let mut s = String::from_str("http status ");
        push_decimal(&mut s, code as u64);
        s
    }
}

/// A request for the worker: its generation, the prompt and the user text.
#[derive(Debug)]
pub struct AiRequest {
    pub generation: u64,
    pub messages: Vec<ChatMessage>,
    pub user_text: String,
}

/// The worker's answer to a request of some generation, and how long it took.
#[derive(Debug)]
pub struct AiResult {
    pub generation: u64,
    pub outcome: Result<String, String>,
    pub elapsed_ms: u128,
}

/// `std::sync::mpsc::Sender`, carried opaquely.
#[verifier::external_type_specification]
#[verifier::external_body]
#[verifier::reject_recursive_types(T)]
pub struct ExSender<T>(Sender<T>);

/// `std::sync::mpsc::Receiver`, carried opaquely.
#[verifier::external_type_specification]
#[verifier::external_body]
#[verifier::reject_recursive_types(T)]
pub struct ExReceiver<T>(Receiver<T>);

/// `Sender::send`, reporting whether the value was sent.
///
/// No contract: sending fails only when the receiving thread has gone, which
/// this side cannot know.
#[verifier::external_body]
fn channel_send<T>(tx: &Sender<T>, value: T) -> bool {
    tx.send(value).is_ok()
}

/// `Receiver::try_recv`, as an option.
///
/// No contract: what is waiting depends on the worker thread.
#[verifier::external_body]
fn channel_try_recv<T>(rx: &Receiver<T>) -> Option<T> {
    rx.try_recv().ok()
}

/// The interface's end of the worker channels: requests out, results in.
pub struct AiWorker {
    tx: Sender<AiRequest>,
    rx: Receiver<AiResult>,
}

impl AiWorker {
    /// The channel end that requests go out on.
    pub closed spec fn sender(&self) -> Sender<AiRequest> {
        self.tx
    }

    /// The channel end that results come in on.
    pub closed spec fn receiver(&self) -> Receiver<AiResult> {
        self.rx
    }

    /// The worker handle over a request sender and a result receiver.
    pub fn from_channels(tx: Sender<AiRequest>, rx: Receiver<AiResult>) -> (r: AiWorker)
        ensures
            r.sender() == tx,
            r.receiver() == rx,
    {
        AiWorker { tx, rx }
    }

    /// Hands a request to the worker; `false` when the worker has stopped.
    pub fn submit(&self, req: AiRequest) -> bool {
        channel_send(&self.tx, req)
    }

    /// A result, if one has arrived.
    pub fn try_recv(&self) -> Option<AiResult> {
        channel_try_recv(&self.rx)
    }

    /// The provider's name for display: the override, or the configured one.
    pub fn provider_name(cfg: &AgentConfig, override_name: Option<&str>) -> (r: String)
        ensures
            override_name is Some ==> r@ == override_name->0@,
            override_name is None ==> r@ == cfg.provider@,
    {
        match override_name {
            Some(n) => String::from_str(n),
            None => cfg.provider.clone(),
        }
    }
}

/// The provider that a configured name selects; unknown names fall back to the mock one.
#[derive(Debug, Clone, Copy, PartialEq, Eq, Structural)]
pub enum ProviderKind {
    Mock,
    OpenAiCompatible,
}

/// The provider a configured name selects; unknown names fall back to the mock one.
pub open spec fn spec_provider_kind(name: Seq<char>) -> ProviderKind {
    if name == "openai_compatible"@ {
        ProviderKind::OpenAiCompatible
    } else {
        ProviderKind::Mock
    }
}

/// Which provider a name selects ("mock", "openai_compatible"; others fall back to mock).
pub fn provider_kind(name: &str) -> (r: ProviderKind)
    ensures
        r == spec_provider_kind(name@),
{
    if str_eq(name, "openai_compatible") {
        ProviderKind::OpenAiCompatible
    } else {
        ProviderKind::Mock
    }
}

} // verus!
