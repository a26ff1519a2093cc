//! Chat messages exchanged with the model, and how a model client is set up
//! and addressed.
use vstd::prelude::*;

use crate::config::{provider_ok, ConfigError, ModelConfig};
use crate::text::{append_chars, eq_str, from_chars, opt_view, str_to_string, to_chars};

verus! {

/// One message of a chat: who said it (`user`, `assistant` or `system`) and what.
pub struct ChatMessage {
    pub role: String,
    pub content: String,
}

impl ChatMessage {
    /// The message as plain text values: role, then content.
    pub open spec fn view_pair(&self) -> (Seq<char>, Seq<char>) {
        (self.role@, self.content@)
    }
}

/// The messages of a chat as plain text values.
pub open spec fn message_views(m: Seq<ChatMessage>) -> Seq<(Seq<char>, Seq<char>)> {
    m.map_values(|x: ChatMessage| x.view_pair())
}

broadcast use vstd::string::group_string_axioms;

/// The API a model is reached through.
#[derive(Debug, Clone, Copy, PartialEq, Eq, Structural)]
pub enum Provider {
    Ollama,
    OpenAi,
    OpenAiCompatible,
}

/// The API for a configured provider name (anything else reads as Ollama).
pub open spec fn provider_of(p: Seq<char>) -> Provider {
    if p == "openai"@ {
        Provider::OpenAi
    } else if p == "openai_compatible"@ {
        Provider::OpenAiCompatible
    } else {
        Provider::Ollama
    }
}

/// A text without its trailing `/` characters.
pub open spec fn without_trailing_slashes(s: Seq<char>) -> Seq<char>
    decreases s.len(),
{
    if s.len() > 0 && s.last() == '/' {
        without_trailing_slashes(s.drop_last())
    } else {
        s
    }
}

/// How long a request may take when the config says nothing, in seconds.
pub const DEFAULT_TIMEOUT_SECS: u64 = 120;

/// What a model client is made with: the API, where it is, the model, the
/// key and the request timeout.
pub struct ClientSettings {
    pub provider: Provider,
    pub base_url: String,
    pub model: String,
    pub api_key: Option<String>,
    pub timeout_secs: u64,
}

impl ClientSettings {
    /// The settings for a model config, once the config is valid: the base
    /// URL loses its trailing slashes, the timeout defaults to
    /// `DEFAULT_TIMEOUT_SECS`.
    pub fn new(config: &ModelConfig) -> (r: Result<Self, ConfigError>)
        ensures
            r is Ok <==> provider_ok(config.provider@, config.api_key is Some),
            r matches Err(ConfigError::MissingApiKey) <==> (config.provider@ == "openai"@ && config.api_key is None),
            r matches Err(ConfigError::UnknownProvider(p)) ==> p@ == config.provider@,
            r matches Ok(s) ==> s.provider == provider_of(config.provider@) && s.base_url@
                == without_trailing_slashes(config.base_url@) && s.model@ == config.model@ && opt_view(
                s.api_key,
            ) == opt_view(config.api_key) && s.timeout_secs == match config.timeout_seconds {
                Some(t) => t,
                None => DEFAULT_TIMEOUT_SECS,
            },
    {
        match config.validate() {
            Err(e) => return Err(e),
            Ok(()) => {},
        }
        let p = to_chars(config.provider.as_str());
        let provider = if eq_str(&p, "openai") {
            Provider::OpenAi
        } else if eq_str(&p, "openai_compatible") {
            Provider::OpenAiCompatible
        } else {
            Provider::Ollama
        };
        let mut url = to_chars(config.base_url.as_str());
        while url.len() > 0 && url[url.len() - 1] == '/'
            invariant
                without_trailing_slashes(url@) == without_trailing_slashes(config.base_url@),
            decreases url.len(),
        {
            url.pop();
        }
        let timeout_secs = match config.timeout_seconds {
            Some(t) => t,
            None => DEFAULT_TIMEOUT_SECS,
        };
        let api_key = match &config.api_key {
            Some(k) => Some(str_to_string(k.as_str())),
            None => None,
        };
        Ok(
            ClientSettings {
                provider,
                base_url: from_chars(&url),
                model: str_to_string(config.model.as_str()),
                api_key,
                timeout_secs,
            },
        )
    }

    /// Whether requests go to an OpenAI-style chat completions API.
    pub fn uses_openai_api(&self) -> (r: bool)
        ensures
            r == (self.provider != Provider::Ollama),
    {
        match self.provider {
            Provider::Ollama => false,
            _ => true,
        }
    }

    /// The URL of Ollama's chat API.
    pub fn ollama_chat_url(&self) -> (r: String)
        ensures
            r@ == self.base_url@ + "/api/chat"@,
    {
        let mut v = to_chars(self.base_url.as_str());
        append_chars(&mut v, &to_chars("/api/chat"));
        from_chars(&v)
    }

    /// The URL of Ollama's generate API.
    pub fn ollama_generate_url(&self) -> (r: String)
        ensures
            r@ == self.base_url@ + "/api/generate"@,
    {
        let mut v = to_chars(self.base_url.as_str());
        append_chars(&mut v, &to_chars("/api/generate"));
        from_chars(&v)
    }

    /// The URL of an OpenAI-style chat completions API.
    pub fn openai_url(&self) -> (r: String)
        ensures
            r@ == self.base_url@ + "/v1/chat/completions"@,
    {
        let mut v = to_chars(self.base_url.as_str());
        append_chars(&mut v, &to_chars("/v1/chat/completions"));
        from_chars(&v)
    }

    /// The `Authorization` header value, where there is a key.
    pub fn authorization(&self) -> (r: Option<String>)
        ensures
            match self.api_key {
                Some(k) => r matches Some(h) && h@ == "Bearer "@ + k@,
                None => r is None,
            },
    {
        match &self.api_key {
            Some(k) => {
                let mut v = to_chars("Bearer ");
                append_chars(&mut v, &to_chars(k.as_str()));
                Some(from_chars(&v))
            },
            None => None,
        }
    }

    /// The error for a request that could not reach the server.
    pub fn connect_error(&self, cause: &str) -> (r: String)
        ensures
            r@ == "Failed to connect to "@ + self.base_url@ + ": "@ + cause@,
    {
        let mut v = to_chars("Failed to connect to ");
        append_chars(&mut v, &to_chars(self.base_url.as_str()));
        append_chars(&mut v, &to_chars(": "));
        append_chars(&mut v, &to_chars(cause));
        from_chars(&v)
    }
}

/// The single prompt sent to Ollama's generate API, which takes no roles.
pub fn generate_prompt(system: &str, prompt: &str) -> (r: String)
    ensures
        r@ == "System: "@ + system@ + "\n\nUser: "@ + prompt@,
{
    let mut v = to_chars("System: ");
    append_chars(&mut v, &to_chars(system));
    append_chars(&mut v, &to_chars("\n\nUser: "));
    append_chars(&mut v, &to_chars(prompt));
    from_chars(&v)
}

/// The messages of a request: the system prompt, then the user's prompt.
pub fn request_messages(system: &str, prompt: &str) -> (r: Vec<ChatMessage>)
    ensures
        message_views(r@) == seq![("system"@, system@), ("user"@, prompt@)],
{
    let r = vec![
        ChatMessage { role: str_to_string("system"), content: str_to_string(system) },
        ChatMessage { role: str_to_string("user"), content: str_to_string(prompt) },
    ];
    assert(message_views(r@) =~= seq![("system"@, system@), ("user"@, prompt@)]);
    r
}


// ── Retrying a request ──

/// How many times a failed request is sent again.
pub const MAX_RETRIES: u32 = 3;

/// How a request to the model went.
#[derive(Debug, Clone, Copy, PartialEq, Eq, Structural)]
pub enum RequestOutcome {
    /// A success status.
    Success,
    /// Any other HTTP status.
    Status(u16),
    /// The server could not be reached.
    ConnectionError,
}

/// What to do after a request.
#[derive(Debug, Clone, Copy, PartialEq, Eq, Structural)]
pub enum RetryStep {
    /// Take the reply.
    Done,
    /// Wait this many seconds, then send the request again.
    Retry(u64),
    /// Stop: the failure stands.
    GiveUp,
}

/// The failures that are worth another try: rate limiting (429), server
/// errors (5xx) and connection errors.
pub open spec fn retryable(o: RequestOutcome) -> bool {
    match o {
        RequestOutcome::Success => false,
        RequestOutcome::Status(s) => s == 429 || (500 <= s && s <= 599),
        RequestOutcome::ConnectionError => true,
    }
}

/// The wait before retry number `n + 1`: 2, 4, 8, ... seconds.
pub open spec fn backoff_secs(n: nat) -> nat
    decreases n,
{
    if n == 0 {
        2
    } else {
        2 * backoff_secs((n - 1) as nat)
    }
}

/// The decision after a request, when `retries` retries were made already:
/// a success is taken; a retryable failure is retried after an exponential
/// backoff (2, 4, 8 seconds) while fewer than `MAX_RETRIES` retries were
/// made; anything else is given up.
pub fn retry_step(retries: u32, outcome: RequestOutcome) -> (r: RetryStep)
    ensures
        outcome == RequestOutcome::Success ==> r == RetryStep::Done,
        outcome != RequestOutcome::Success ==> (if retryable(outcome) && retries < MAX_RETRIES {
            r == RetryStep::Retry(backoff_secs(retries as nat) as u64)
        } else {
            r == RetryStep::GiveUp
        }),
{
    let worth = match outcome {
        RequestOutcome::Success => {
            return RetryStep::Done;
        },
        RequestOutcome::Status(s) => s == 429 || (500 <= s && s <= 599),
        RequestOutcome::ConnectionError => true,
    };
    if !worth || retries >= MAX_RETRIES {
        return RetryStep::GiveUp;
    }
    let mut delay: u64 = 2;
    let mut k: u32 = 0;
    while k < retries
        invariant
            k <= retries,
            retries < MAX_RETRIES,
            delay == backoff_secs(k as nat),
            k == 0 ==> delay == 2,
            k == 1 ==> delay == 4,
            k == 2 ==> delay == 8,
        decreases retries - k,
    {
        delay = delay * 2;
        k = k + 1;
        assert(backoff_secs(k as nat) == 2 * backoff_secs((k - 1) as nat));
    }
    RetryStep::Retry(delay)
}

} // verus!
