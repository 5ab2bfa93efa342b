//! LLM providers: their configuration, the prompts sent to them, and what is
//! made of their replies. The network calls themselves are made by the caller.
use vstd::prelude::*;

use crate::text::{
    all_ascii, ascii_lower, chars_of, concat2, concat3, join, lowercase, parse_unsigned, parse_unsigned_spec, str_eq, string_of,
    to_lowercase,
};

verus! {

/// Error type for LLM operations.
#[derive(Debug)]
pub enum LlmError {
    /// Error during generation
    GenerationError(String),
    /// Connection/network error
    ConnectionError(String),
    /// JSON parsing error
    ParseError(String),
    /// Configuration error
    ConfigError(String),
}

impl LlmError {
    /// The text this error displays.
    pub open spec fn display(&self) -> Seq<char> {
        match self {
            LlmError::GenerationError(m) => "Generation error: "@ + m@,
            LlmError::ConnectionError(m) => "Connection error: "@ + m@,
            LlmError::ParseError(m) => "Parse error: "@ + m@,
            LlmError::ConfigError(m) => "Configuration error: "@ + m@,
        }
    }

    /// The text this error displays: its kind, a colon, then its message.
    pub fn to_string(&self) -> (r: String)
        ensures
            r@ == self.display(),
    {
        match self {
            LlmError::GenerationError(m) => concat2("Generation error: ", m.as_str()),
            LlmError::ConnectionError(m) => concat2("Connection error: ", m.as_str()),
            LlmError::ParseError(m) => concat2("Parse error: ", m.as_str()),
            LlmError::ConfigError(m) => concat2("Configuration error: ", m.as_str()),
        }
    }
}

/// Response from an LLM generation request.
#[derive(Debug, Clone)]
pub struct LlmResponse {
    /// The generated text response
    pub content: String,
    /// Model used for generation
    pub model: String,
    /// Time taken for generation in milliseconds (if available)
    pub duration_ms: Option<u64>,
}

/// The interface every LLM provider offers besides generation itself.
pub trait LlmProvider {
    /// The model used when a request names none.
    fn default_model(&self) -> &str;

    /// The provider's name, for logging.
    fn provider_name(&self) -> &'static str;
}

/// The model a request uses: the one it names, else the provider's default.
pub fn resolve_model(requested: Option<&str>, default_model: &str) -> (r: String)
    ensures
        r@ == match requested {
            Some(m) => m@,
            None => default_model@,
        },
{
    match requested {
        Some(m) => m.to_owned(),
        None => default_model.to_owned(),
    }
}

/// A local or self-hosted Ollama server.
#[derive(Clone, Debug)]
pub struct OllamaProvider {
    pub host: String,
    pub port: u16,
    pub default_model: String,
}

impl OllamaProvider {
    /// A provider for the Ollama server at `host`:`port`.
    pub fn new(host: String, port: u16, default_model: String) -> (r: Self)
        ensures
            r.host == host,
            r.port == port,
            r.default_model == default_model,
    {
        OllamaProvider { host, port, default_model }
    }

    /// A provider from the values of `OLLAMA_HOST`, `OLLAMA_PORT` and `OLLAMA_MODEL`,
    /// each `None` when the variable is not set.
    pub fn from_env(host: Option<String>, port: Option<String>, model: Option<String>) -> (r:
        Result<Self, LlmError>)
        ensures
            ({
                let port_text = match port {
                    Some(p) => p@,
                    None => "8000"@,
                };
                match parse_unsigned_spec(port_text, 65535) {
                    Err(e) => r matches Err(LlmError::ConfigError(m)) && m@ == "Invalid OLLAMA_PORT: "@
                        + e.message_spec(),
                    Ok(n) => r matches Ok(p) && p.port == n && p.host@ == match host {
                        Some(h) => h@,
                        None => "http://ollama-service.security-converter.svc.cluster.local"@,
                    } && p.default_model@ == match model {
                        Some(m) => m@,
                        None => "llama3:8b"@,
                    },
                }
            }),
    {
        let host = match host {
            Some(h) => h,
            None => "http://ollama-service.security-converter.svc.cluster.local".to_owned(),
        };
        let port_text = match port {
            Some(p) => p,
            None => "8000".to_owned(),
        };
        let port = match parse_unsigned(port_text.as_str(), 65535) {
            Ok(n) => n as u16,
            Err(e) => {
                let msg = e.message();
                return Err(LlmError::ConfigError(concat2("Invalid OLLAMA_PORT: ", msg.as_str())));
            },
        };
        let default_model = match model {
            Some(m) => m,
            None => "llama3:8b".to_owned(),
        };
        Ok(OllamaProvider::new(host, port, default_model))
    }
}

impl LlmProvider for OllamaProvider {
    fn default_model(&self) -> (r: &str)
        ensures
            r@ == self.default_model@,
    {
        self.default_model.as_str()
    }

    fn provider_name(&self) -> (r: &'static str)
        ensures
            r@ == "Ollama"@,
    {
        "Ollama"
    }
}

/// Google Gemini, reached over its REST API with an API key.
#[derive(Clone, Debug)]
pub struct GeminiProvider {
    pub api_key: String,
    pub default_model: String,
    pub base_url: String,
}

impl GeminiProvider {
    /// A provider that authenticates with `api_key`.
    pub fn new(api_key: String, default_model: String) -> (r: Self)
        ensures
            r.api_key == api_key,
            r.default_model == default_model,
            r.base_url@ == "https://generativelanguage.googleapis.com/v1beta/models"@,
    {
        GeminiProvider {
            api_key,
            default_model,
            base_url: "https://generativelanguage.googleapis.com/v1beta/models".to_owned(),
        }
    }

    /// A provider from the values of `GEMINI_API_KEY` and `GEMINI_MODEL`, each
    /// `None` when the variable is not set.
    pub fn from_env(api_key: Option<String>, model: Option<String>) -> (r: Result<Self, LlmError>)
        ensures
            match api_key {
                None => r matches Err(LlmError::ConfigError(m)) && m@
                    == "GEMINI_API_KEY environment variable not set"@,
                Some(k) => r matches Ok(p) && p.api_key == k && p.default_model@ == match model {
                    Some(m) => m@,
                    None => "gemini-1.5-flash"@,
                } && p.base_url@ == "https://generativelanguage.googleapis.com/v1beta/models"@,
            },
    {
        let api_key = match api_key {
            Some(k) => k,
            None => {
                return Err(
                    LlmError::ConfigError("GEMINI_API_KEY environment variable not set".to_owned()),
                );
            },
        };
        let default_model = match model {
            Some(m) => m,
            None => "gemini-1.5-flash".to_owned(),
        };
        Ok(GeminiProvider::new(api_key, default_model))
    }

    pub open spec fn url_for(&self, model: Seq<char>) -> Seq<char> {
        self.base_url@ + "/"@ + model + ":generateContent?key="@ + self.api_key@
    }

    /// The endpoint that generates content with `model`, the API key in its query.
    pub fn build_url(&self, model: &str) -> (r: String)
        ensures
            r@ == self.url_for(model@),
    {
        let a = concat3(self.base_url.as_str(), "/", model);
        concat3(a.as_str(), ":generateContent?key=", self.api_key.as_str())
    }
}

impl LlmProvider for GeminiProvider {
    fn default_model(&self) -> (r: &str)
        ensures
            r@ == self.default_model@,
    {
        self.default_model.as_str()
    }

    fn provider_name(&self) -> (r: &'static str)
        ensures
            r@ == "Gemini"@,
    {
        "Gemini"
    }
}


/// The provider the application generates with.
#[derive(Debug, Clone)]
pub enum LlmClient {
    Ollama(OllamaProvider),
    Gemini(GeminiProvider),
}

impl LlmClient {
    /// The provider's name, for logging.
    pub fn provider_name(&self) -> (r: &'static str)
        ensures
            r@ == match self {
                LlmClient::Ollama(_) => "Ollama"@,
                LlmClient::Gemini(_) => "Gemini"@,
            },
    {
        match self {
            LlmClient::Ollama(p) => p.provider_name(),
            LlmClient::Gemini(p) => p.provider_name(),
        }
    }
}

/// Which provider the `LLM_PROVIDER` setting chooses.
#[derive(Debug, Clone, Copy, PartialEq, Eq, Structural)]
pub enum ProviderKind {
    Ollama,
    Gemini,
}

/// The provider named by `LLM_PROVIDER` (`None` when unset): Gemini when the
/// name is "gemini" in any case, Ollama otherwise.
pub fn select_provider(name: Option<String>) -> (r: ProviderKind)
    ensures
        r == (if lowercase(
            match name {
                Some(n) => n@,
                None => "ollama"@,
            },
        ) == "gemini"@ {
            ProviderKind::Gemini
        } else {
            ProviderKind::Ollama
        }),
        match name {
            Some(n) => all_ascii(n@) ==> r == (if ascii_lower(n@) == "gemini"@ {
                ProviderKind::Gemini
            } else {
                ProviderKind::Ollama
            }),
            None => r == ProviderKind::Ollama,
        },
{
    let chosen = match name {
        Some(n) => n,
        None => "ollama".to_owned(),
    };
    let lowered = to_lowercase(chosen.as_str());
    proof {
        reveal_strlit("ollama");
        reveal_strlit("gemini");
        if name is None {
            assert(all_ascii(chosen@));
            assert(ascii_lower(chosen@) =~= chosen@);
            assert(chosen@[0] != "gemini"@[0]);
        } else {
            assert(chosen@ == name->0@);
        }
    }
    if str_eq(lowered.as_str(), "gemini") {
        ProviderKind::Gemini
    } else {
        ProviderKind::Ollama
    }
}

/// The error a Gemini reply describes.
#[derive(Debug, Clone)]
pub struct GeminiApiError {
    pub message: String,
    pub status: Option<String>,
}

/// What came back from a request to Gemini.
#[derive(Debug)]
pub enum GeminiReply {
    /// The request could not be sent; the transport's error text.
    Unreachable(String),
    /// The reply's body could not be read; the transport's error text.
    Unreadable(String),
    /// A reply: whether its status is a success, the status as text, the body,
    /// the error the body describes (when it reads as one), and the texts of the
    /// parts of each candidate (or why the body does not read as candidates).
    Received {
        success: bool,
        status: String,
        body: String,
        api_error: Option<GeminiApiError>,
        candidates: Result<Vec<Vec<String>>, String>,
    },
}

/// The first part of the first candidate, if there is one.
pub open spec fn first_text(candidates: Seq<Seq<Seq<char>>>) -> Option<Seq<char>> {
    if candidates.len() > 0 && candidates[0].len() > 0 {
        Some(candidates[0][0])
    } else {
        None
    }
}

/// What a reply from Gemini to a request for `model` yields.
pub open spec fn gemini_result_ok(r: Result<LlmResponse, LlmError>, model: Seq<char>, content: Seq<char>, duration_ms: u64) -> bool {
    r matches Ok(resp) && resp.content@ == content && resp.model@ == model && resp.duration_ms
        == Some(duration_ms)
}

impl GeminiProvider {
    /// The response or error that a reply to a request for `model` makes.
    pub fn settle_reply(model: String, reply: GeminiReply, duration_ms: u64) -> (r: Result<
        LlmResponse,
        LlmError,
    >)
        ensures
            match reply {
                GeminiReply::Unreachable(e) => r matches Err(LlmError::ConnectionError(m)) && m@
                    == "Failed to connect to Gemini API: "@ + e@,
                GeminiReply::Unreadable(e) => r matches Err(LlmError::ParseError(m)) && m@
                    == "Failed to read response: "@ + e@,
                GeminiReply::Received { success, status, body, api_error, candidates } => if !success {
                    match api_error {
                        Some(err) => r matches Err(LlmError::GenerationError(m)) && m@
                            == "Gemini API error: "@ + err.message@ + " ("@ + match err.status {
                            Some(s) => s@,
                            None => status@,
                        } + ")"@,
                        None => r matches Err(LlmError::GenerationError(m)) && m@
                            == "Gemini API error: "@ + status@ + " - "@ + body@,
                    }
                } else {
                    match candidates {
                        Err(e) => r matches Err(LlmError::ParseError(m)) && m@
                            == "Failed to parse Gemini response: "@ + e@ + " - Response: "@ + body@,
                        Ok(c) => match first_text(c.deep_view()) {
                            Some(t) => gemini_result_ok(r, model@, t, duration_ms),
                            None => r matches Err(LlmError::ParseError(m)) && m@
                                == "No content in Gemini response"@,
                        },
                    }
                },
            },
    {
        match reply {
            GeminiReply::Unreachable(e) => Err(
                LlmError::ConnectionError(concat2("Failed to connect to Gemini API: ", e.as_str())),
            ),
            GeminiReply::Unreadable(e) => Err(
                LlmError::ParseError(concat2("Failed to read response: ", e.as_str())),
            ),
            GeminiReply::Received { success, status, body, api_error, candidates } => {
                if !success {
                    match api_error {
                        Some(err) => {
                            let shown = match err.status {
                                Some(s) => s,
                                None => status,
                            };
                            let a = concat3("Gemini API error: ", err.message.as_str(), " (");
                            Err(LlmError::GenerationError(concat3(a.as_str(), shown.as_str(), ")")))
                        },
                        None => {
                            let a = concat3("Gemini API error: ", status.as_str(), " - ");
                            Err(LlmError::GenerationError(concat2(a.as_str(), body.as_str())))
                        },
                    }
                } else {
                    match candidates {
                        Err(e) => {
                            let a = concat3("Failed to parse Gemini response: ", e.as_str(), " - Response: ");
                            Err(LlmError::ParseError(concat2(a.as_str(), body.as_str())))
                        },
                        Ok(c) => {
                            if c.len() > 0 && c[0].len() > 0 {
                                let content = c[0][0].clone();
                                assert(c.deep_view()[0] == c@[0].deep_view());
                                Ok(LlmResponse { content, model, duration_ms: Some(duration_ms) })
                            } else {
                                proof {
                                    if c.len() > 0 {
                                        assert(c.deep_view()[0] == c@[0].deep_view());
                                    }
                                }
                                Err(LlmError::ParseError("No content in Gemini response".to_owned()))
                            }
                        },
                    }
                }
            },
        }
    }
}

impl OllamaProvider {
    /// The response or error that Ollama's reply to a request for `model` makes:
    /// the generated text, or the client's error text.
    pub fn settle_reply(model: String, reply: Result<String, String>, duration_ms: u64) -> (r: Result<
        LlmResponse,
        LlmError,
    >)
        ensures
            match reply {
                Ok(text) => r matches Ok(resp) && resp.content == text && resp.model == model
                    && resp.duration_ms == Some(duration_ms),
                Err(e) => r matches Err(LlmError::GenerationError(m)) && m@
                    == "Ollama generation failed: "@ + e@,
            },
    {
        match reply {
            Ok(text) => Ok(LlmResponse { content: text, model, duration_ms: Some(duration_ms) }),
            Err(e) => Err(
                LlmError::GenerationError(concat2("Ollama generation failed: ", e.as_str())),
            ),
        }
    }
}

/// `s` without its trailing `c` characters, as `str::trim_end_matches` with a character.
pub open spec fn strip_trailing(s: Seq<char>, c: char) -> Seq<char>
    decreases s.len(),
{
    if s.len() > 0 && s.last() == c {
        strip_trailing(s.drop_last(), c)
    } else {
        s
    }
}

fn strip_trailing_slashes(s: &str) -> (r: String)
    ensures
        r@ == strip_trailing(s@, '/'),
{
    let mut v = chars_of(s);
    while v.len() > 0 && v[v.len() - 1] == '/'
        invariant
            strip_trailing(v@, '/') == strip_trailing(s@, '/'),
        decreases v.len(),
    {
        let ghost before = v@;
        v.pop();
        assert(v@ =~= before.drop_last());
    }
    string_of(&v)
}

/// What the direct Ollama extraction reads from its environment.
#[derive(Debug, Clone)]
pub struct OllamaExtractionSettings {
    pub endpoint: String,
    pub model: String,
    pub keep_alive: String,
    pub num_predict: u32,
}

/// The value of a variable, or `default` when it is unset.
pub open spec fn or_default(v: Option<String>, default: Seq<char>) -> Seq<char> {
    match v {
        Some(s) => s@,
        None => default,
    }
}

fn value_or(v: Option<String>, default: &str) -> (r: String)
    ensures
        r@ == or_default(v, default@),
{
    match v {
        Some(s) => s,
        None => default.to_owned(),
    }
}

impl OllamaExtractionSettings {
    /// The settings from `OLLAMA_HOST`, `OLLAMA_PORT`, `OLLAMA_MODEL`,
    /// `OLLAMA_KEEP_ALIVE` and `OLLAMA_NUM_PREDICT` (each `None` when unset):
    /// the endpoint is the host without trailing slashes, a colon, the port and
    /// `/api/generate`; a token limit that does not read as a `u32` counts as unset.
    pub fn from_env(
        host: Option<String>,
        port: Option<String>,
        model: Option<String>,
        keep_alive: Option<String>,
        num_predict: Option<String>,
    ) -> (r: Self)
        ensures
            r.endpoint@ == strip_trailing(or_default(host, "http://10.0.0.14"@), '/') + ":"@
                + or_default(port, "11434"@) + "/api/generate"@,
            r.model@ == or_default(model, "qwen2.5:14b"@),
            r.keep_alive@ == or_default(keep_alive, "1h"@),
            r.num_predict == match num_predict {
                Some(t) => match parse_unsigned_spec(t@, 0xffff_ffff) {
                    Ok(n) => n as u32,
                    Err(_) => 320u32,
                },
                None => 320u32,
            },
    {
        let host = value_or(host, "http://10.0.0.14");
        let port = value_or(port, "11434");
        let base = strip_trailing_slashes(host.as_str());
        let a = concat3(base.as_str(), ":", port.as_str());
        let endpoint = concat2(a.as_str(), "/api/generate");
        let num_predict = match num_predict {
            Some(t) => match parse_unsigned(t.as_str(), 0xffff_ffff) {
                Ok(n) => n,
                Err(_) => 320,
            },
            None => 320,
        };
        OllamaExtractionSettings {
            endpoint,
            model: value_or(model, "qwen2.5:14b"),
            keep_alive: value_or(keep_alive, "1h"),
            num_predict,
        }
    }
}

/// The small hexadecimal digit of `n`, for `0 <= n < 16`.
pub open spec fn hex_digit(n: int) -> char {
    if n < 10 {
        (48 + n) as char
    } else {
        (87 + n) as char
    }
}

/// How `serde_json` writes one character inside a JSON string: `"` and `\`
/// behind a backslash, the control characters with a short escape where JSON
/// has one and as `\u00` and two small hexadecimal digits otherwise, every other
/// character as it is.
pub open spec fn json_escape(c: char) -> Seq<char> {
    let u = c as u32 as int;
    if c == '"' {
        seq!['\\', '"']
    } else if c == '\\' {
        seq!['\\', '\\']
    } else if u == 8 {
        seq!['\\', 'b']
    } else if u == 9 {
        seq!['\\', 't']
    } else if u == 10 {
        seq!['\\', 'n']
    } else if u == 12 {
        seq!['\\', 'f']
    } else if u == 13 {
        seq!['\\', 'r']
    } else if u < 32 {
        seq!['\\', 'u', '0', '0', hex_digit(u / 16), hex_digit(u % 16)]
    } else {
        seq![c]
    }
}

/// The characters of `s`, each as `json_escape` writes it.
pub open spec fn json_escaped(s: Seq<char>) -> Seq<char>
    decreases s.len(),
{
    if s.len() == 0 {
        seq![]
    } else {
        json_escaped(s.drop_last()) + json_escape(s.last())
    }
}

/// `s` as a JSON string: between double quotes, its characters escaped.
pub open spec fn json_string(s: Seq<char>) -> Seq<char> {
    seq!['"'] + json_escaped(s) + seq!['"']
}

/// What `serde_json` writes for a list of strings: the JSON strings of the items,
/// separated by commas, between square brackets, with no white space.
pub open spec fn json_string_array(items: Seq<Seq<char>>) -> Seq<char> {
    seq!['['] + join(items.map_values(|s: Seq<char>| json_string(s)), seq![',']) + seq![']']
}

/// `serde_json::to_string` on a list of strings, with the compact formatter:
/// `[`, the items as JSON strings separated by `,`, then `]`. For a list of
/// strings the call does not fail: its documented failures are a `Serialize`
/// impl that fails and a map with non-string keys, neither of which a
/// `Vec<String>` has, and its output goes to a `Vec<u8>`, to which writes do
/// not fail.
#[verifier::external_body]
fn to_json_string_array(items: &Vec<String>) -> (r: String)
    ensures
        r@ == json_string_array(items.deep_view()),
{
    serde_json::to_string(items).expect("a list of strings serializes")
}

/// How a list of selected controls appears in the prompt: `[]` when empty, else
/// its JSON text.
pub open spec fn hint_text(items: Seq<Seq<char>>) -> Seq<char> {
    if items.len() == 0 {
        "[]"@
    } else {
        json_string_array(items)
    }
}

fn hint(items: &Vec<String>) -> (r: String)
    ensures
        r@ == hint_text(items.deep_view()),
{
    if items.len() == 0 {
        "[]".to_owned()
    } else {
        to_json_string_array(items)
    }
}

/// The prompt of the direct Ollama extraction, given how the operator's
/// selections are written.
pub open spec fn ollama_prompt_spec(
    document: Seq<char>,
    countries: Seq<char>,
    organizations: Seq<char>,
    restrictions: Seq<char>,
) -> Seq<char> {
    "Return ONLY one minified JSON object with these keys exactly: title,description,domain,tags,identifier,authorization_reference,releasable_to_categories.\nConstraints: domain in [INTEL,CYBER,OPERATIONS,LOGISTICS,COMMUNICATIONS,NUCLEAR,COUNTERTERRORISM,MARITIME,AEROSPACE,SPECIALOPS]. tags must be 3-6 short uppercase strings. identifier format ORG-DOMAIN-DATE-XXXX. If unknown, use null for nullable fields and [] for list fields.\nOperator constraints (high priority):\nselected_countries="@ + countries + "\nselected_organizations="@ + organizations + "\nselected_handling_restrictions="@ + restrictions + "\nThese lists are operator-selected controls handled by the web form; do not invent alternatives.\nDocument:\n"@ + document
}

/// The prompt that asks Ollama for the metadata of `document`, with the
/// operator's selected countries, organizations and handling restrictions
/// already written out.
pub fn ollama_prompt_from_hints(
    document: &str,
    countries: &str,
    organizations: &str,
    restrictions: &str,
) -> (r: String)
    ensures
        r@ == ollama_prompt_spec(document@, countries@, organizations@, restrictions@),
{
    let a = concat3("Return ONLY one minified JSON object with these keys exactly: title,description,domain,tags,identifier,authorization_reference,releasable_to_categories.\nConstraints: domain in [INTEL,CYBER,OPERATIONS,LOGISTICS,COMMUNICATIONS,NUCLEAR,COUNTERTERRORISM,MARITIME,AEROSPACE,SPECIALOPS]. tags must be 3-6 short uppercase strings. identifier format ORG-DOMAIN-DATE-XXXX. If unknown, use null for nullable fields and [] for list fields.\nOperator constraints (high priority):\nselected_countries=", countries, "\nselected_organizations=");
    let b = concat3(a.as_str(), organizations, "\nselected_handling_restrictions=");
    let d = concat3(b.as_str(), restrictions, "\nThese lists are operator-selected controls handled by the web form; do not invent alternatives.\nDocument:\n");
    concat2(d.as_str(), document)
}

/// The prompt that asks Ollama for the metadata of `document`, telling it which
/// countries, organizations and handling restrictions the operator selected,
/// each written as `[]` when empty and as JSON otherwise.
pub fn ollama_extraction_prompt(
    document: &str,
    countries: &Vec<String>,
    organizations: &Vec<String>,
    restrictions: &Vec<String>,
) -> (r: String)
    ensures
        r@ == ollama_prompt_spec(
            document@,
            hint_text(countries.deep_view()),
            hint_text(organizations.deep_view()),
            hint_text(restrictions.deep_view()),
        ),
{
    let c = hint(countries);
    let o = hint(organizations);
    let h = hint(restrictions);
    ollama_prompt_from_hints(document, c.as_str(), o.as_str(), h.as_str())
}

/// What the Vertex AI extraction reads from its environment.
#[derive(Debug, Clone)]
pub struct VertexSettings {
    pub project_id: String,
    pub location: String,
    pub model: String,
}

impl VertexSettings {
    /// The settings from `GEMINI_PROJECT_ID`, `GEMINI_LOCATION` and `GEMINI_MODEL`,
    /// the latter two `None` when unset.
    pub fn from_env(project_id: String, location: Option<String>, model: Option<String>) -> (r: Self)
        ensures
            r.project_id == project_id,
            r.location@ == or_default(location, "northamerica-northeast1"@),
            r.model@ == or_default(model, "gemini-1.5-flash"@),
    {
        VertexSettings {
            project_id,
            location: value_or(location, "northamerica-northeast1"),
            model: value_or(model, "gemini-1.5-flash"),
        }
    }

    pub open spec fn endpoint_spec(&self) -> Seq<char> {
        "https://"@ + self.location@ + "-aiplatform.googleapis.com/v1/projects/"@ + self.project_id@
            + "/locations/"@ + self.location@ + "/publishers/google/models/"@ + self.model@
            + ":generateContent"@
    }

    /// The regional Vertex AI endpoint that generates content with the model.
    pub fn endpoint(&self) -> (r: String)
        ensures
            r@ == self.endpoint_spec(),
    {
        let a = concat3("https://", self.location.as_str(), "-aiplatform.googleapis.com/v1/projects/");
        let b = concat3(a.as_str(), self.project_id.as_str(), "/locations/");
        let c = concat3(b.as_str(), self.location.as_str(), "/publishers/google/models/");
        concat3(c.as_str(), self.model.as_str(), ":generateContent")
    }
}

/// The prompt of the Vertex AI extraction.
pub open spec fn vertex_prompt_spec(document: Seq<char>) -> Seq<char> {
    "Extract security classification metadata from this document as valid JSON.\n\nDocument:\n"@ + document + "\n\nRequirements:\n- title: Clear descriptive title (required string)\n- description: 2-sentence summary (required string)\n- domain: One of INTEL, CYBER, OPERATIONS, LOGISTICS, COMMUNICATIONS, NUCLEAR, COUNTERTERRORISM, MARITIME, AEROSPACE, SPECIALOPS\n- tags: Array of 3-6 classification tags (required, array of strings)\n- identifier: Unique ID in format ORG-DOMAIN-DATE-XXXX (required string)\n- authorization_reference: Reference authority document (string or null)\n- releasable_to_countries: Array of ISO 3-letter country codes or empty array\n- releasable_to_organizations: Array from (NATO, EU, UN, FVEY, AUKUS, QUAD) or empty array\n- releasable_to_categories: Array of strings or empty array\n- disclosure_category: String or null\n- handling_restrictions: Array from (CUI, FOUO, LES, SBU, NOFORN, PROPIN, ORCON) or empty array\n- handling_authority: String or null\n- no_handling_restrictions: Boolean or null\n\nOutput ONLY valid JSON. No explanation. No markdown fences."@
}

/// The prompt that asks Vertex AI for the security metadata of `document`.
pub fn vertex_extraction_prompt(document: &str) -> (r: String)
    ensures
        r@ == vertex_prompt_spec(document@),
{
    concat3("Extract security classification metadata from this document as valid JSON.\n\nDocument:\n", document, "\n\nRequirements:\n- title: Clear descriptive title (required string)\n- description: 2-sentence summary (required string)\n- domain: One of INTEL, CYBER, OPERATIONS, LOGISTICS, COMMUNICATIONS, NUCLEAR, COUNTERTERRORISM, MARITIME, AEROSPACE, SPECIALOPS\n- tags: Array of 3-6 classification tags (required, array of strings)\n- identifier: Unique ID in format ORG-DOMAIN-DATE-XXXX (required string)\n- authorization_reference: Reference authority document (string or null)\n- releasable_to_countries: Array of ISO 3-letter country codes or empty array\n- releasable_to_organizations: Array from (NATO, EU, UN, FVEY, AUKUS, QUAD) or empty array\n- releasable_to_categories: Array of strings or empty array\n- disclosure_category: String or null\n- handling_restrictions: Array from (CUI, FOUO, LES, SBU, NOFORN, PROPIN, ORCON) or empty array\n- handling_authority: String or null\n- no_handling_restrictions: Boolean or null\n\nOutput ONLY valid JSON. No explanation. No markdown fences.")
}

/// The text of the first part of the first candidate, or `{}` when the reply has none.
pub fn vertex_reply_content(text: Option<String>) -> (r: String)
    ensures
        r@ == or_default(text, "{}"@),
{
    value_or(text, "{}")
}

} // verus!
