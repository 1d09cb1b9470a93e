//! The replies of the server that are not streams of an engine: what it has, what
//! it runs, and how transfers go on.

use vstd::prelude::*;

use crate::clock;
use crate::cmd::list::Image;
use crate::cmd::serve::engine::EngineKind;
use crate::ffi::ProgressSnapshot;
use crate::json as js;
use crate::json::Json;
use crate::shortnames;
use crate::shortnames::Aliases;
use crate::storage::Descriptor;
use crate::text;

verus! {

// ---------------------------------------------------------------------------
// Requests
// ---------------------------------------------------------------------------

/// A request to `/api/show` or `/api/delete`; some clients name the model under
/// the second name.
pub struct OllamaShowRequest {
    pub model: String,
    pub name: Option<String>,
}

/// A request to `/api/pull`; some clients name the model under the second name.
pub struct OllamaPullRequest {
    pub model: String,
    pub name: String,
}

/// A request to `/api/push`, which names its model as one to `/api/pull` does.
pub type OllamaPushRequest = OllamaPullRequest;

impl OllamaShowRequest {
    /// The model that a request names: by its second name, unless that is empty.
    pub open spec fn named(self) -> Seq<char> {
        match self.name {
            Some(n) => if n@.len() > 0 {
                n@
            } else {
                self.model@
            },
            None => self.model@,
        }
    }

    /// The reference of the model that a request names.
    pub fn reference(&self, aliases: &Aliases) -> (r: String)
        ensures
            r@ == shortnames::resolved_ollama(self.named(), aliases@),
    {
        let named = match &self.name {
            Some(n) => if n.as_str().is_empty() {
                &self.model
            } else {
                n
            },
            None => &self.model,
        };
        shortnames::resolve_ollama_api(named.as_str(), aliases)
    }
}

impl OllamaPullRequest {
    /// The model that a request names: by its second name where the first is
    /// empty.
    pub open spec fn named(self) -> Seq<char> {
        if self.model@.len() > 0 {
            self.model@
        } else {
            self.name@
        }
    }

    /// The reference of the model that a request names; nothing where it names
    /// none, and is refused.
    pub fn reference(&self, aliases: &Aliases) -> (r: Option<String>)
        ensures
            match r {
                Some(s) => self.named().len() > 0 && s@ == shortnames::resolved_ollama(
                    self.named(),
                    aliases@,
                ),
                None => self.named().len() == 0,
            },
    {
        let named = if self.model.as_str().is_empty() {
            &self.name
        } else {
            &self.model
        };
        if named.as_str().is_empty() {
            None
        } else {
            Some(shortnames::resolve_ollama_api(named.as_str(), aliases))
        }
    }
}

/// Whether a client that accepts some types gets the web page.
pub fn wants_html(accept: Option<&str>) -> (r: bool)
    ensures
        r == match accept {
            Some(s) => text::find(s@, "text/html"@) is Some,
            None => false,
        },
{
    match accept {
        Some(s) => text::contains_str(s, "text/html"),
        None => false,
    }
}

// ---------------------------------------------------------------------------
// Messages
// ---------------------------------------------------------------------------

/// An object with one text.
pub open spec fn one_text(key: Seq<char>, s: Seq<char>) -> Json {
    js::no_keys().with(key, Json::Str(s))
}

fn one_text_value(key: &str, s: &str) -> (r: serde_json::Value)
    ensures
        js::json(r) == one_text(key@, s@),
{
    let mut v = js::object();
    js::set(&mut v, key, js::lit(s));
    v
}

/// The body of a reply that reports an error.
pub fn error_body(message: &str) -> (r: serde_json::Value)
    ensures
        js::json(r) == one_text("error"@, message@),
{
    one_text_value("error", message)
}

/// The message where a request names no model.
pub const MODEL_REQUIRED: &'static str = "model is required";

/// The message where the store does not have a model.
pub fn not_found(reference: &str) -> (r: String)
    ensures
        r@ == "model not found: "@ + reference@,
{
    let mut s = "model not found: ".to_owned();
    s.append(reference);
    s
}

// ---------------------------------------------------------------------------
// Transfers
// ---------------------------------------------------------------------------

/// A line of a stream of objects.
pub open spec fn line_of(v: Json) -> Seq<char> {
    js::json_text(v) + "\n"@
}

fn line_text(v: &serde_json::Value) -> (r: String)
    ensures
        r@ == line_of(js::json(*v)),
{
    let mut s = js::to_text(v);
    s.append("\n");
    s
}

/// A line that gives a status.
pub fn status_line(status: &str) -> (r: String)
    ensures
        r@ == line_of(one_text("status"@, status@)),
{
    line_text(&one_text_value("status", status))
}

/// A line that gives an error.
pub fn error_line(message: &str) -> (r: String)
    ensures
        r@ == line_of(one_text("error"@, message@)),
{
    line_text(&one_text_value("error", message))
}

/// How a transfer ended.
pub enum TransferEnd {
    Success,
    /// It failed, with a message.
    Failed(String),
    /// Its task broke down, with a message.
    Broken(String),
}

/// The last line of a transfer.
pub fn end_line(verb: &str, end: &TransferEnd) -> (r: String)
    ensures
        r@ == match end {
            TransferEnd::Success => line_of(one_text("status"@, "success"@)),
            TransferEnd::Failed(m) => line_of(one_text("error"@, m@)),
            TransferEnd::Broken(m) => line_of(one_text("error"@, verb@ + " task panicked: "@ + m@)),
        },
{
    match end {
        TransferEnd::Success => status_line("success"),
        TransferEnd::Failed(m) => error_line(m.as_str()),
        TransferEnd::Broken(m) => {
            let mut s = verb.to_owned();
            s.append(" task panicked: ");
            s.append(m.as_str());
            error_line(s.as_str())
        },
    }
}

/// What a transfer without a status of its own is said to do.
pub open spec fn doing(verb: Seq<char>, model: Seq<char>) -> Seq<char> {
    verb + "ing "@ + model
}

/// The bytes that have come, as far as there are so many in all.
pub open spec fn completed_of(p: ProgressSnapshot) -> int {
    if p.completed < 0 {
        0
    } else if p.completed > p.total {
        p.total as int
    } else {
        p.completed as int
    }
}

/// How a transfer is reported while it goes on: with its bytes once their number
/// is known, else with its status, and without either by what it does.
pub open spec fn progress_report(
    verb: Seq<char>,
    model: Seq<char>,
    p: Option<ProgressSnapshot>,
) -> Json {
    match p {
        Some(p) => {
            let status = if p.status@.len() > 0 {
                p.status@
            } else {
                doing(verb, model)
            };
            if p.total > 0 {
                one_text("status"@, status).with("total"@, Json::Int(p.total as int)).with(
                    "completed"@,
                    Json::Int(completed_of(p)),
                )
            } else {
                one_text("status"@, status)
            }
        },
        None => one_text("status"@, doing(verb, model)),
    }
}

/// A line of a transfer that goes on, given how far it has come, where that is
/// known.
pub fn progress_line(verb: &str, model: &str, p: Option<&ProgressSnapshot>) -> (r: String)
    ensures
        r@ == line_of(
            progress_report(
                verb@,
                model@,
                match p {
                    Some(p) => Some(*p),
                    None => None,
                },
            ),
        ),
{
    let mut by_verb = verb.to_owned();
    by_verb.append("ing ");
    by_verb.append(model);
    match p {
        None => status_line(by_verb.as_str()),
        Some(p) => {
            let status = if p.status.as_str().is_empty() {
                by_verb
            } else {
                p.status.clone()
            };
            let mut v = one_text_value("status", status.as_str());
            if p.total > 0 {
                let completed: i64 = if p.completed < 0 {
                    0
                } else if p.completed > p.total {
                    p.total
                } else {
                    p.completed
                };
                js::set(&mut v, "total", js::integer(p.total));
                js::set(&mut v, "completed", js::integer(completed));
            }
            line_text(&v)
        },
    }
}

/// What is reported as completed is never less than nothing and never more than
/// all.
pub proof fn law_completed_is_within_total(p: ProgressSnapshot)
    requires
        p.total > 0,
    ensures
        0 <= completed_of(p) <= p.total,
{
}

// ---------------------------------------------------------------------------
// Models
// ---------------------------------------------------------------------------

pub struct OllamaModelDetails {
    pub format: String,
    pub family: String,
    pub parameter_size: String,
    pub quantization_level: String,
}

/// A model of the store.
pub struct OllamaModelInfo {
    pub name: String,
    pub model: String,
    pub size: u64,
    pub digest: String,
    pub modified_at: String,
    pub details: OllamaModelDetails,
}

/// A model that runs.
pub struct OllamaRunningModelInfo {
    pub name: String,
    pub model: String,
    pub digest: String,
    pub size: u64,
    pub size_vram: u64,
    pub pid: Option<u32>,
    pub port: u16,
    pub processor: String,
    pub context_length: Option<u64>,
    pub started_at: String,
}

/// The reply to `/api/show`.
pub struct OllamaShowResponse {
    pub model_info: serde_json::Value,
    pub details: OllamaModelDetails,
}

/// Whether details are those of every model: a GGUF file of which no more is
/// known.
pub open spec fn is_plain(d: OllamaModelDetails) -> bool {
    d.format@ == "gguf"@ && d.family@.len() == 0 && d.parameter_size@.len() == 0
        && d.quantization_level@.len() == 0
}

fn plain_details() -> (r: OllamaModelDetails)
    ensures
        is_plain(r),
{
    OllamaModelDetails {
        format: "gguf".to_owned(),
        family: String::new(),
        parameter_size: String::new(),
        quantization_level: String::new(),
    }
}

/// The seconds of a point in time since the Unix epoch; nothing before it.
pub open spec fn epoch_secs(t: Option<std::time::SystemTime>) -> Option<u64> {
    match t {
        Some(t) => if clock::system_nanos(t) >= 0 {
            Some((clock::system_nanos(t) / 1_000_000_000) as u64)
        } else {
            None
        },
        None => None,
    }
}

/// The text of a point in time, if it has one.
pub open spec fn time_text(t: Option<std::time::SystemTime>) -> Option<Seq<char>> {
    match epoch_secs(t) {
        Some(secs) => clock::rfc3339_text(secs as i64),
        None => None,
    }
}

fn time_string(t: Option<std::time::SystemTime>) -> (r: Option<String>)
    ensures
        match r {
            Some(s) => time_text(t) == Some(s@),
            None => time_text(t) is None,
        },
{
    match t {
        None => None,
        Some(t) => match t.duration_since(clock::unix_epoch()) {
            Err(_) => None,
            Ok(d) => {
                let secs: u64 = d.as_secs();
                clock::rfc3339_of(
                    #[verifier::truncate]
                    (secs as i64),
                )
            },
        },
    }
}

/// A model of the store as it is listed. One without a time is stamped with the
/// clock.
pub fn model_info(image: &Image) -> (r: OllamaModelInfo)
    ensures
        r.name@ == image.reference@,
        r.model@ == image.reference@,
        r.size == image.size,
        r.digest@ == image.digest@,
        match time_text(image.modified_at) {
            Some(s) => r.modified_at@ == s,
            None => clock::is_stamp(r.modified_at@),
        },
        is_plain(r.details),
{
    let modified_at = match time_string(image.modified_at) {
        Some(s) => s,
        None => clock::now_rfc3339(),
    };
    OllamaModelInfo {
        name: image.reference.clone(),
        model: image.reference.clone(),
        size: image.size,
        digest: image.digest.clone(),
        modified_at,
        details: plain_details(),
    }
}

/// A model that runs as it is listed. Engines do not tell what they keep on a
/// device.
pub fn running_info(
    name: &str,
    digest: &str,
    size: u64,
    port: u16,
    pid: Option<u32>,
    kind: EngineKind,
    started_at: &str,
    context_length: Option<u64>,
) -> (r: OllamaRunningModelInfo)
    ensures
        r.name@ == name@,
        r.model@ == name@,
        r.digest@ == digest@,
        r.size == size,
        r.size_vram == 0,
        r.pid == pid,
        r.port == port,
        r.processor@ == kind.label(),
        r.context_length == context_length,
        r.started_at@ == started_at@,
{
    OllamaRunningModelInfo {
        name: name.to_owned(),
        model: name.to_owned(),
        digest: digest.to_owned(),
        size,
        size_vram: 0,
        pid,
        port,
        processor: kind.processor(),
        context_length,
        started_at: started_at.to_owned(),
    }
}

/// The size of the context in what an engine tells of itself.
pub open spec fn context_in(props: Json) -> Option<u64> {
    match props.at("default_generation_settings"@) {
        Some(s) => match s.at("n_ctx"@) {
            Some(Json::Int(n)) => if 0 <= n <= u64::MAX {
                Some(n as u64)
            } else {
                None
            },
            _ => None,
        },
        None => None,
    }
}

/// The size of the context in what an engine tells of itself, if it does.
pub fn context_length(props: &serde_json::Value) -> (r: Option<u64>)
    ensures
        r == context_in(js::json(*props)),
{
    match js::get(props, "default_generation_settings") {
        Some(s) => match js::get(s, "n_ctx") {
            Some(n) => n.as_u64(),
            None => None,
        },
        None => None,
    }
}

/// What `/api/show` tells of a model.
pub open spec fn show_info(d: Descriptor) -> Json {
    js::no_keys().with("digest"@, Json::Str(d.digest@)).with("size"@, Json::Int(d.size as int))
}

/// The reply to `/api/show`; nothing where the store does not have the model.
pub fn show_response(found: &Option<Descriptor>) -> (r: Option<OllamaShowResponse>)
    ensures
        match r {
            Some(s) => found matches Some(d) && js::json(s.model_info) == show_info(*d) && is_plain(
                s.details,
            ),
            None => found is None,
        },
{
    match found {
        None => None,
        Some(d) => {
            let mut info = js::object();
            js::set(&mut info, "digest", js::string(d.digest.clone()));
            js::set(&mut info, "size", js::unsigned(d.size));
            Some(OllamaShowResponse { model_info: info, details: plain_details() })
        },
    }
}

/// A model as the OpenAI API lists it.
pub open spec fn listed_model(reference: Seq<char>, loaded: bool) -> Json {
    js::no_keys().with("id"@, Json::Str(reference)).with("object"@, Json::Str("model"@)).with(
        "created"@,
        Json::Int(0),
    ).with("owned_by"@, Json::Str("llmman"@)).with(
        "status"@,
        one_text(
            "value"@,
            if loaded {
                "loaded"@
            } else {
                "unloaded"@
            },
        ),
    )
}

/// A model as the OpenAI API lists it.
pub fn openai_model(reference: &str, loaded: bool) -> (r: serde_json::Value)
    ensures
        js::json(r) == listed_model(reference@, loaded),
{
    let mut v = js::object();
    js::set(&mut v, "id", js::lit(reference));
    js::set(&mut v, "object", js::lit("model"));
    js::set(&mut v, "created", js::integer(0));
    js::set(&mut v, "owned_by", js::lit("llmman"));
    js::set(
        &mut v,
        "status",
        one_text_value(
            "value",
            if loaded {
                "loaded"
            } else {
                "unloaded"
            },
        ),
    );
    v
}

/// The list of models of the OpenAI API.
pub fn openai_models(models: Vec<serde_json::Value>) -> (r: serde_json::Value)
    ensures
        js::json(r) == js::no_keys().with("object"@, Json::Str("list"@)).with(
            "data"@,
            Json::Array(js::json_seq(models@)),
        ),
{
    let mut v = js::object();
    js::set(&mut v, "object", js::lit("list"));
    js::set(&mut v, "data", js::array(models));
    v
}

/// The reply to `/api/version`: the version, the program, where it is known, and
/// the process.
pub open spec fn version_info(version: Seq<char>, exe: Option<Seq<char>>, pid: u32) -> Json {
    js::no_keys().with("version"@, Json::Str(version)).with(
        "exe"@,
        match exe {
            Some(p) => Json::Str(p),
            None => Json::Null,
        },
    ).with("pid"@, Json::Int(pid as int))
}

/// The reply to `/api/version`.
pub fn version_response(version: &str, exe: Option<&str>, pid: u32) -> (r: serde_json::Value)
    ensures
        js::json(r) == version_info(version@, text::opt_text(exe), pid),
{
    let mut v = js::object();
    js::set(&mut v, "version", js::lit(version));
    match exe {
        Some(p) => js::set(&mut v, "exe", js::lit(p)),
        None => js::set(&mut v, "exe", js::null()),
    }
    js::set(&mut v, "pid", js::unsigned(pid as u64));
    v
}

} // verus!
