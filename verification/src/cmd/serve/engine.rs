//! The inference engines: how they are started, how their start is watched, and
//! what is known of one that runs.

use vstd::prelude::*;

use crate::container;
use crate::container::ContainerManager;
use crate::text;

verus! {

/// A local engine.
#[derive(Debug, Clone, Copy, PartialEq, Eq, Structural)]
pub enum Engine {
    LlamaServer,
    Vllm,
}

/// Where an engine runs.
#[derive(Debug, Clone, Copy, PartialEq, Eq, Structural)]
pub enum EngineKind {
    /// As a process of this host.
    Local(Engine),
    /// In a container.
    Container(ContainerManager),
}

impl EngineKind {
    /// The engine for a model: a GGUF file is served by `llama-server`, in a
    /// container where a manager of containers was asked for, and safetensors
    /// files by `vllm`.
    pub fn for_model(is_gguf: bool, ociman: Option<ContainerManager>) -> (r: Self)
        ensures
            r == if !is_gguf {
                EngineKind::Local(Engine::Vllm)
            } else {
                match ociman {
                    Some(m) => EngineKind::Container(m),
                    None => EngineKind::Local(Engine::LlamaServer),
                }
            },
    {
        if !is_gguf {
            return EngineKind::Local(Engine::Vllm);
        }
        match ociman {
            Some(m) => EngineKind::Container(m),
            None => EngineKind::Local(Engine::LlamaServer),
        }
    }

    /// How the engine is named to the user.
    pub open spec fn label(self) -> Seq<char> {
        match self {
            EngineKind::Local(Engine::LlamaServer) => "llama-server (local)"@,
            EngineKind::Local(Engine::Vllm) => "vllm (local)"@,
            EngineKind::Container(m) => "llama-server (container/"@ + m.name() + ")"@,
        }
    }

    /// How the engine is named to the user.
    pub fn processor(self) -> (r: String)
        ensures
            r@ == self.label(),
    {
        match self {
            EngineKind::Local(Engine::LlamaServer) => "llama-server (local)".to_owned(),
            EngineKind::Local(Engine::Vllm) => "vllm (local)".to_owned(),
            EngineKind::Container(m) => {
                let mut s = "llama-server (container/".to_owned();
                s.append(m.binary());
                s.append(")");
                s
            },
        }
    }
}

// ---------------------------------------------------------------------------
// Starting an engine
// ---------------------------------------------------------------------------

/// The variables by which the devices of an engine are chosen.
pub fn gpu_visible_device_vars() -> (r: Vec<String>)
    ensures
        text::texts(r@) == seq![
            "CUDA_VISIBLE_DEVICES"@,
            "HIP_VISIBLE_DEVICES"@,
            "ROCR_VISIBLE_DEVICES"@,
            "GGML_VK_VISIBLE_DEVICES"@,
        ],
{
    let mut v: Vec<String> = Vec::new();
    text::push_text(&mut v, "CUDA_VISIBLE_DEVICES");
    text::push_text(&mut v, "HIP_VISIBLE_DEVICES");
    text::push_text(&mut v, "ROCR_VISIBLE_DEVICES");
    text::push_text(&mut v, "GGML_VK_VISIBLE_DEVICES");
    assert(text::texts(v@) =~= seq![
        "CUDA_VISIBLE_DEVICES"@,
        "HIP_VISIBLE_DEVICES"@,
        "ROCR_VISIBLE_DEVICES"@,
        "GGML_VK_VISIBLE_DEVICES"@,
    ]);
    v
}

/// The arguments of `llama-server`: the model, a port of this host alone, and the
/// size of the context where one was asked for.
pub fn llama_server_args(model: &str, port: u16, ctx_size: Option<u32>) -> (r: Vec<String>)
    ensures
        text::texts(r@) == seq![
            "--model"@,
            model@,
            "--port"@,
            text::decimal(port as nat),
            "--host"@,
            "127.0.0.1"@,
        ] + container::context_args(ctx_size),
{
    let mut args: Vec<String> = Vec::new();
    text::push_text(&mut args, "--model");
    text::push_text(&mut args, model);
    text::push_text(&mut args, "--port");
    text::push_text(&mut args, text::decimal_str(port as u64).as_str());
    text::push_text(&mut args, "--host");
    text::push_text(&mut args, "127.0.0.1");
    if let Some(n) = ctx_size {
        text::push_text(&mut args, "--ctx-size");
        text::push_text(&mut args, text::decimal_str(n as u64).as_str());
    }
    assert(text::texts(args@) =~= seq![
        "--model"@,
        model@,
        "--port"@,
        text::decimal(port as nat),
        "--host"@,
        "127.0.0.1"@,
    ] + container::context_args(ctx_size));
    args
}

/// The words of a text that may be missing.
pub open spec fn extra_words(extra: Option<Seq<char>>) -> Seq<Seq<char>> {
    match extra {
        Some(s) => text::words_spec(s),
        None => Seq::empty(),
    }
}

/// The arguments of `vllm`: the directory of the model, a port of this host alone,
/// the name under which requests name the model, and the user's own words.
pub fn vllm_args(model_dir: &str, port: u16, model_name: &str, extra: Option<&str>) -> (r: Vec<String>)
    ensures
        text::texts(r@) == seq![
            "serve"@,
            model_dir@,
            "--port"@,
            text::decimal(port as nat),
            "--host"@,
            "127.0.0.1"@,
            "--served-model-name"@,
            model_name@,
        ] + extra_words(text::opt_text(extra)),
{
    let mut args: Vec<String> = Vec::new();
    text::push_text(&mut args, "serve");
    text::push_text(&mut args, model_dir);
    text::push_text(&mut args, "--port");
    text::push_text(&mut args, text::decimal_str(port as u64).as_str());
    text::push_text(&mut args, "--host");
    text::push_text(&mut args, "127.0.0.1");
    text::push_text(&mut args, "--served-model-name");
    text::push_text(&mut args, model_name);
    let ghost front = args@;
    match extra {
        Some(s) => {
            let mut more = text::words(s);
            let ghost words = more@;
            args.append(&mut more);
            assert(text::texts(args@) =~= text::texts(front) + text::texts(words));
        },
        None => {},
    }
    assert(text::texts(args@) =~= seq![
        "serve"@,
        model_dir@,
        "--port"@,
        text::decimal(port as nat),
        "--host"@,
        "127.0.0.1"@,
        "--served-model-name"@,
        model_name@,
    ] + extra_words(text::opt_text(extra)));
    args
}

/// Which `llama-server` is run.
#[derive(Debug, Clone, Copy, PartialEq, Eq, Structural)]
pub enum BinarySource {
    /// The one that is installed.
    OnPath,
    /// One of a release that is downloaded.
    Release,
}

/// Which `llama-server` is run: the installed one, unless there is none or a
/// release was asked for.
pub fn binary_source(pinned: bool, on_path: bool) -> (r: BinarySource)
    ensures
        r == if !pinned && on_path {
            BinarySource::OnPath
        } else {
            BinarySource::Release
        },
{
    if !pinned && on_path {
        BinarySource::OnPath
    } else {
        BinarySource::Release
    }
}

/// What is done about the program that was found at the start.
#[derive(Debug, Clone, Copy, PartialEq, Eq, Structural)]
pub enum BinaryStep {
    /// It is run.
    Use,
    /// It is gone, and is looked for again.
    Resolve,
    /// There never was one.
    Missing,
}

/// What is done about the program that was found at the start.
pub fn binary_step(known: bool, present: bool) -> (r: BinaryStep)
    ensures
        r == if !known {
            BinaryStep::Missing
        } else if present {
            BinaryStep::Use
        } else {
            BinaryStep::Resolve
        },
{
    if !known {
        BinaryStep::Missing
    } else if present {
        BinaryStep::Use
    } else {
        BinaryStep::Resolve
    }
}

/// The message where a program is not installed.
pub fn not_on_path(name: &str) -> (r: String)
    ensures
        r@ == name@ + " not found on PATH"@,
{
    let mut s = name.to_owned();
    s.append(" not found on PATH");
    s
}

// ---------------------------------------------------------------------------
// Watching the start
// ---------------------------------------------------------------------------

/// How many of an engine's last lines are kept.
pub const TAIL_LINES: usize = 20;

/// The last lines that an engine wrote.
pub struct OutputTail {
    lines: Vec<String>,
}

/// The last lines of a text, as many as are kept.
pub open spec fn last_lines(lines: Seq<Seq<char>>) -> Seq<Seq<char>> {
    if lines.len() <= TAIL_LINES {
        lines
    } else {
        lines.skip(lines.len() - TAIL_LINES)
    }
}

impl View for OutputTail {
    type V = Seq<Seq<char>>;

    closed spec fn view(&self) -> Seq<Seq<char>> {
        text::texts(self.lines@)
    }
}

impl OutputTail {
    #[verifier::type_invariant]
    closed spec fn inv(self) -> bool {
        self.lines@.len() <= TAIL_LINES
    }

    pub fn new() -> (r: Self)
        ensures
            r@.len() == 0,
    {
        OutputTail { lines: Vec::new() }
    }

    /// Takes a line; the first one is given up where there are enough.
    pub fn push(&mut self, line: String)
        ensures
            final(self)@ == last_lines(old(self)@.push(line@)),
            final(self)@.len() <= TAIL_LINES,
    {
        proof {
            use_type_invariant(&*self);
        }
        let mut lines: Vec<String> = Vec::new();
        std::mem::swap(&mut lines, &mut self.lines);
        let ghost before = lines@;
        if lines.len() >= TAIL_LINES {
            lines.remove(0);
        }
        lines.push(line);
        self.lines = lines;
        assert(self@ =~= last_lines(text::texts(before).push(line@)));
    }

    /// The lines in one, unless there are none.
    pub fn detail(&self) -> (r: Option<String>)
        ensures
            match r {
                Some(s) => self@.len() > 0 && s@ == text::join_spec(self@, " | "@),
                None => self@.len() == 0,
            },
    {
        if self.lines.len() == 0 {
            None
        } else {
            Some(text::join(&self.lines, " | "))
        }
    }
}

/// The lines that are kept of all that were written.
pub open spec fn tail_of(lines: Seq<Seq<char>>) -> Seq<Seq<char>>
    decreases lines.len(),
{
    if lines.len() == 0 {
        Seq::empty()
    } else {
        last_lines(tail_of(lines.drop_last()).push(lines.last()))
    }
}

/// However many lines were written, the last ones are kept.
pub proof fn law_tail_keeps_the_last_lines(lines: Seq<Seq<char>>)
    ensures
        tail_of(lines) == last_lines(lines),
    decreases lines.len(),
{
    if lines.len() > 0 {
        law_tail_keeps_the_last_lines(lines.drop_last());
        assert(tail_of(lines) =~= last_lines(lines));
    } else {
        assert(tail_of(lines) =~= last_lines(lines));
    }
}

/// The message where an engine does not become ready.
pub open spec fn timeout_text(port: u16) -> Seq<char> {
    "inference server on port "@ + text::decimal(port as nat)
        + " did not become ready within 600s"@
}

/// The message where an engine ends before it is ready, with what it wrote where
/// that is known.
pub open spec fn exit_text(port: u16, detail: Option<Seq<char>>) -> Seq<char> {
    "inference server on port "@ + text::decimal(port as nat) + " exited before becoming ready"@
        + match detail {
        Some(d) => ": "@ + d,
        None => Seq::empty(),
    }
}

/// What an engine wrote at the end, where it is known.
pub open spec fn tail_detail(tail: Option<Seq<Seq<char>>>) -> Option<Seq<char>> {
    match tail {
        Some(lines) => if lines.len() > 0 {
            Some(text::join_spec(lines, " | "@))
        } else {
            None
        },
        None => None,
    }
}

/// Why an engine that is being started is given up, if it is: its time is over,
/// or its process has ended.
pub fn start_failure(
    port: u16,
    expired: bool,
    alive: bool,
    tail: Option<&OutputTail>,
) -> (r: Option<String>)
    ensures
        ({
            let lines = match tail {
                Some(t) => Some(t@),
                None => None,
            };
            match r {
                Some(m) => if expired {
                    m@ == timeout_text(port)
                } else {
                    !alive && m@ == exit_text(port, tail_detail(lines))
                },
                None => !expired && alive,
            }
        }),
{
    if !expired && alive {
        return None;
    }
    let mut m = "inference server on port ".to_owned();
    m.append(text::decimal_str(port as u64).as_str());
    if expired {
        m.append(" did not become ready within 600s");
        return Some(m);
    }
    m.append(" exited before becoming ready");
    let detail = match tail {
        Some(t) => t.detail(),
        None => None,
    };
    match detail {
        Some(d) => {
            let mut more = ": ".to_owned();
            more.append(d.as_str());
            m.append(more.as_str());
        },
        None => {
            assert(m@ + Seq::<char>::empty() =~= m@);
        },
    }
    Some(m)
}

/// An address of an engine.
pub fn engine_url(port: u16, path: &str) -> (r: String)
    ensures
        r@ == "http://127.0.0.1:"@ + text::decimal(port as nat) + path@,
{
    let mut s = "http://127.0.0.1:".to_owned();
    s.append(text::decimal_str(port as u64).as_str());
    s.append(path);
    s
}

} // verus!
