//! Laws of the engines: which is run for what, how it is called, and when its start
//! is given up.

use vstd::prelude::*;

use crate::cmd::serve::engine;
use crate::cmd::serve::engine::{BinarySource, BinaryStep, Engine, EngineKind, OutputTail};
use crate::cmd::serve::start::{ServeArgs, ServePlan};
use crate::container;
use crate::container::{ContainerManager, GpuBackend};
use crate::hostgpu;
use crate::hostgpu::{HostGpu, HostProbe};
use crate::laws::texts;
use crate::text;

verus! {

/// The texts of strings.
pub open spec fn strings(v: Seq<String>) -> Seq<Seq<char>> {
    Seq::new(v.len(), |i: int| v[i]@)
}

pub proof fn lemma_strings(v: Seq<String>)
    ensures
        strings(v) == text::texts(v),
{
    assert(strings(v) =~= text::texts(v));
}

/// Safetensors files are served by `vllm` on this host in any case; a GGUF file by
/// `llama-server`, in a container exactly where a manager was asked for.
pub proof fn law_which_engine(is_gguf: bool, ociman: Option<ContainerManager>, r: EngineKind)
    requires
        call_ensures(EngineKind::for_model, (is_gguf, ociman), r),
    ensures
        r == EngineKind::Local(Engine::Vllm) <==> !is_gguf,
        is_gguf && ociman is None ==> r == EngineKind::Local(Engine::LlamaServer),
        is_gguf && ociman is Some ==> r == EngineKind::Container(ociman.unwrap()),
{
}

/// Engines are told apart by their names, and a container by its manager.
pub proof fn law_names_of_engines(kind: EngineKind, r: String)
    requires
        call_ensures(EngineKind::processor, (kind,), r),
    ensures
        kind == EngineKind::Local(Engine::LlamaServer) ==> r@ == "llama-server (local)"@,
        kind == EngineKind::Local(Engine::Vllm) ==> r@ == "vllm (local)"@,
        kind == EngineKind::Container(ContainerManager::Docker) ==> r@
            == "llama-server (container/"@ + "docker"@ + ")"@,
        kind == EngineKind::Container(ContainerManager::Podman) ==> r@
            == "llama-server (container/"@ + "podman"@ + ")"@,
{
}

/// The devices of an engine are chosen by these variables.
pub proof fn law_variables_of_devices(r: Vec<String>)
    requires
        call_ensures(engine::gpu_visible_device_vars, (), r),
    ensures
        strings(r@) == seq![
            "CUDA_VISIBLE_DEVICES"@,
            "HIP_VISIBLE_DEVICES"@,
            "ROCR_VISIBLE_DEVICES"@,
            "GGML_VK_VISIBLE_DEVICES"@,
        ],
{
    lemma_strings(r@);
}

/// `llama-server` gets the model and a port of this host alone, and the size of the
/// context exactly where one was asked for.
pub proof fn law_arguments_of_llama_server(
    model: &str,
    port: u16,
    ctx_size: Option<u32>,
    p: String,
    n: String,
    r: Vec<String>,
)
    requires
        call_ensures(engine::llama_server_args, (model, port, ctx_size), r),
        call_ensures(text::decimal_str, (port as u64,), p),
        ctx_size is Some ==> call_ensures(text::decimal_str, (ctx_size.unwrap() as u64,), n),
    ensures
        ctx_size is None ==> strings(r@) == seq![
            "--model"@,
            model@,
            "--port"@,
            p@,
            "--host"@,
            "127.0.0.1"@,
        ],
        ctx_size is Some ==> strings(r@) == seq![
            "--model"@,
            model@,
            "--port"@,
            p@,
            "--host"@,
            "127.0.0.1"@,
            "--ctx-size"@,
            n@,
        ],
{
    lemma_strings(r@);
    if ctx_size is None {
        assert(strings(r@) =~= seq!["--model"@, model@, "--port"@, p@, "--host"@, "127.0.0.1"@]);
    }
}

/// `vllm` gets the directory of the model, a port of this host alone and the name of
/// the model, and behind them the user's own words, each as it is.
pub proof fn law_arguments_of_vllm(
    model_dir: &str,
    port: u16,
    model_name: &str,
    extra: Option<&str>,
    p: String,
    words: Vec<String>,
    r: Vec<String>,
)
    requires
        call_ensures(engine::vllm_args, (model_dir, port, model_name, extra), r),
        call_ensures(text::decimal_str, (port as u64,), p),
        extra is Some ==> call_ensures(text::words, (extra.unwrap(),), words),
        extra is None ==> words@.len() == 0,
    ensures
        strings(r@) == seq![
            "serve"@,
            model_dir@,
            "--port"@,
            p@,
            "--host"@,
            "127.0.0.1"@,
            "--served-model-name"@,
            model_name@,
        ] + strings(words@),
{
    lemma_strings(r@);
    lemma_strings(words@);
    if extra is None {
        assert(strings(words@) =~= engine::extra_words(text::opt_text(extra)));
    }
}

/// The installed program is run exactly where there is one and no release was asked
/// for.
pub proof fn law_which_program(pinned: bool, on_path: bool, r: BinarySource)
    requires
        call_ensures(engine::binary_source, (pinned, on_path), r),
    ensures
        r is OnPath <==> on_path && !pinned,
{
}

/// A program that was found at the start is run as long as it is there, and looked
/// for again where it is gone; one that was never found is missing.
pub proof fn law_what_becomes_of_the_program(known: bool, present: bool, r: BinaryStep)
    requires
        call_ensures(engine::binary_step, (known, present), r),
    ensures
        r is Missing <==> !known,
        r is Use <==> known && present,
        r is Resolve <==> known && !present,
{
}

/// Of an engine's lines the last twenty are kept, each as it is: with less than that
/// a further line is added, and else the first one gives way to it.
pub proof fn law_the_last_lines_are_kept(tail: &mut OutputTail, line: String)
    requires
        call_ensures(OutputTail::push, (tail, line), ()),
        tail@.len() <= 20,
    ensures
        old(tail)@.len() < 20 ==> final(tail)@ == old(tail)@.push(line@),
        old(tail)@.len() == 20 ==> final(tail)@ == old(tail)@.drop_first().push(line@),
{
    assert(old(tail)@.len() == 20 ==> final(tail)@ =~= old(tail)@.drop_first().push(line@));
}

/// No lines are kept of an engine that wrote none.
pub proof fn law_no_lines(r: OutputTail)
    requires
        call_ensures(OutputTail::new, (), r),
    ensures
        r@.len() == 0,
{
}

/// What an engine wrote at the end is told with all its lines, in their order.
pub proof fn law_the_last_lines_are_told(
    tail: &OutputTail,
    lines: &Vec<String>,
    sep: &str,
    joined: String,
    r: Option<String>,
)
    requires
        call_ensures(OutputTail::detail, (tail,), r),
        strings(lines@) == tail@,
        sep@ == " | "@,
        call_ensures(text::join, (lines, sep), joined),
    ensures
        r is Some <==> tail@.len() > 0,
        r is Some ==> r.unwrap()@ == joined@,
{
    lemma_strings(lines@);
}

/// The start of an engine is given up exactly where its time is over or its process
/// has ended. An engine that has ended is given up with what it wrote.
pub proof fn law_when_a_start_is_given_up(
    port: u16,
    expired: bool,
    alive: bool,
    tail: Option<&OutputTail>,
    p: String,
    detail: Option<String>,
    r: Option<String>,
)
    requires
        call_ensures(engine::start_failure, (port, expired, alive, tail), r),
        call_ensures(text::decimal_str, (port as u64,), p),
        tail is Some ==> call_ensures(OutputTail::detail, (tail.unwrap(),), detail),
        tail is None ==> detail is None,
    ensures
        r is None <==> alive && !expired,
        expired ==> r.unwrap()@ == "inference server on port "@ + p@
            + " did not become ready within 600s"@,
        !expired && !alive && detail is None ==> r.unwrap()@ == "inference server on port "@ + p@
            + " exited before becoming ready"@,
        !expired && !alive && detail is Some ==> r.unwrap()@ == "inference server on port "@ + p@
            + " exited before becoming ready"@ + (": "@ + detail.unwrap()@),
{
    if !expired && !alive && detail is None {
        let s = "inference server on port "@ + p@ + " exited before becoming ready"@;
        assert(s + Seq::<char>::empty() =~= s);
    }
}

/// An engine is spoken to on this host, on its port and at the path asked for.
pub proof fn law_addresses_of_engines(port: u16, path: &str, p: String, r: String)
    requires
        call_ensures(engine::engine_url, (port, path), r),
        call_ensures(text::decimal_str, (port as u64,), p),
    ensures
        r@ == "http://127.0.0.1:"@ + p@ + path@,
{
}

/// A program that is not installed is named.
pub proof fn law_missing_programs_are_named(name: &str, r: String)
    requires
        call_ensures(engine::not_on_path, (name,), r),
    ensures
        r@ == name@ + " not found on PATH"@,
{
}

/// What a server does at its start: containers are refused off Linux before all
/// else; an image is fetched with a manager and refused without one; a program is
/// fetched where no image is; and otherwise it serves, with a program of its own
/// exactly where it has no manager.
pub proof fn law_what_a_server_does<P>(args: &ServeArgs<P>, is_linux: bool, r: ServePlan)
    requires
        call_ensures(ServeArgs::<P>::plan, (args, is_linux), r),
    ensures
        r is NotLinux <==> args.ociman is Some && !is_linux,
        r is NoManager <==> args.pull_oci && args.ociman is None,
        r is PullImage <==> args.pull_oci && args.ociman is Some && is_linux,
        r is PullImage ==> r == ServePlan::PullImage(args.ociman.unwrap()),
        r is PullBinary <==> args.pull_bin && !args.pull_oci && (args.ociman is None || is_linux),
        r is Serve ==> r->needs_binary == (args.ociman is None),
{
}

/// A refusal says what is refused, and only a refusal does.
pub proof fn law_refusals_of_a_server(plan: ServePlan, r: Option<&'static str>)
    requires
        call_ensures(ServePlan::refusal, (plan,), r),
    ensures
        plan is NotLinux ==> r is Some && r.unwrap()@ == "--ociman is only supported on Linux"@,
        plan is NoManager ==> r is Some && r.unwrap()@ == "--pull-oci requires --ociman"@,
        !(plan is NotLinux) && !(plan is NoManager) ==> r is None,
{
}

/// A device of the direct rendering interface is a render node by how its name
/// begins, whatever follows.
pub proof fn law_render_nodes(names: &Vec<String>, r: bool)
    requires
        call_ensures(hostgpu::has_dri_render_node, (names,), r),
    ensures
        r <==> exists|i: int|
            0 <= i < names@.len() && "renderD"@.is_prefix_of((#[trigger] names@[i])@),
{
}

proof fn lemma_trimmed_end(s: Seq<char>, k: int)
    requires
        0 < k <= s.len(),
        !texts::white(s[k - 1]),
    ensures
        ({
            let t = text::trim_end_spec(s);
            k <= t.len() <= s.len() && t == s.take(t.len() as int)
        }),
    decreases s.len(),
{
    let t = text::trim_end_spec(s);
    texts::lemma_white(s[k - 1]);
    if text::is_white(s.last()) {
        lemma_trimmed_end(s.drop_last(), k);
        assert(t =~= s.take(t.len() as int));
    } else {
        assert(s.take(s.len() as int) =~= s);
    }
}

/// The major version of CUDA is the number behind the first mark, whatever white
/// space stands before it and whatever follows behind a dot or a space.
pub proof fn law_versions_of_cuda(
    s: &str,
    before: Seq<char>,
    gap: Seq<char>,
    digits: Seq<char>,
    tail: Seq<char>,
    r: Option<u32>,
)
    requires
        call_ensures(hostgpu::find_cuda_major, (s,), r),
        s@ == before + "CUDA Version:"@ + gap + digits + tail,
        forall|j: int| 0 <= j < before.len() ==> !#[trigger] texts::stands_at(
            s@,
            "CUDA Version:"@,
            j,
        ),
        texts::all_white(gap),
        texts::is_digits(digits),
        tail.len() > 0 ==> tail[0] == '.' || tail[0] == ' ',
    ensures
        texts::value(digits) <= u32::MAX ==> r == Some(texts::value(digits) as u32),
        texts::value(digits) > u32::MAX ==> r is None,
{
    let mark = "CUDA Version:"@;
    reveal_strlit("CUDA Version:");
    let i = before.len() as int;
    let rest = gap + digits + tail;
    assert(s@.subrange(i, i + mark.len()) =~= mark);
    assert(texts::stands_at(s@, mark, i));
    texts::lemma_find(s@, mark, 0);
    assert(text::find(s@, mark) == Some(i));
    assert(s@.skip(i + mark.len()) =~= rest);
    texts::lemma_find(rest, mark, 0);
    let d = (gap.len() + digits.len()) as int;
    let end = match text::find(rest, mark) {
        Some(j) => j,
        None => rest.len() as int,
    };
    if end < d {
        assert(texts::stands_at(rest, mark, end));
        assert(rest.subrange(end, end + mark.len())[0] == 'C');
        assert(rest[end] == 'C');
        if end < gap.len() {
            assert(rest[end] == gap[end]);
        } else {
            assert(rest[end] == digits[end - gap.len()]);
            assert('0' <= digits[end - gap.len()] <= '9');
        }
        assert(false);
    }
    let field = rest.take(end);
    assert(rest.take(rest.len() as int) =~= rest);
    let t = digits + tail.take(end - d);
    assert(field =~= gap + t);
    assert('0' <= digits[0] <= '9');
    assert(t[0] == digits[0]);
    texts::lemma_trim_start(gap, t);
    let n = digits.len() as int;
    assert('0' <= digits[n - 1] <= '9');
    assert(t[n - 1] == digits[n - 1]);
    lemma_trimmed_end(t, n);
    let u = text::trim_spec(field);
    assert forall|j: int| 0 <= j < n implies u[j] != '.' && u[j] != ' ' by {
        assert(u[j] == digits[j]);
        assert('0' <= digits[j] <= '9');
    }
    text::lemma_position_bound(u, '.');
    text::lemma_position_bound(u, ' ');
    if u.len() > n {
        assert(u[n] == tail[0]);
        if u[n] == '.' {
            text::lemma_position(u, '.', n);
        } else {
            text::lemma_position(u, ' ', n);
        }
    }
    let dot = text::position(u, '.');
    let space = text::position(u, ' ');
    assert(dot >= n && space >= n);
    assert(dot == n || space == n);
    assert(hostgpu::first_part(u) =~= digits);
    texts::lemma_value(digits);
    assert(text::without_plus(digits) == digits);
    assert forall|j: int| 0 <= j < n implies text::is_digit(#[trigger] digits[j]) by {
        assert('0' <= digits[j] <= '9');
    }
}

proof fn lemma_trimmed(s: Seq<char>) -> (at: int)
    ensures
        0 <= at,
        at + text::trim_spec(s).len() <= s.len(),
        text::trim_spec(s) == s.subrange(at, at + text::trim_spec(s).len()),
{
    let at = lemma_trimmed_start(s);
    let t = text::trim_start_spec(s);
    lemma_trimmed_tail(t);
    assert(text::trim_spec(s) =~= s.subrange(at, at + text::trim_spec(s).len()));
    at
}

proof fn lemma_trimmed_start(s: Seq<char>) -> (at: int)
    ensures
        0 <= at <= s.len(),
        text::trim_start_spec(s) == s.skip(at),
    decreases s.len(),
{
    if s.len() > 0 && text::is_white(s[0]) {
        let at = lemma_trimmed_start(s.drop_first());
        assert(s.drop_first().skip(at) =~= s.skip(at + 1));
        at + 1
    } else {
        assert(s.skip(0) =~= s);
        0
    }
}

proof fn lemma_trimmed_tail(s: Seq<char>)
    ensures
        text::trim_end_spec(s).len() <= s.len(),
        text::trim_end_spec(s) == s.take(text::trim_end_spec(s).len() as int),
    decreases s.len(),
{
    let t = text::trim_end_spec(s);
    if s.len() > 0 && text::is_white(s.last()) {
        lemma_trimmed_tail(s.drop_last());
        assert(t =~= s.take(t.len() as int));
    } else {
        assert(s.take(s.len() as int) =~= s);
    }
}

/// A version of CUDA is never made up: digits that stand somewhere behind a mark, in
/// what the driver wrote, make it.
pub proof fn law_versions_of_cuda_are_read(s: &str, r: Option<u32>)
    requires
        call_ensures(hostgpu::find_cuda_major, (s,), r),
        r is Some,
    ensures
        exists|d: Seq<char>, i: int, k: int| #[trigger]
            texts::stands_at(s@, "CUDA Version:"@, i) && #[trigger] texts::stands_at(s@, d, k) && k
                >= i + "CUDA Version:"@.len() && texts::is_digits(d) && texts::value(d)
                == r.unwrap(),
{
    let mark = "CUDA Version:"@;
    texts::lemma_find(s@, mark, 0);
    let i = text::find(s@, mark).unwrap();
    let start = i + mark.len();
    let rest = s@.skip(start);
    texts::lemma_find(rest, mark, 0);
    let field = hostgpu::version_field(s@).unwrap();
    let end = field.len() as int;
    assert(field =~= rest.take(end)) by {
        if text::find(rest, mark) is None {
            assert(rest.take(rest.len() as int) =~= rest);
        }
    }
    let at = lemma_trimmed(field);
    let word = text::trim_spec(field);
    text::lemma_position_bound(word, '.');
    text::lemma_position_bound(word, ' ');
    let part = hostgpu::first_part(word);
    let d = text::without_plus(part);
    let plus: int = if d == part {
        0
    } else {
        1
    };
    let k = start + at + plus;
    assert(s@.subrange(k, k + d.len()) =~= d) by {
        assert forall|j: int| 0 <= j < d.len() implies s@[k + j] == d[j] by {
            assert(d[j] == part[plus + j]);
            assert(part[plus + j] == word[plus + j]);
            assert(word[plus + j] == field[at + plus + j]);
            assert(field[at + plus + j] == rest[at + plus + j]);
        }
    }
    assert forall|j: int| 0 <= j < d.len() implies '0' <= #[trigger] d[j] <= '9' by {
        assert(text::is_digit(d[j]));
    }
    texts::lemma_value(d);
    assert(texts::stands_at(s@, mark, i));
    assert(texts::stands_at(s@, d, k));
}

/// Without a mark there is no version of CUDA, and twelve is taken for one.
pub proof fn law_no_version_of_cuda(s: &str, r: Option<u32>, m: u32)
    requires
        call_ensures(hostgpu::find_cuda_major, (s,), r),
        call_ensures(hostgpu::parse_nvidia_smi_cuda_major, (s,), m),
    ensures
        (forall|j: int| !#[trigger] texts::stands_at(s@, "CUDA Version:"@, j)) ==> r is None,
        r is Some ==> m == r.unwrap(),
        r is None ==> m == 12,
{
    texts::lemma_find(s@, "CUDA Version:"@, 0);
}

/// The accelerator of a host, whatever else is found on it: CUDA before ROCm before
/// Vulkan on Linux and on Windows, each by what tells of it there, Metal on the ARM
/// machines of macOS alone, and none elsewhere.
pub proof fn law_accelerators(p: &HostProbe, nodes: bool, smi: &str, major: u32, r: HostGpu)
    requires
        call_ensures(hostgpu::detect, (p,), r),
        call_ensures(hostgpu::has_dri_render_node, (&p.dri,), nodes),
        p.nvidia_smi is Some ==> smi@ == text::lossy_text(p.nvidia_smi.unwrap()@)
            && call_ensures(hostgpu::parse_nvidia_smi_cuda_major, (smi,), major),
    ensures
        r is Cuda <==> p.nvidia_smi is Some && (p.os is Linux || p.os is Windows),
        r is Cuda ==> r == (HostGpu::Cuda { major }),
        r is Rocm <==> p.nvidia_smi is None && ((p.os is Linux && p.kfd) || (p.os is Windows
            && p.hip_library)),
        r is Vulkan <==> p.nvidia_smi is None && ((p.os is Linux && !p.kfd && nodes) || (
        p.os is Windows && !p.hip_library && p.vulkan_library)),
        r is Metal <==> p.os is MacOs && p.aarch64,
{
}

/// The image for a host: for CUDA, that of the version where it is thirteen or
/// later and else that of twelve; then ROCm, then Vulkan, then none.
pub proof fn law_images(p: &HostProbe, nodes: bool, smi: &str, major: u32, r: GpuBackend)
    requires
        call_ensures(container::detect_backend, (p,), r),
        call_ensures(hostgpu::has_dri_render_node, (&p.dri,), nodes),
        p.nvidia_smi is Some ==> smi@ == text::lossy_text(p.nvidia_smi.unwrap()@)
            && call_ensures(hostgpu::parse_nvidia_smi_cuda_major, (smi,), major),
    ensures
        r is Cuda13 <==> p.nvidia_smi is Some && major >= 13,
        r is Cuda12 <==> p.nvidia_smi is Some && major < 13,
        r is Rocm <==> p.nvidia_smi is None && p.kfd,
        r is Vulkan <==> p.nvidia_smi is None && !p.kfd && nodes,
{
}

/// The same of what the driver wrote.
pub proof fn law_images_of_cuda(smi: &str, major: u32, r: GpuBackend)
    requires
        call_ensures(container::cuda_backend_from_nvidia_smi_output, (smi,), r),
        call_ensures(hostgpu::parse_nvidia_smi_cuda_major, (smi,), major),
    ensures
        major >= 13 ==> r is Cuda13,
        major < 13 ==> r is Cuda12,
{
}

/// Images are told apart by their tags, and pinned by a version behind it.
pub proof fn law_names_of_images(
    backend: GpuBackend,
    version: Option<&str>,
    tag: &'static str,
    r: String,
)
    requires
        call_ensures(GpuBackend::image_ref, (backend, version), r),
        call_ensures(GpuBackend::image_tag, (backend,), tag),
    ensures
        backend is Cpu ==> tag@ == "server"@,
        backend is Cuda12 ==> tag@ == "server-cuda"@,
        backend is Cuda13 ==> tag@ == "server-cuda13"@,
        backend is Rocm ==> tag@ == "server-rocm"@,
        backend is Vulkan ==> tag@ == "server-vulkan"@,
        version is None ==> r@ == "ghcr.io/ggml-org/llama.cpp:"@ + tag@,
        version is Some ==> r@ == "ghcr.io/ggml-org/llama.cpp:"@ + tag@ + ("-"@
            + version.unwrap()@),
{
    if version is None {
        let s = "ghcr.io/ggml-org/llama.cpp:"@ + tag@;
        assert(s + Seq::<char>::empty() =~= s);
    }
}

/// A container sees the devices that its image is built for, and no others.
pub proof fn law_devices_of_images(backend: GpuBackend, r: Vec<String>)
    requires
        call_ensures(GpuBackend::engine_args, (backend,), r),
    ensures
        backend is Cpu ==> r@.len() == 0,
        backend is Cuda12 || backend is Cuda13 ==> strings(r@) == seq!["--gpus"@, "all"@],
        backend is Rocm ==> strings(r@) == seq![
            "--device"@,
            "/dev/kfd"@,
            "--device"@,
            "/dev/dri"@,
            "--group-add"@,
            "video"@,
        ],
        backend is Vulkan ==> strings(r@) == seq!["--device"@, "/dev/dri"@],
{
    lemma_strings(r@);
    assert(strings(r@).len() == r@.len());
}

/// An image is run for one model: attached and cleaned up, with the model's
/// directory mounted for reading alone, its port open to this host alone, the
/// devices that it is built for, and the size of the context exactly where one was
/// asked for.
pub proof fn law_how_an_image_is_run(
    backend: GpuBackend,
    version: Option<&str>,
    dir: &str,
    file: &str,
    port: u16,
    ctx_size: Option<u32>,
    p: String,
    n: String,
    image: String,
    devices: Vec<String>,
    r: Vec<String>,
)
    requires
        call_ensures(container::run_args, (backend, version, dir, file, port, ctx_size), r),
        call_ensures(text::decimal_str, (port as u64,), p),
        ctx_size is Some ==> call_ensures(text::decimal_str, (ctx_size.unwrap() as u64,), n),
        call_ensures(GpuBackend::image_ref, (backend, version), image),
        call_ensures(GpuBackend::engine_args, (backend,), devices),
    ensures
        ({
            let all = seq![
                "run"@,
                "--rm"@,
                "--init"@,
                "-t"@,
                "-p"@,
                "127.0.0.1:"@ + p@ + ":"@ + p@,
                "-v"@,
                dir@ + ":/models:ro"@,
            ] + strings(devices@) + seq![
                image@,
                "-m"@,
                "/models/"@ + file@,
                "--port"@,
                p@,
                "--host"@,
                "0.0.0.0"@,
            ];
            &&& ctx_size is None ==> strings(r@) == all
            &&& ctx_size is Some ==> strings(r@) == all + seq!["--ctx-size"@, n@]
        }),
{
    lemma_strings(r@);
    lemma_strings(devices@);
    if ctx_size is None {
        let all = strings(r@);
        assert(container::context_args(ctx_size) =~= Seq::<Seq<char>>::empty());
    }
}

/// An image is fetched by its name.
pub proof fn law_how_an_image_is_fetched(image: &str, r: Vec<String>)
    requires
        call_ensures(container::pull_args, (image,), r),
    ensures
        strings(r@) == seq!["pull"@, image@],
{
    lemma_strings(r@);
}

/// The program of a manager has its name.
pub proof fn law_programs_of_managers(m: ContainerManager, r: &'static str)
    requires
        call_ensures(ContainerManager::binary, (m,), r),
    ensures
        m is Docker ==> r@ == "docker"@,
        m is Podman ==> r@ == "podman"@,
{
}

} // verus!
