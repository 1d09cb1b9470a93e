//! The engine in a container: which image fits the host, and how it is run.

use vstd::prelude::*;

use crate::hostgpu;
use crate::hostgpu::HostProbe;
use crate::text;

verus! {

/// The program that runs containers.
#[derive(Debug, Clone, Copy, PartialEq, Eq, Structural)]
pub enum ContainerManager {
    Docker,
    Podman,
}

impl ContainerManager {
    pub open spec fn name(self) -> Seq<char> {
        match self {
            ContainerManager::Docker => "docker"@,
            ContainerManager::Podman => "podman"@,
        }
    }

    /// The name of the program.
    pub fn binary(self) -> (r: &'static str)
        ensures
            r@ == self.name(),
    {
        match self {
            ContainerManager::Docker => "docker",
            ContainerManager::Podman => "podman",
        }
    }
}

/// The kind of acceleration that an image is built for.
#[derive(Debug, Clone, Copy, PartialEq, Eq, Structural)]
pub enum GpuBackend {
    Cpu,
    Cuda12,
    Cuda13,
    Rocm,
    Vulkan,
}

impl GpuBackend {
    pub open spec fn tag(self) -> Seq<char> {
        match self {
            GpuBackend::Cpu => "server"@,
            GpuBackend::Cuda12 => "server-cuda"@,
            GpuBackend::Cuda13 => "server-cuda13"@,
            GpuBackend::Rocm => "server-rocm"@,
            GpuBackend::Vulkan => "server-vulkan"@,
        }
    }

    /// The image: a version behind the tag pins it to a release.
    pub open spec fn image(self, version: Option<Seq<char>>) -> Seq<char> {
        "ghcr.io/ggml-org/llama.cpp:"@ + self.tag() + match version {
            Some(v) => "-"@ + v,
            None => Seq::empty(),
        }
    }

    /// The arguments by which a container sees the host's devices.
    pub open spec fn device_args(self) -> Seq<Seq<char>> {
        match self {
            GpuBackend::Cpu => Seq::empty(),
            GpuBackend::Cuda12 | GpuBackend::Cuda13 => seq!["--gpus"@, "all"@],
            GpuBackend::Rocm => seq![
                "--device"@,
                "/dev/kfd"@,
                "--device"@,
                "/dev/dri"@,
                "--group-add"@,
                "video"@,
            ],
            GpuBackend::Vulkan => seq!["--device"@, "/dev/dri"@],
        }
    }

    /// The tag of the image.
    pub fn image_tag(self) -> (r: &'static str)
        ensures
            r@ == self.tag(),
    {
        match self {
            GpuBackend::Cpu => "server",
            GpuBackend::Cuda12 => "server-cuda",
            GpuBackend::Cuda13 => "server-cuda13",
            GpuBackend::Rocm => "server-rocm",
            GpuBackend::Vulkan => "server-vulkan",
        }
    }

    /// The image: a version pins it to a release.
    pub fn image_ref(self, version: Option<&str>) -> (r: String)
        ensures
            r@ == self.image(
                text::opt_text(version),
            ),
    {
        let mut s = "ghcr.io/ggml-org/llama.cpp:".to_owned();
        s.append(self.image_tag());
        match version {
            Some(v) => {
                let mut suffix = "-".to_owned();
                suffix.append(v);
                s.append(suffix.as_str());
            },
            None => {
                assert(s@ + Seq::<char>::empty() =~= s@);
            },
        }
        s
    }

    /// The arguments by which a container sees the host's devices.
    pub fn engine_args(self) -> (r: Vec<String>)
        ensures
            text::texts(r@) == self.device_args(),
    {
        let mut args: Vec<String> = Vec::new();
        assert(text::texts(args@) =~= Seq::empty());
        match self {
            GpuBackend::Cpu => {},
            GpuBackend::Cuda12 | GpuBackend::Cuda13 => {
                text::push_text(&mut args, "--gpus");
                text::push_text(&mut args, "all");
            },
            GpuBackend::Rocm => {
                text::push_text(&mut args, "--device");
                text::push_text(&mut args, "/dev/kfd");
                text::push_text(&mut args, "--device");
                text::push_text(&mut args, "/dev/dri");
                text::push_text(&mut args, "--group-add");
                text::push_text(&mut args, "video");
            },
            GpuBackend::Vulkan => {
                text::push_text(&mut args, "--device");
                text::push_text(&mut args, "/dev/dri");
            },
        }
        assert(text::texts(args@) =~= self.device_args());
        args
    }
}

/// The kind of image for what `nvidia-smi` wrote.
pub open spec fn cuda_image(s: Seq<char>) -> GpuBackend {
    match hostgpu::cuda_major(s) {
        Some(m) => if m >= 13 {
            GpuBackend::Cuda13
        } else {
            GpuBackend::Cuda12
        },
        None => GpuBackend::Cuda12,
    }
}

/// The kind of image for a host.
pub open spec fn best(p: HostProbe) -> GpuBackend {
    if p.nvidia_smi is Some {
        cuda_image(text::lossy_text(p.nvidia_smi.unwrap()@))
    } else if p.kfd {
        GpuBackend::Rocm
    } else if hostgpu::has_render_node(p.dri@) {
        GpuBackend::Vulkan
    } else {
        GpuBackend::Cpu
    }
}

/// The kind of image for what `nvidia-smi` wrote: that for CUDA 13 where the
/// driver supports it, and else the one that more drivers support.
pub fn cuda_backend_from_nvidia_smi_output(s: &str) -> (r: GpuBackend)
    ensures
        r == cuda_image(s@),
{
    match hostgpu::find_cuda_major(s) {
        Some(m) => if m >= 13 {
            GpuBackend::Cuda13
        } else {
            GpuBackend::Cuda12
        },
        None => GpuBackend::Cuda12,
    }
}

/// The kind of image for a host: CUDA before ROCm before Vulkan before none.
pub fn detect_backend(p: &HostProbe) -> (r: GpuBackend)
    ensures
        r == best(*p),
{
    if let Some(out) = &p.nvidia_smi {
        let s = text::lossy(out.as_slice());
        return cuda_backend_from_nvidia_smi_output(s.as_str());
    }
    if p.kfd {
        return GpuBackend::Rocm;
    }
    if hostgpu::has_dri_render_node(&p.dri) {
        return GpuBackend::Vulkan;
    }
    GpuBackend::Cpu
}

/// The arguments that fetch an image.
pub fn pull_args(image: &str) -> (r: Vec<String>)
    ensures
        text::texts(r@) == seq!["pull"@, image@],
{
    let mut args: Vec<String> = Vec::new();
    text::push_text(&mut args, "pull");
    text::push_text(&mut args, image);
    assert(text::texts(args@) =~= seq!["pull"@, image@]);
    args
}

/// The size of the context as arguments of the engine; without it the engine
/// takes the model's own.
pub open spec fn context_args(ctx_size: Option<u32>) -> Seq<Seq<char>> {
    match ctx_size {
        Some(n) => seq!["--ctx-size"@, text::decimal(n as nat)],
        None => Seq::empty(),
    }
}

/// The arguments that run an image for a model: attached, with an init process,
/// cleaned up at the end, the model's directory mounted read-only, and the port
/// open to this host alone.
pub open spec fn run_line(
    backend: GpuBackend,
    version: Option<Seq<char>>,
    dir: Seq<char>,
    file: Seq<char>,
    port: nat,
    ctx_size: Option<u32>,
) -> Seq<Seq<char>> {
    let p = text::decimal(port);
    seq![
        "run"@,
        "--rm"@,
        "--init"@,
        "-t"@,
        "-p"@,
        "127.0.0.1:"@ + p + ":"@ + p,
        "-v"@,
        dir + ":/models:ro"@,
    ] + backend.device_args() + seq![
        backend.image(version),
        "-m"@,
        "/models/"@ + file,
        "--port"@,
        p,
        "--host"@,
        "0.0.0.0"@,
    ] + context_args(ctx_size)
}

/// The arguments that run an image for a model.
pub fn run_args(
    backend: GpuBackend,
    version: Option<&str>,
    dir: &str,
    file: &str,
    port: u16,
    ctx_size: Option<u32>,
) -> (r: Vec<String>)
    ensures
        text::texts(r@) == run_line(
            backend,
            text::opt_text(version),
            dir@,
            file@,
            port as nat,
            ctx_size,
        ),
{
    let p = text::decimal_str(port as u64);
    let mut publish = "127.0.0.1:".to_owned();
    publish.append(p.as_str());
    publish.append(":");
    publish.append(p.as_str());
    let mut mount = dir.to_owned();
    mount.append(":/models:ro");
    let mut inside = "/models/".to_owned();
    inside.append(file);
    let image = backend.image_ref(version);
    let mut args: Vec<String> = Vec::new();
    text::push_text(&mut args, "run");
    text::push_text(&mut args, "--rm");
    text::push_text(&mut args, "--init");
    text::push_text(&mut args, "-t");
    text::push_text(&mut args, "-p");
    text::push_text(&mut args, publish.as_str());
    text::push_text(&mut args, "-v");
    text::push_text(&mut args, mount.as_str());
    let mut devices = backend.engine_args();
    let ghost front = args@;
    let ghost dev = devices@;
    args.append(&mut devices);
    assert(text::texts(args@) =~= text::texts(front) + text::texts(dev));
    text::push_text(&mut args, image.as_str());
    text::push_text(&mut args, "-m");
    text::push_text(&mut args, inside.as_str());
    text::push_text(&mut args, "--port");
    text::push_text(&mut args, p.as_str());
    text::push_text(&mut args, "--host");
    text::push_text(&mut args, "0.0.0.0");
    if let Some(n) = ctx_size {
        text::push_text(&mut args, "--ctx-size");
        text::push_text(&mut args, text::decimal_str(n as u64).as_str());
    }
    assert(text::texts(args@) =~= run_line(
        backend,
        text::opt_text(version),
        dir@,
        file@,
        port as nat,
        ctx_size,
    ));
    args
}

/// The image for a host and the accelerator of the same host are of one kind.
pub proof fn law_image_fits_the_host(p: HostProbe)
    requires
        p.os is Linux,
    ensures
        match hostgpu::best(p) {
            hostgpu::HostGpu::Cuda { major } => best(p) == if major >= 13 {
                GpuBackend::Cuda13
            } else {
                GpuBackend::Cuda12
            },
            hostgpu::HostGpu::Rocm => best(p) is Rocm,
            hostgpu::HostGpu::Vulkan => best(p) is Vulkan,
            hostgpu::HostGpu::Metal => false,
            hostgpu::HostGpu::NoGpu => best(p) is Cpu,
        },
{
}

} // verus!
