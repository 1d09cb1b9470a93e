//! The accelerator of the host: of those whose drivers are there the first one in
//! a fixed order.

use vstd::prelude::*;

use crate::text;

verus! {

/// The accelerator that was found.
#[derive(Debug, Clone, Copy, PartialEq, Eq, Structural)]
pub enum HostGpu {
    NoGpu,
    /// The major version of CUDA that the driver supports.
    Cuda { major: u32 },
    Rocm,
    Vulkan,
    Metal,
}

/// The operating system of the host.
#[derive(Debug, Clone, Copy, PartialEq, Eq, Structural)]
pub enum Os {
    Linux,
    MacOs,
    Windows,
    Other,
}

/// What was found on the host.
pub struct HostProbe {
    pub os: Os,
    /// The processor is of the ARM 64-bit architecture.
    pub aarch64: bool,
    /// What `nvidia-smi` wrote, where it ran and succeeded.
    pub nvidia_smi: Option<Vec<u8>>,
    /// The device of the ROCm driver is there.
    pub kfd: bool,
    /// The names of the devices of the direct rendering interface.
    pub dri: Vec<String>,
    /// A library of AMD's HIP runtime is on the search path.
    pub hip_library: bool,
    /// The library of the Vulkan loader is on the search path.
    pub vulkan_library: bool,
}

/// What follows the first mark of the CUDA version, up to the next mark.
pub open spec fn version_field(s: Seq<char>) -> Option<Seq<char>> {
    let mark = "CUDA Version:"@;
    match text::find(s, mark) {
        Some(i) => {
            let rest = s.skip(i + mark.len());
            match text::find(rest, mark) {
                Some(j) => Some(rest.take(j)),
                None => Some(rest),
            }
        },
        None => None,
    }
}

/// The start of a text up to the first dot or space.
pub open spec fn first_part(s: Seq<char>) -> Seq<char> {
    let dot = text::position(s, '.');
    let space = text::position(s, ' ');
    s.take(
        if dot < space {
            dot
        } else {
            space
        },
    )
}

/// The major version of CUDA in what `nvidia-smi` wrote, if there is one.
pub open spec fn cuda_major(s: Seq<char>) -> Option<u32> {
    match version_field(s) {
        Some(field) => text::u32_of(first_part(text::trim_spec(field))),
        None => None,
    }
}

/// Whether one of the devices is a render node.
pub open spec fn has_render_node(names: Seq<String>) -> bool {
    exists|i: int| 0 <= i < names.len() && "renderD"@.is_prefix_of((#[trigger] names[i])@)
}

/// The accelerator of a host.
pub open spec fn best(p: HostProbe) -> HostGpu {
    let cuda = p.nvidia_smi is Some;
    let major = match cuda_major(text::lossy_text(p.nvidia_smi.unwrap()@)) {
        Some(m) => m,
        None => 12,
    };
    match p.os {
        Os::MacOs => if p.aarch64 {
            HostGpu::Metal
        } else {
            HostGpu::NoGpu
        },
        Os::Linux => if cuda {
            HostGpu::Cuda { major }
        } else if p.kfd {
            HostGpu::Rocm
        } else if has_render_node(p.dri@) {
            HostGpu::Vulkan
        } else {
            HostGpu::NoGpu
        },
        Os::Windows => if cuda {
            HostGpu::Cuda { major }
        } else if p.hip_library {
            HostGpu::Rocm
        } else if p.vulkan_library {
            HostGpu::Vulkan
        } else {
            HostGpu::NoGpu
        },
        Os::Other => HostGpu::NoGpu,
    }
}

/// The major version of CUDA in what `nvidia-smi` wrote, if there is one.
pub fn find_cuda_major(s: &str) -> (r: Option<u32>)
    ensures
        r == cuda_major(s@),
{
    let mark = "CUDA Version:";
    let v = text::to_chars(s);
    match text::find_str(s, mark) {
        None => None,
        Some(i) => {
            let n: usize = text::to_chars(mark).len();
            assert(i + n <= v.len());
            let rest = text::from_chars(&v, i + n, v.len());
            assert(rest@ =~= s@.skip(i + mark@.len()));
            let w = text::to_chars(rest.as_str());
            let field = match text::find_str(rest.as_str(), mark) {
                Some(j) => text::from_chars(&w, 0, j),
                None => rest,
            };
            assert(version_field(s@) == Some(field@)) by {
                if let Some(j) = text::find(rest@, mark@) {
                    assert(field@ =~= rest@.take(j));
                }
            }
            let word = text::trim(field.as_str());
            let x = text::to_chars(word.as_str());
            let dot: usize = text::index_of(&x, 0, '.');
            let space: usize = text::index_of(&x, 0, ' ');
            assert(x@.skip(0) =~= word@);
            let end: usize = if dot < space {
                dot
            } else {
                space
            };
            let part = text::from_chars(&x, 0, end);
            assert(part@ =~= first_part(word@));
            text::parse_u32(part.as_str())
        },
    }
}

/// The major version of CUDA in what `nvidia-smi` wrote: 12, which more drivers
/// support, where there is none.
pub fn parse_nvidia_smi_cuda_major(s: &str) -> (r: u32)
    ensures
        r == match cuda_major(s@) {
            Some(m) => m,
            None => 12,
        },
{
    match find_cuda_major(s) {
        Some(m) => m,
        None => 12,
    }
}

/// Whether one of the devices of the direct rendering interface is a render node.
pub fn has_dri_render_node(names: &Vec<String>) -> (r: bool)
    ensures
        r == has_render_node(names@),
{
    let mut i: usize = 0;
    while i < names.len()
        invariant
            i <= names@.len(),
            forall|j: int| 0 <= j < i ==> !("renderD"@).is_prefix_of((#[trigger] names@[j])@),
        decreases names.len() - i,
    {
        if text::starts_with(names[i].as_str(), "renderD") {
            return true;
        }
        i += 1;
    }
    false
}

fn detect_cuda(p: &HostProbe) -> (r: Option<HostGpu>)
    ensures
        match r {
            Some(g) => p.nvidia_smi is Some && g == (HostGpu::Cuda {
                major: match cuda_major(text::lossy_text(p.nvidia_smi.unwrap()@)) {
                    Some(m) => m,
                    None => 12,
                },
            }),
            None => p.nvidia_smi is None,
        },
{
    match &p.nvidia_smi {
        Some(out) => {
            let s = text::lossy(out.as_slice());
            Some(HostGpu::Cuda { major: parse_nvidia_smi_cuda_major(s.as_str()) })
        },
        None => None,
    }
}

fn detect_linux(p: &HostProbe) -> (r: HostGpu)
    requires
        p.os is Linux,
    ensures
        r == best(*p),
{
    if let Some(g) = detect_cuda(p) {
        return g;
    }
    if p.kfd {
        return HostGpu::Rocm;
    }
    if has_dri_render_node(&p.dri) {
        return HostGpu::Vulkan;
    }
    HostGpu::NoGpu
}

fn detect_windows(p: &HostProbe) -> (r: HostGpu)
    requires
        p.os is Windows,
    ensures
        r == best(*p),
{
    if let Some(g) = detect_cuda(p) {
        return g;
    }
    if p.hip_library {
        return HostGpu::Rocm;
    }
    if p.vulkan_library {
        return HostGpu::Vulkan;
    }
    HostGpu::NoGpu
}

/// The accelerator of a host: CUDA before ROCm before Vulkan on Linux and
/// Windows, and Metal on the ARM machines of macOS.
pub fn detect(p: &HostProbe) -> (r: HostGpu)
    ensures
        r == best(*p),
{
    match p.os {
        Os::MacOs => if p.aarch64 {
            HostGpu::Metal
        } else {
            HostGpu::NoGpu
        },
        Os::Linux => detect_linux(p),
        Os::Windows => detect_windows(p),
        Os::Other => HostGpu::NoGpu,
    }
}

} // verus!
