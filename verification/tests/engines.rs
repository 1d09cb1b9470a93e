use llmman::container::{
    cuda_backend_from_nvidia_smi_output, detect_backend, pull_args, run_args, ContainerManager,
    GpuBackend,
};
use llmman::hostgpu::{detect, parse_nvidia_smi_cuda_major, HostGpu, HostProbe, Os};

const SMI_HEADER_124: &str = "\
+-----------------------------------------------------------------------------+
| NVIDIA-SMI 550.54.15    Driver Version: 550.54.15    CUDA Version: 12.4     |
+-------------------------------+----------------------+----------------------+
";
const SMI_HEADER_130: &str = "\
+-----------------------------------------------------------------------------+
| NVIDIA-SMI 580.65.06    Driver Version: 580.65.06    CUDA Version: 13.0     |
+-------------------------------+----------------------+----------------------+
";

#[test]
fn cuda12_driver_picks_cuda12_image() {
    assert_eq!(
        cuda_backend_from_nvidia_smi_output(SMI_HEADER_124),
        GpuBackend::Cuda12
    );
    assert_eq!(GpuBackend::Cuda12.image_tag(), "server-cuda");
}

#[test]
fn cuda13_driver_picks_cuda13_image() {
    assert_eq!(
        cuda_backend_from_nvidia_smi_output(SMI_HEADER_130),
        GpuBackend::Cuda13
    );
    assert_eq!(GpuBackend::Cuda13.image_tag(), "server-cuda13");
}

#[test]
fn unparseable_output_defaults_to_cuda12() {
    assert_eq!(
        cuda_backend_from_nvidia_smi_output("garbage, no version here"),
        GpuBackend::Cuda12
    );
}

#[test]
fn image_tags_match_docs_docker_md() {
    assert_eq!(GpuBackend::Cpu.image_tag(), "server");
    assert_eq!(GpuBackend::Cuda12.image_tag(), "server-cuda");
    assert_eq!(GpuBackend::Cuda13.image_tag(), "server-cuda13");
    assert_eq!(GpuBackend::Rocm.image_tag(), "server-rocm");
    assert_eq!(GpuBackend::Vulkan.image_tag(), "server-vulkan");
}

#[test]
fn image_ref_uses_floating_tag_when_no_version_given() {
    assert_eq!(GpuBackend::Cpu.image_ref(None), "ghcr.io/ggml-org/llama.cpp:server");
    assert_eq!(
        GpuBackend::Cuda13.image_ref(None),
        "ghcr.io/ggml-org/llama.cpp:server-cuda13"
    );
}

#[test]
fn image_ref_pins_to_the_given_version() {
    assert_eq!(
        GpuBackend::Cpu.image_ref(Some("b9994")),
        "ghcr.io/ggml-org/llama.cpp:server-b9994"
    );
    assert_eq!(
        GpuBackend::Cuda13.image_ref(Some("b9994")),
        "ghcr.io/ggml-org/llama.cpp:server-cuda13-b9994"
    );
}

#[test]
fn cpu_backend_has_no_extra_engine_args() {
    assert!(GpuBackend::Cpu.engine_args().is_empty());
}

#[test]
fn cuda_backend_requests_all_gpus() {
    assert_eq!(GpuBackend::Cuda12.engine_args(), vec!["--gpus", "all"]);
    assert_eq!(GpuBackend::Cuda13.engine_args(), vec!["--gpus", "all"]);
}

#[test]
fn rocm_backend_mounts_kfd_and_dri() {
    let args = GpuBackend::Rocm.engine_args();
    assert_eq!(
        args,
        vec!["--device", "/dev/kfd", "--device", "/dev/dri", "--group-add", "video"]
    );
}

#[test]
fn vulkan_backend_mounts_dri_only() {
    assert_eq!(GpuBackend::Vulkan.engine_args(), vec!["--device", "/dev/dri"]);
}

#[test]
fn container_manager_binary_names() {
    assert_eq!(ContainerManager::Docker.binary(), "docker");
    assert_eq!(ContainerManager::Podman.binary(), "podman");
}

#[test]
fn parses_cuda_major_from_nvidia_smi_header() {
    assert_eq!(parse_nvidia_smi_cuda_major(SMI_HEADER_124), 12);
    assert_eq!(parse_nvidia_smi_cuda_major(SMI_HEADER_130), 13);
}

#[test]
fn defaults_to_12_when_unparseable() {
    assert_eq!(parse_nvidia_smi_cuda_major("garbage, no version here"), 12);
}

#[test]
fn cuda_major_edge_cases() {
    // A sign, an end of text, a second mark.
    assert_eq!(parse_nvidia_smi_cuda_major("CUDA Version: +14"), 14);
    assert_eq!(parse_nvidia_smi_cuda_major("CUDA Version:11.8CUDA Version: 13.0"), 11);
    assert_eq!(parse_nvidia_smi_cuda_major("CUDA Version:CUDA Version: 13.0"), 12);
    // Neither an empty, nor a negative, nor too large a number is one.
    assert_eq!(parse_nvidia_smi_cuda_major("CUDA Version: "), 12);
    assert_eq!(parse_nvidia_smi_cuda_major("CUDA Version: -13"), 12);
    assert_eq!(parse_nvidia_smi_cuda_major("CUDA Version: 4294967296"), 12);
    assert_eq!(parse_nvidia_smi_cuda_major("CUDA Version: 4294967295"), 4_294_967_295);
    assert_eq!(parse_nvidia_smi_cuda_major("CUDA Version: 13x"), 12);
}

fn bare(os: Os) -> HostProbe {
    HostProbe {
        os,
        aarch64: false,
        nvidia_smi: None,
        kfd: false,
        dri: vec![],
        hip_library: false,
        vulkan_library: false,
    }
}

#[test]
fn detection_goes_by_priority() {
    let mut p = bare(Os::Linux);
    assert_eq!(detect(&p), HostGpu::NoGpu);
    assert_eq!(detect_backend(&p), GpuBackend::Cpu);
    p.dri = vec!["card0".to_string(), "renderD128".to_string()];
    assert_eq!(detect(&p), HostGpu::Vulkan);
    assert_eq!(detect_backend(&p), GpuBackend::Vulkan);
    p.kfd = true;
    assert_eq!(detect(&p), HostGpu::Rocm);
    assert_eq!(detect_backend(&p), GpuBackend::Rocm);
    p.nvidia_smi = Some(SMI_HEADER_130.as_bytes().to_vec());
    assert_eq!(detect(&p), HostGpu::Cuda { major: 13 });
    assert_eq!(detect_backend(&p), GpuBackend::Cuda13);
    // Output that is not UTF-8 is read all the same.
    let mut bytes = vec![0xff, 0xfe];
    bytes.extend_from_slice(SMI_HEADER_124.as_bytes());
    p.nvidia_smi = Some(bytes);
    assert_eq!(detect(&p), HostGpu::Cuda { major: 12 });
    assert_eq!(detect_backend(&p), GpuBackend::Cuda12);
}

#[test]
fn detection_elsewhere() {
    let mut w = bare(Os::Windows);
    w.vulkan_library = true;
    assert_eq!(detect(&w), HostGpu::Vulkan);
    w.hip_library = true;
    assert_eq!(detect(&w), HostGpu::Rocm);
    // The devices of Linux do not count there.
    let mut k = bare(Os::Windows);
    k.kfd = true;
    assert_eq!(detect(&k), HostGpu::NoGpu);
    let mut m = bare(Os::MacOs);
    assert_eq!(detect(&m), HostGpu::NoGpu);
    m.aarch64 = true;
    assert_eq!(detect(&m), HostGpu::Metal);
    assert_eq!(detect(&bare(Os::Other)), HostGpu::NoGpu);
}

#[test]
fn container_arguments() {
    assert_eq!(pull_args("image:tag"), vec!["pull", "image:tag"]);
    assert_eq!(
        run_args(GpuBackend::Cuda12, Some("b1"), "/m/dir", "x.gguf", 8080, Some(4096)).join(" "),
        "run --rm --init -t -p 127.0.0.1:8080:8080 -v /m/dir:/models:ro --gpus all \
         ghcr.io/ggml-org/llama.cpp:server-cuda-b1 -m /models/x.gguf --port 8080 --host 0.0.0.0 \
         --ctx-size 4096"
    );
    assert_eq!(
        run_args(GpuBackend::Cpu, None, "/d", "f", 1, None).join(" "),
        "run --rm --init -t -p 127.0.0.1:1:1 -v /d:/models:ro ghcr.io/ggml-org/llama.cpp:server \
         -m /models/f --port 1 --host 0.0.0.0"
    );
}
