//! Laws of what the operations can be given: they refuse nothing but what their
//! contracts name.

use vstd::prelude::*;

use crate::archive;
use crate::clock;
use crate::cmd::bench;
use crate::cmd::list;
use crate::cmd::login;
use crate::cmd::ps;
use crate::cmd::pull;
use crate::cmd::readline;
use crate::cmd::run;
use crate::cmd::serve::anthropic;
use crate::cmd::serve::api;
use crate::cmd::serve::chat;
use crate::cmd::serve::engine;
use crate::cmd::serve::load;
use crate::cmd::serve::props;
use crate::cmd::serve::registry;
use crate::cmd::serve::responses;
use crate::cmd::serve::start;
use crate::cmd::serve::stream;
use crate::cmd::table;
use crate::cmd::transfer;
use crate::container;
use crate::daemon;
use crate::ffi;
use crate::fmt;
use crate::hostgpu;
use crate::json as js;
use crate::keyed;
use crate::modelpack;
use crate::paths;
use crate::shortnames;
use crate::storage;
use crate::text;

verus! {

/// The operations of archives take whatever they are given.
pub proof fn law_any_input_of_archives(
    records: &Vec<Option<(Vec<u8>, Vec<u8>)>>,
    bytes: &[u8],
)
    ensures
        call_requires(archive::size_in_records, (records,)),
        call_requires(archive::readable_len, (bytes,)),
        call_requires(archive::members, (bytes,)),
{
}

/// The operations of measuring take whatever they are given.
pub proof fn law_any_input_of_measuring<F>(
    bench_arg_error: &bench::BenchArgError,
    args: &bench::BenchArgs<F>,
    k: u32,
    sample: &bench::Sample,
    samples: &[bench::Sample],
    bench_delta: &bench::BenchDelta,
    measurement_mut: &mut bench::Measurement,
    s: &str,
    maybe_bench_chunk: Option<&bench::BenchChunk>,
    duration: std::time::Duration,
    measurement: &bench::Measurement,
    bench_rows: &Vec<bench::BenchRow>,
)
    ensures
        call_requires(bench::BenchArgError::message, (bench_arg_error,)),
        call_requires(bench::BenchArgs::<F>::check, (args,)),
        call_requires(bench::BenchArgs::<F>::sent_prompt, (args,)),
        call_requires(bench::synthetic_prompt, (k,)),
        call_requires(bench::prefill_span, (sample,)),
        call_requires(bench::decode_span, (sample,)),
        call_requires(bench::Sample::checked_mean, (samples,)),
        call_requires(bench::BenchDelta::has_any_token, (bench_delta,)),
        call_requires(bench::Measurement::new, ()),
        call_requires(
            bench::Measurement::on_payload,
            (measurement_mut, s, maybe_bench_chunk, duration),
        ),
        call_requires(bench::Measurement::finish, (measurement, s, duration)),
        call_requires(bench::bench_table, (bench_rows,)),
        call_requires(bench::bench_csv, (bench_rows,)),
{
}

/// The operations of the table of the store take whatever they are given.
pub proof fn law_any_input_of_listing(
    images: &Vec<list::Image>,
    system_time: std::time::SystemTime,
)
    ensures
        call_requires(list::list_table_at, (images, system_time)),
        call_requires(list::list_table, (images,)),
{
}

/// The operations of logging in take whatever they are given.
pub proof fn law_any_input_of_logging_in(
    login_args: &login::LoginArgs,
    yes: bool,
    s: &str,
    maybe_s: Option<&str>,
)
    ensures
        call_requires(login::LoginArgs::server, (login_args,)),
        call_requires(login::LoginArgs::plan, (login_args, yes)),
        call_requires(login::login_report, (s, maybe_s)),
        call_requires(login::typed_line, (s,)),
{
}

/// The operations of the table of models that run take whatever they are given.
pub proof fn law_any_input_of_showing_models(
    ps_models: Vec<ps::PsModel>,
    maybe_s: Option<&str>,
    instant: clock::Instant,
)
    ensures
        call_requires(ps::ps_table_at, (ps_models, maybe_s, instant)),
        call_requires(ps::ps_table, (ps_models, maybe_s)),
{
}

/// The operations of pulling take whatever they are given.
pub proof fn law_any_input_of_pulling(s: &str)
    ensures
        call_requires(pull::pull_report, (s,)),
{
}

/// The operations of the line editor take whatever they are given.
pub proof fn law_any_input_of_the_editor(
    readline: &readline::Readline,
    readline_mut: &mut readline::Readline,
    s: &str,
    key: readline::Key,
)
    ensures
        call_requires(readline::Readline::new, ()),
        call_requires(readline::Readline::pasting, (readline,)),
        call_requires(readline::Readline::begin, (readline_mut, s)),
        call_requires(readline::Readline::feed, (readline_mut, key)),
{
}

/// The operations of sessions take whatever they are given.
pub proof fn law_any_input_of_sessions(
    run_args: &run::RunArgs,
    yes: bool,
    s: &str,
    repl: &run::Repl,
    repl_mut: &mut run::Repl,
    read: Result<Option<String>, readline::ReadlineError>,
    maybe_s: Option<&str>,
    messages_mut: &mut Vec<run::Msg>,
    a: String,
    messages: &Vec<run::Msg>,
    maybe_chat_options: run::ChatOptions,
    chat_reply_mut: &mut run::ChatReply,
    maybe_chat_chunk: Option<&run::ChatChunk>,
    chat_reply: run::ChatReply,
)
    ensures
        call_requires(run::RunArgs::options, (run_args,)),
        call_requires(run::RunArgs::mode, (run_args, yes)),
        call_requires(run::prompt_from_input, (s,)),
        call_requires(run::Repl::new, ()),
        call_requires(run::Repl::prompt, (repl,)),
        call_requires(run::Repl::on_read, (repl_mut, read, yes)),
        call_requires(run::on_cooked_line, (maybe_s,)),
        call_requires(run::begin_turn, (messages_mut, a)),
        call_requires(run::chat_request, (s, messages, maybe_chat_options)),
        call_requires(run::ChatReply::new, ()),
        call_requires(run::ChatReply::on_line, (chat_reply_mut, maybe_chat_chunk)),
        call_requires(run::ChatReply::finish, (chat_reply, messages_mut)),
{
}

/// The operations of the Messages API take whatever they are given.
pub proof fn law_any_input_of_the_messages_api<F: Copy>(
    anthropic_content: &anthropic::AnthropicContent,
    req: &anthropic::AnthropicRequest<F>,
    a: String,
    penalty: F,
    number: u128,
    s: &str,
    maybe_chunk: Option<&stream::OAIChunk>,
    t: &str,
    document: &serde_json::Value,
)
    ensures
        call_requires(anthropic::AnthropicContent::as_text, (anthropic_content,)),
        call_requires(anthropic::build_anthropic_messages::<F>, (req,)),
        call_requires(anthropic::anthropic_request::<F>, (req, a, penalty)),
        call_requires(anthropic::id_at, (number,)),
        call_requires(anthropic::gen_id, ()),
        call_requires(anthropic::anthropic_preamble, (a, s)),
        call_requires(anthropic::anthropic_events, (s, maybe_chunk)),
        call_requires(anthropic::anthropic_response, (s, t, document)),
{
}

/// The operations of the replies of the server take whatever they are given.
pub proof fn law_any_input_of_replies(
    ollama_show_request: &api::OllamaShowRequest,
    aliases: &shortnames::Aliases,
    ollama_pull_request: &api::OllamaPullRequest,
    maybe_s: Option<&str>,
    s: &str,
    transfer_end: &api::TransferEnd,
    t: &str,
    maybe_progress_snapshot: Option<&ffi::ProgressSnapshot>,
    image: &list::Image,
    size: u64,
    port: u16,
    maybe_k: Option<u32>,
    engine_kind: engine::EngineKind,
    u: &str,
    maybe_size: Option<u64>,
    document: &serde_json::Value,
    found: &Option<storage::Descriptor>,
    yes: bool,
    documents: Vec<serde_json::Value>,
    k: u32,
)
    ensures
        call_requires(api::OllamaShowRequest::reference, (ollama_show_request, aliases)),
        call_requires(api::OllamaPullRequest::reference, (ollama_pull_request, aliases)),
        call_requires(api::wants_html, (maybe_s,)),
        call_requires(api::error_body, (s,)),
        call_requires(api::not_found, (s,)),
        call_requires(api::status_line, (s,)),
        call_requires(api::error_line, (s,)),
        call_requires(api::end_line, (s, transfer_end)),
        call_requires(api::progress_line, (s, t, maybe_progress_snapshot)),
        call_requires(api::model_info, (image,)),
        call_requires(api::running_info, (s, t, size, port, maybe_k, engine_kind, u, maybe_size)),
        call_requires(api::context_length, (document,)),
        call_requires(api::show_response, (found,)),
        call_requires(api::openai_model, (s, yes)),
        call_requires(api::openai_models, (documents,)),
        call_requires(api::version_response, (s, maybe_s, k)),
{
}

/// The operations of chats take whatever they are given.
pub proof fn law_any_input_of_chats<F: Copy>(
    maybe_document: &Option<serde_json::Value>,
    s: &str,
    ollama_chat_request: &chat::OllamaChatRequest,
    a: String,
    sampling: chat::Sampling<F>,
    penalty: F,
    ollama_generate_request: &chat::OllamaGenerateRequest,
)
    ensures
        call_requires(chat::bool_true, ()),
        call_requires(chat::think_to_chat_template_kwargs, (maybe_document,)),
        call_requires(chat::opt_u32, (maybe_document, s)),
        call_requires(chat::opt_number, (maybe_document, s)),
        call_requires(chat::chat_request::<F>, (ollama_chat_request, a, sampling, penalty)),
        call_requires(
            chat::generate_request::<F>,
            (ollama_generate_request, a, sampling, penalty),
        ),
        call_requires(chat::generate_kind, (ollama_generate_request,)),
{
}

/// The operations of engines take whatever they are given.
pub proof fn law_any_input_of_engines(
    yes: bool,
    maybe_container_manager: Option<container::ContainerManager>,
    engine_kind: engine::EngineKind,
    s: &str,
    port: u16,
    maybe_k: Option<u32>,
    t: &str,
    maybe_s: Option<&str>,
    no: bool,
    output_tail_mut: &mut engine::OutputTail,
    a: String,
    output_tail: &engine::OutputTail,
    maybe_output_tail: Option<&engine::OutputTail>,
)
    ensures
        call_requires(engine::EngineKind::for_model, (yes, maybe_container_manager)),
        call_requires(engine::EngineKind::processor, (engine_kind,)),
        call_requires(engine::gpu_visible_device_vars, ()),
        call_requires(engine::llama_server_args, (s, port, maybe_k)),
        call_requires(engine::vllm_args, (s, port, t, maybe_s)),
        call_requires(engine::binary_source, (yes, no)),
        call_requires(engine::binary_step, (yes, no)),
        call_requires(engine::not_on_path, (s,)),
        call_requires(engine::OutputTail::new, ()),
        call_requires(engine::OutputTail::push, (output_tail_mut, a)),
        call_requires(engine::OutputTail::detail, (output_tail,)),
        call_requires(engine::start_failure, (port, yes, no, maybe_output_tail)),
        call_requires(engine::engine_url, (port, s)),
{
}

/// The operations of loading take whatever they are given, where
/// it is what they are for.
pub proof fn law_any_input_of_loading(
    s: &str,
    aliases: &shortnames::Aliases,
    loader: &load::Loader,
    loader_mut: &mut load::Loader,
    load_event: load::LoadEvent,
)
    ensures
        call_requires(load::Loader::begin, (s, aliases)),
        call_requires(load::Loader::name, (loader,)),
        call_requires(load::Loader::lock_key, (loader,)),
        call_requires(load::Loader::phase, (loader,)),
        old(loader_mut)@.expects(load_event) ==>
            call_requires(
                load::Loader::step,
                (loader_mut, load_event),
            ),
{
}

/// The operations of the web page take whatever they are given.
pub proof fn law_any_input_of_the_page(s: &str)
    ensures
        call_requires(props::props, (s,)),
{
}

/// The operations of what the server keeps take whatever they are given, where
/// it is what they are for.
pub proof fn law_any_input_of_the_registry<L, P>(
    locks: &registry::KeyedLocks<L>,
    s: &str,
    locks_mut: &mut registry::KeyedLocks<L>,
    fresh: L,
    n: usize,
    process: P,
    engine_kind: engine::EngineKind,
    port: u16,
    a: String,
    size: u64,
    models_mut: &mut registry::ModelManager<P>,
    yes: bool,
    running: registry::RunningModel<P>,
    models: &registry::ModelManager<P>,
)
    ensures
        call_requires(registry::KeyedLocks::<L>::new, ()),
        call_requires(registry::KeyedLocks::<L>::get, (locks, s)),
        call_requires(registry::KeyedLocks::<L>::keyed_lock, (locks_mut, s, fresh)),
        call_requires(registry::KeyedLocks::<L>::release_keyed_lock, (locks_mut, s, n)),
        call_requires(registry::RunningModel::<P>::started, (process, engine_kind, port, a, size)),
        call_requires(registry::ModelManager::<P>::new, ()),
        old(models_mut).wf() ==>
            call_requires(
                registry::ModelManager::<P>::process_mut,
                (models_mut, s),
            ),
        old(models_mut).wf() ==>
            call_requires(
                registry::ModelManager::<P>::check_running,
                (models_mut, s, yes),
            ),
        old(models_mut).wf() ==>
            call_requires(
                registry::ModelManager::<P>::publish,
                (models_mut, a, running),
            ),
        old(models_mut).wf() ==>
            call_requires(
                registry::ModelManager::<P>::unload,
                (models_mut, s),
            ),
        call_requires(registry::ModelManager::<P>::clear, (models_mut,)),
        models.wf() ==> call_requires(registry::ModelManager::<P>::is_loaded, (models, s)),
        call_requires(registry::ModelManager::<P>::len, (models,)),
        models.wf() && n < models.names().len() ==>
            call_requires(
                registry::ModelManager::<P>::entry,
                (models, n),
            ),
{
}

/// The operations of the OpenAI API take whatever they are given, where
/// it is what they are for.
pub proof fn law_any_input_of_the_openai_api(
    body_error: &responses::BodyError,
    document_mut: &mut serde_json::Value,
    document: &serde_json::Value,
    bytes: &[u8],
    owned_document: serde_json::Value,
    a: String,
)
    ensures
        call_requires(responses::BodyError::context, (body_error,)),
        call_requires(responses::filter_non_function_tools, (document_mut,)),
        call_requires(responses::responses_input_item_text, (document,)),
        call_requires(responses::consolidate_responses_instructions, (document_mut,)),
        call_requires(responses::sanitize_responses_request, (bytes,)),
        call_requires(responses::read_openai_request, (bytes,)),
        call_requires(responses::takes_a_model, (document,)),
        js::json(owned_document) is Object || js::json(owned_document) is Null ==>
            call_requires(
                responses::write_openai_request,
                (owned_document, a),
            ),
{
}

/// The operations of the start of the server take whatever they are given.
pub proof fn law_any_input_of_starting<P>(
    args: &start::ServeArgs<P>,
    yes: bool,
    serve_plan: start::ServePlan,
)
    ensures
        call_requires(start::ServeArgs::<P>::plan, (args, yes)),
        call_requires(start::ServePlan::refusal, (serve_plan,)),
{
}

/// The operations of streams take whatever they are given.
pub proof fn law_any_input_of_streams(
    line_buffer_mut: &mut stream::LineBuffer,
    bytes: &[u8],
    pieces: &Vec<Vec<u8>>,
    s: &str,
    maybe_chunk: Option<&stream::OAIChunk>,
    completion_mut: &mut stream::Completion,
    said: (String, Option<String>, bool),
    yes: bool,
)
    ensures
        call_requires(stream::LineBuffer::new, ()),
        call_requires(stream::LineBuffer::push, (line_buffer_mut, bytes)),
        call_requires(stream::LineBuffer::next_line, (line_buffer_mut,)),
        call_requires(stream::LineBuffer::finish, (line_buffer_mut,)),
        call_requires(stream::bytes_to_lines, (pieces,)),
        call_requires(stream::sse_payload, (s,)),
        call_requires(stream::oai_chunk_to_content, (s, maybe_chunk)),
        call_requires(stream::completion_payloads, (bytes,)),
        call_requires(stream::Completion::new, ()),
        call_requires(stream::Completion::on_payload, (completion_mut, s, maybe_chunk)),
        call_requires(stream::chat_chunk, (s, said)),
        call_requires(stream::generate_chunk, (s, said)),
        call_requires(stream::loading_chunk, (s, yes)),
{
}

/// The operations of tables take whatever they are given.
pub proof fn law_any_input_of_tables(
    s: &str,
    n: usize,
    m: usize,
)
    ensures
        call_requires(table::pad, (s, n)),
        call_requires(table::pad_left, (s, n)),
        call_requires(table::byte_len, (s,)),
        call_requires(table::wider, (n, m)),
{
}

/// The operations of transfers take whatever they are given.
pub proof fn law_any_input_of_transfers(
    transfer_args: &transfer::TransferArgs,
    aliases: &shortnames::Aliases,
    yes: bool,
    s: &str,
    t: &str,
)
    ensures
        call_requires(transfer::TransferArgs::endpoints, (transfer_args, aliases)),
        call_requires(transfer::transfer_report, (yes, s, t)),
{
}

/// The operations of containers take whatever they are given.
pub proof fn law_any_input_of_containers(
    container_manager: container::ContainerManager,
    gpu_backend: container::GpuBackend,
    maybe_s: Option<&str>,
    s: &str,
    host_probe: &hostgpu::HostProbe,
    t: &str,
    port: u16,
    maybe_k: Option<u32>,
)
    ensures
        call_requires(container::ContainerManager::binary, (container_manager,)),
        call_requires(container::GpuBackend::image_tag, (gpu_backend,)),
        call_requires(container::GpuBackend::image_ref, (gpu_backend, maybe_s)),
        call_requires(container::GpuBackend::engine_args, (gpu_backend,)),
        call_requires(container::cuda_backend_from_nvidia_smi_output, (s,)),
        call_requires(container::detect_backend, (host_probe,)),
        call_requires(container::pull_args, (s,)),
        call_requires(container::run_args, (gpu_backend, maybe_s, s, t, port, maybe_k)),
{
}

/// The operations of the client of the server take whatever they are given.
pub proof fn law_any_input_of_the_client(
    yes: bool,
    maybe_s: Option<&str>,
    s: &str,
    k: u32,
    maybe_yes: Option<bool>,
    bytes: &[u8],
    byte_order: daemon::ByteOrder,
    port: u16,
    processs: &Vec<daemon::Process>,
    progress_mut: &mut daemon::Progress,
    maybe_progress_line: Option<&daemon::ProgressLine>,
    progress: &daemon::Progress,
)
    ensures
        call_requires(daemon::server_plan, (yes, maybe_s, s)),
        call_requires(daemon::serve_args, (s,)),
        call_requires(daemon::start_step, (k, yes)),
        call_requires(daemon::stop_step, (k, yes)),
        call_requires(daemon::ensure_model_pulled, (maybe_yes,)),
        call_requires(daemon::build_fingerprint, (bytes,)),
        call_requires(daemon::listening_inode, (s, byte_order, port)),
        call_requires(daemon::pid_listening_on, (s, byte_order, processs, port)),
        call_requires(daemon::Progress::new, ()),
        call_requires(daemon::Progress::on_line, (progress_mut, s, maybe_progress_line)),
        call_requires(daemon::Progress::finish, (progress, s)),
{
}

/// The operations of the registry client take whatever they are given.
pub proof fn law_any_input_of_the_registry_client(
    go_response: ffi::GoResponse,
    s: &str,
)
    ensures
        call_requires(ffi::consume, (go_response,)),
        call_requires(ffi::is_c_string, (s,)),
        call_requires(ffi::is_changed, (s,)),
{
}

/// The operations of what is shown take whatever they are given.
pub proof fn law_any_input_of_showing(
    s: &str,
    size: u64,
    maybe_system_time: Option<std::time::SystemTime>,
    system_time: std::time::SystemTime,
    instant: clock::Instant,
)
    ensures
        call_requires(fmt::short_id, (s,)),
        call_requires(fmt::human_size, (size,)),
        call_requires(fmt::relative_time_secs, (size,)),
        call_requires(fmt::relative_time_at, (maybe_system_time, system_time)),
        call_requires(fmt::relative_time, (maybe_system_time,)),
        call_requires(fmt::relative_time_rfc3339_at, (s, instant)),
        call_requires(fmt::relative_time_rfc3339, (s,)),
{
}

/// The operations of the accelerator of the host take whatever they are given.
pub proof fn law_any_input_of_the_host(
    s: &str,
    strings: &Vec<String>,
    host_probe: &hostgpu::HostProbe,
)
    ensures
        call_requires(hostgpu::find_cuda_major, (s,)),
        call_requires(hostgpu::parse_nvidia_smi_cuda_major, (s,)),
        call_requires(hostgpu::has_dri_render_node, (strings,)),
        call_requires(hostgpu::detect, (host_probe,)),
{
}

/// The operations of maps of texts take whatever they are given.
pub proof fn law_any_input_of_maps(
    text_map: keyed::TextMap,
    a: String,
    b: String,
    text_map_ref: &keyed::TextMap,
    s: &str,
)
    ensures
        call_requires(keyed::TextMap::new, ()),
        call_requires(keyed::TextMap::with, (text_map, a, b)),
        call_requires(keyed::TextMap::get, (text_map_ref, s)),
{
}

/// The operations of the files of models take whatever they are given.
pub proof fn law_any_input_of_files<P>(
    files: &modelpack::ModelPath<P>,
    s: &str,
    layer: &storage::Descriptor,
    layers: &Vec<storage::Descriptor>,
    style: paths::Style,
    manifest: &storage::Manifest,
    strings: &Vec<String>,
    gguf_plan: &modelpack::GgufPlan,
    yes: bool,
    bytes: &[u8],
    members: &Vec<Option<Vec<u8>>>,
)
    ensures
        call_requires(modelpack::ModelPath::<P>::path, (files,)),
        call_requires(modelpack::ModelPath::<P>::format, (files,)),
        call_requires(modelpack::digest_hex, (s,)),
        call_requires(modelpack::layer_filepath, (layer,)),
        call_requires(modelpack::is_gguf_layer, (layer,)),
        call_requires(modelpack::is_safetensors_layer, (layer,)),
        call_requires(modelpack::found_extensions, (layers, style)),
        call_requires(modelpack::servable, (manifest, style)),
        call_requires(modelpack::plan_gguf, (layer,)),
        call_requires(modelpack::find_gguf, (strings, style)),
        call_requires(modelpack::find_present, (gguf_plan, yes, strings, style)),
        call_requires(modelpack::is_gguf_blob, (bytes,)),
        call_requires(modelpack::cached_name, (s, style)),
        call_requires(modelpack::find_member, (members, style)),
        call_requires(modelpack::find_in_archive, (bytes, style)),
        call_requires(modelpack::plan_unpacking, (gguf_plan, bytes, style)),
        call_requires(modelpack::malformed_digest, (s,)),
        call_requires(modelpack::no_gguf_in_archive, (s,)),
        call_requires(modelpack::unservable, (s, strings)),
        call_requires(modelpack::extracted_path, (layer,)),
        call_requires(modelpack::config_path, (layers, style)),
{
}

/// The operations of paths take whatever they are given, where
/// it is what they are for.
pub proof fn law_any_input_of_paths(
    s: &str,
    style: paths::Style,
    t: &str,
    bytes: &[u8],
)
    ensures
        call_requires(paths::file_name, (s, style)),
        call_requires(paths::extension, (s, style)),
        call_requires(paths::has_extension, (s, t, style)),
        call_requires(paths::chars_of, (bytes,)),
        (forall|i: int| 0 <= i < s@.len() ==> (#[trigger] s@[i]) as u32 <= 255) ==>
            call_requires(
                paths::bytes_of,
                (s,),
            ),
{
}

/// The operations of short names take whatever they are given.
pub proof fn law_any_input_of_short_names(
    files: &Vec<Option<shortnames::Conf>>,
    yes: bool,
    no: bool,
    maybe_s: Option<&str>,
    s: &str,
    aliases: &shortnames::Aliases,
)
    ensures
        call_requires(shortnames::load_aliases, (files,)),
        call_requires(shortnames::config_paths, (yes, no, maybe_s)),
        call_requires(shortnames::has_host, (s,)),
        call_requires(shortnames::resolve, (s, aliases)),
        call_requires(shortnames::is_bare, (s,)),
        call_requires(shortnames::resolve_ollama_api, (s, aliases)),
{
}

/// The operations of the store take whatever they are given.
pub proof fn law_any_input_of_the_store(
    s: &str,
    layer: &storage::Descriptor,
    found: &Option<storage::Descriptor>,
)
    ensures
        call_requires(storage::default_tag, (s,)),
        call_requires(storage::Descriptor::annotation_str, (layer, s)),
        call_requires(storage::canonical_ref, (found, s)),
{
}

/// The operations of texts take whatever they are given, where
/// it is what they are for.
pub proof fn law_any_input_of_texts(
    s: &str,
    chars: &Vec<char>,
    n: usize,
    m: usize,
    t: &str,
    ch: char,
    strings: &Vec<String>,
    number: u128,
    size: u64,
    bytes: &[u8],
    yes: bool,
    strings_mut: &mut Vec<String>,
)
    ensures
        call_requires(text::to_chars, (s,)),
        n <= m <= chars@.len() ==> call_requires(text::from_chars, (chars, n, m)),
        call_requires(text::same, (s, t)),
        n <= chars@.len() ==> call_requires(text::index_of, (chars, n, ch)),
        call_requires(text::contains_char, (s, ch)),
        call_requires(text::starts_with, (s, t)),
        call_requires(text::ends_with, (s, t)),
        call_requires(text::strip_prefix, (s, t)),
        call_requires(text::strip_suffix, (s, t)),
        call_requires(text::find_str, (s, t)),
        call_requires(text::contains_str, (s, t)),
        call_requires(text::is_whitespace, (ch,)),
        n <= chars@.len() ==> call_requires(text::skip_white, (chars, n)),
        call_requires(text::trim_start, (s,)),
        call_requires(text::trim, (s,)),
        call_requires(text::trim_end_char, (s, ch)),
        call_requires(text::words, (s,)),
        call_requires(text::lines, (s,)),
        call_requires(text::join, (strings, s)),
        call_requires(text::repeat, (s, n)),
        call_requires(text::decimal_u128, (number,)),
        call_requires(text::decimal_str, (size,)),
        call_requires(text::eq_ignore_case, (s, t)),
        call_requires(text::to_bytes, (s,)),
        call_requires(text::is_utf8, (bytes,)),
        call_requires(text::trim_start_matches, (s, t)),
        call_requires(text::hex_str, (number, n, yes)),
        call_requires(text::parse_u64, (s,)),
        call_requires(text::parse_u32, (s,)),
        call_requires(text::push_text, (strings_mut, s)),
        call_requires(text::split, (s, ch)),
        call_requires(text::last_index_of, (chars, ch)),
        call_requires(text::trim_line_end, (s,)),
{
}

} // verus!
