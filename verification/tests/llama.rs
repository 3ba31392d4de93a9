use flint_ai::llama::{
    add_sampler, checked_i32, checked_u32, checked_usize, ensure_backend, get, get_mut,
    llama_apply_chat_template, llama_backend_free, llama_backend_init, llama_backend_list_devices,
    llama_batch_add, llama_batch_add_sequence, llama_batch_free, llama_batch_init, llama_batch_made,
    llama_chat_free, llama_chat_messages_add, llama_chat_messages_init, llama_chat_template_found,
    llama_context_decode, llama_context_free, llama_context_new, llama_context_params_init,
    llama_context_params_set_sizes, llama_context_params_set_threads, llama_decoder_free,
    llama_decoder_init, llama_decoder_push, llama_done, llama_model_free, llama_model_is_eog,
    llama_model_load, llama_model_params_init, llama_model_params_set_gpu_layers,
    llama_model_params_set_main_gpu, llama_model_params_set_memory, llama_model_tokenized,
    llama_preload_order, llama_sampler_accept, llama_sampler_add_dist, llama_sampler_add_min_p,
    llama_sampler_add_top_k, llama_sampler_add_top_p, llama_sampler_chain_build,
    llama_sampler_chain_init, llama_sampler_free, llama_sampler_sample, llama_text,
    llama_tokens_free, llama_tokens_get, llama_tokens_len, select_package, template_name,
    BatchEntry, ContextParams, DeviceInfo, LlamaPackage, LlamaState, ModelParams, SamplerPart,
};
use flint_ai::native::{Arch, Os, Target};
use flint_ai::value::{Value, VmError};

type State = LlamaState<&'static str>;

fn handle(r: Result<Value, VmError>) -> i64 {
    match r {
        Ok(Value::Int(n)) => n,
        other => panic!("expected a handle, got {other:?}"),
    }
}

fn error<T>(r: Result<T, VmError>) -> String {
    match r {
        Ok(_) => panic!("expected an error"),
        Err(error) => error.text().to_string(),
    }
}

fn done(r: Result<Value, VmError>) -> bool {
    matches!(r, Ok(Value::Bool(true)))
}

fn with_model() -> (State, i64, i64) {
    let mut state: State = LlamaState::new();
    let backend = handle(llama_backend_init(&mut state, Ok("backend")));
    let params = handle(llama_model_params_init(&mut state, backend));
    let model = handle(llama_model_load(&mut state, backend, params, |_, _| Ok("model")));
    (state, backend, model)
}

#[test]
fn packages_go_by_kind() {
    let linux = Target { os: Os::Linux, arch: Arch::X64 };
    let arm = Target { os: Os::Linux, arch: Arch::Arm64 };
    let mac = Target { os: Os::Macos, arch: Arch::Arm64 };
    for kind in ["", "auto", "CUDA", "cuda12"] {
        assert_eq!(select_package(kind, mac), Ok(LlamaPackage::Current));
    }
    assert_eq!(select_package("cpu", linux), Ok(LlamaPackage::LinuxX64Cpu));
    assert_eq!(select_package("cpu", arm), Ok(LlamaPackage::LinuxArm64Cpu));
    assert_eq!(select_package("Vulkan1", linux), Ok(LlamaPackage::LinuxX64Vulkan));
    assert_eq!(
        select_package("Vulkan", mac).unwrap_err(),
        "unsupported llama.cpp backend 'vulkan' for this target"
    );
    assert_eq!(
        select_package("metal", mac).unwrap_err(),
        "unsupported llama.cpp backend 'metal' for this target"
    );
    let order = llama_preload_order();
    assert_eq!(order.len(), 16);
    assert_eq!((order[0].as_str(), order[15].as_str()), ("cudart64_13.dll", "mtmd.dll"));
}

#[test]
fn numbers_must_fit() {
    assert_eq!(checked_i32(-5, "n").unwrap(), -5);
    assert_eq!(error(checked_i32(1 << 31, "n")), "n is out of range for int32");
    assert_eq!(checked_u32(4294967295, "n").unwrap(), u32::MAX);
    assert_eq!(error(checked_u32(-1, "n")), "n is out of range for uint32");
    assert_eq!(checked_usize(7, "n").unwrap(), 7);
    assert_eq!(error(checked_usize(-1, "n")), "n must be non-negative");
}

#[test]
fn backends_come_and_go() {
    let mut state: State = LlamaState::new();
    assert_eq!(
        error(llama_backend_init(&mut state, Err("no library".into()))),
        "llama error: no library"
    );
    let backend = handle(llama_backend_init(&mut state, Ok("b")));
    assert_eq!(backend, 1);
    assert!(ensure_backend(&state, backend).is_ok());
    assert_eq!(*get(&state.backends, backend, "backend").unwrap(), "b");
    let device = DeviceInfo {
        index: 0,
        name: "CPU".into(),
        backend: "cpu".into(),
        description: "chip".into(),
        memory_free: 64,
    };
    let other = DeviceInfo {
        index: 1,
        name: "GPU".into(),
        backend: "cuda".into(),
        description: "card".into(),
        memory_free: 128,
    };
    match llama_backend_list_devices(&state, backend, &vec![device, other]) {
        Ok(Value::String(s)) => assert_eq!(s, "0\tCPU\tcpu\tchip\t64\n1\tGPU\tcuda\tcard\t128"),
        other => panic!("unexpected {other:?}"),
    }
    assert_eq!(
        error(llama_backend_list_devices(&state, 9, &Vec::new())),
        "unknown llama backend handle 9"
    );
    assert!(done(llama_backend_free(&mut state, backend)));
    assert_eq!(
        error(llama_backend_free(&mut state, backend)),
        "unknown llama backend handle 1"
    );
    assert_eq!(handle(llama_backend_init(&mut state, Ok("c"))), 2);
}

#[test]
fn a_load_uses_its_options_up() {
    let mut state: State = LlamaState::new();
    assert_eq!(
        error(llama_model_params_init(&mut state, 1)),
        "unknown llama backend handle 1"
    );
    let backend = handle(llama_backend_init(&mut state, Ok("b")));
    let params = handle(llama_model_params_init(&mut state, backend));
    assert!(done(llama_model_params_set_gpu_layers(&mut state, params, 99)));
    assert!(done(llama_model_params_set_main_gpu(&mut state, params, -1)));
    assert!(done(llama_model_params_set_memory(&mut state, params, true, false)));
    assert_eq!(
        error(llama_model_params_set_gpu_layers(&mut state, params, -1)),
        "n_gpu_layers must be a non-negative uint32"
    );
    assert_eq!(
        error(llama_model_params_set_main_gpu(&mut state, params, 1 << 40)),
        "main_gpu is out of range for int32"
    );
    assert_eq!(
        error(llama_model_params_set_memory(&mut state, 77, true, true)),
        "unknown llama model params handle 77"
    );
    assert_eq!(
        error(llama_model_load(&mut state, 77, params, |_, _| panic!("not called"))),
        "unknown llama backend handle 77"
    );
    let failed = llama_model_load(&mut state, backend, params, |native, given| {
        assert_eq!(*native, "b");
        let expected =
            ModelParams { gpu_layers: Some(99), main_gpu: Some(-1), memory: Some((true, false)) };
        assert!(given == expected);
        Err("no file".to_string())
    });
    assert_eq!(error(failed), "llama error: no file");
    assert_eq!(
        error(llama_model_load(&mut state, backend, params, |_, _| panic!("not called"))),
        format!("unknown llama model params handle {params}")
    );
}

#[test]
fn contexts_are_made_of_models() {
    let (mut state, backend, model) = with_model();
    let params = handle(llama_context_params_init(&mut state, backend));
    assert!(done(llama_context_params_set_sizes(&mut state, params, 4096, 512, 256)));
    assert!(done(llama_context_params_set_threads(&mut state, params, 4, 8)));
    assert_eq!(
        error(llama_context_params_set_sizes(&mut state, params, 1, -1, 1)),
        "n_batch is out of range for uint32"
    );
    assert_eq!(
        error(llama_context_params_set_threads(&mut state, 66, 1, 1)),
        "unknown llama context params handle 66"
    );
    let context = handle(llama_context_new(&mut state, model, backend, params, |m, b, given| {
        assert_eq!((*m, *b), ("model", "backend"));
        let expected = ContextParams { sizes: Some((4096, 512, 256)), threads: Some((4, 8)) };
        assert!(given == expected);
        Ok("context")
    }));
    assert_eq!(*get(&state.contexts, context, "context").unwrap(), "context");
    assert_eq!(
        error(llama_context_new(&mut state, model, backend, params, |_, _, _| Ok("again"))),
        format!("unknown llama context params handle {params}")
    );
    assert_eq!(
        error(llama_context_new(&mut state, 99, backend, params, |_, _, _| Ok("again"))),
        "unknown llama model handle 99"
    );
    assert!(done(llama_context_free(&mut state, context)));
    assert!(done(llama_model_free(&mut state, model)));
    assert_eq!(
        error(llama_model_free(&mut state, model)),
        format!("unknown llama model handle {model}")
    );
}

#[test]
fn token_lists_are_read_by_place() {
    let (mut state, _, model) = with_model();
    let tokens = handle(llama_model_tokenized(&mut state, Ok(vec![5, -6])));
    assert_eq!(handle(llama_tokens_len(&state, tokens)), 2);
    assert_eq!(handle(llama_tokens_get(&state, tokens, 1)), -6);
    assert_eq!(error(llama_tokens_get(&state, tokens, 2)), "token index 2 is out of range");
    assert_eq!(error(llama_tokens_get(&state, tokens, -1)), "token index must be non-negative");
    assert_eq!(error(llama_tokens_len(&state, 99)), "unknown llama tokens handle 99");
    assert_eq!(
        error(llama_model_tokenized(&mut state, Err("odd".into()))),
        "llama error: odd"
    );
    assert_eq!(llama_model_is_eog(&state, model, 2).unwrap(), 2);
    assert_eq!(
        error(llama_model_is_eog(&state, model, 1 << 40)),
        "token is out of range for int32"
    );
    assert!(done(llama_tokens_free(&mut state, tokens)));
    assert!(llama_tokens_len(&state, tokens).is_err());
}

#[test]
fn chats_have_templates_and_messages() {
    let (mut state, _, model) = with_model();
    assert_eq!(template_name("chatml"), Some("chatml"));
    assert_eq!(template_name(""), None);
    let template = handle(llama_chat_template_found(&mut state, Ok("template")));
    let messages = handle(llama_chat_messages_init(&mut state));
    assert!(done(llama_chat_messages_add(&mut state, messages, Ok("one"))));
    assert!(done(llama_chat_messages_add(&mut state, messages, Ok("two"))));
    assert_eq!(
        error(llama_chat_messages_add(&mut state, messages, Err("NUL".into()))),
        "llama error: NUL"
    );
    assert_eq!(
        *get(&state.chat_messages, messages, "chat messages").unwrap(),
        ["one", "two"]
    );
    assert!(llama_apply_chat_template(&state, model, template, messages).is_ok());
    assert_eq!(
        error(llama_apply_chat_template(&state, model, messages, messages)),
        format!("unknown llama chat template handle {messages}")
    );
    assert_eq!(
        error(llama_apply_chat_template(&state, model, template, template)),
        format!("unknown llama chat messages handle {template}")
    );
    assert!(done(llama_chat_free(&mut state, template)));
    assert!(done(llama_chat_free(&mut state, messages)));
    assert_eq!(
        error(llama_chat_free(&mut state, messages)),
        format!("unknown llama chat resource handle {messages}")
    );
}

#[test]
fn batches_take_entries() {
    let (mut state, _, _) = with_model();
    assert_eq!(llama_batch_init(512, 1).unwrap(), (512, 1));
    assert_eq!(error(llama_batch_init(-1, 1)), "batch capacity must be non-negative");
    assert_eq!(error(llama_batch_init(1, 1 << 40)), "n_seq_max is out of range for int32");
    let batch = handle(llama_batch_made(&mut state, "batch"));
    let entry = llama_batch_add(&state, batch, 5, 6, 7).unwrap();
    assert!(entry == BatchEntry { token: 5, position: 6, sequence: 7 });
    assert_eq!(
        error(llama_batch_add(&state, 99, 1 << 40, 0, 0)),
        "unknown llama batch handle 99"
    );
    assert_eq!(
        error(llama_batch_add(&state, batch, 0, 1 << 40, 1 << 40)),
        "position is out of range for int32"
    );
    let tokens = handle(llama_model_tokenized(&mut state, Ok(vec![1])));
    assert_eq!(llama_batch_add_sequence(&state, batch, tokens, 3).unwrap(), 3);
    assert_eq!(
        error(llama_batch_add_sequence(&state, 99, 98, 3)),
        "unknown llama tokens handle 98"
    );
    assert_eq!(error(llama_context_decode(&state, 9, batch)), "unknown llama context handle 9");
    *get_mut(&mut state.batches, batch, "batch").unwrap() = "cleared";
    assert_eq!(*get(&state.batches, batch, "batch").unwrap(), "cleared");
    assert!(done(llama_batch_free(&mut state, batch)));
}

#[test]
fn a_chain_is_built_once_of_its_parts() {
    let mut state: State = LlamaState::new();
    let chain = handle(llama_sampler_chain_init(&mut state, true));
    assert_eq!(
        error(llama_sampler_chain_build(&mut state, chain, |_, _| "chain")),
        "sampler chain has no components"
    );
    assert!(done(llama_sampler_add_top_k(&mut state, chain, 40)));
    assert!(done(llama_sampler_add_top_p(&mut state, chain, 1, 2)));
    assert!(done(llama_sampler_add_min_p(&mut state, chain, 3, 4)));
    assert!(done(add_sampler(&mut state, chain, SamplerPart::Temp(5))));
    assert!(done(llama_sampler_add_dist(&mut state, chain, 6)));
    assert!(done(add_sampler(&mut state, chain, SamplerPart::Greedy)));
    assert_eq!(
        error(llama_sampler_add_dist(&mut state, 99, -1)),
        "seed is out of range for uint32"
    );
    assert_eq!(
        error(llama_sampler_add_top_k(&mut state, 99, 1)),
        "unknown llama sampler handle 99"
    );
    assert_eq!(
        error(llama_sampler_accept(&state, chain, 1)),
        "sampler chain has not been built"
    );
    assert!(done(llama_sampler_chain_build(&mut state, chain, |parts, no_perf| {
        assert!(no_perf);
        let expected = vec![
            SamplerPart::TopK(40),
            SamplerPart::TopP(1, 2),
            SamplerPart::MinP(3, 4),
            SamplerPart::Temp(5),
            SamplerPart::Dist(6),
            SamplerPart::Greedy,
        ];
        assert!(parts == expected);
        "chain"
    })));
    assert_eq!(
        error(llama_sampler_chain_build(&mut state, chain, |_, _| "chain")),
        "sampler chain is already built"
    );
    assert_eq!(
        error(add_sampler(&mut state, chain, SamplerPart::Greedy)),
        "cannot add a component after sampler chain build"
    );
    assert_eq!(llama_sampler_accept(&state, chain, 7).unwrap(), 7);
    assert_eq!(
        error(llama_sampler_sample(&state, chain, 9, 0)),
        "unknown llama context handle 9"
    );
    assert!(done(llama_sampler_free(&mut state, chain)));
}

#[test]
fn decoders_need_a_model() {
    let (mut state, _, model) = with_model();
    let decoder = handle(llama_decoder_init(&mut state, "utf-8"));
    assert_eq!(llama_decoder_push(&state, decoder, model, 3).unwrap(), 3);
    assert_eq!(
        error(llama_decoder_push(&state, 99, 98, 1 << 40)),
        "unknown llama model handle 98"
    );
    assert_eq!(
        error(llama_decoder_push(&state, 99, model, 1 << 40)),
        "unknown llama decoder handle 99"
    );
    assert!(done(llama_decoder_free(&mut state, decoder)));
    assert!(done(llama_done(Ok(()))));
    assert_eq!(error(llama_done(Err("full".into()))), "llama error: full");
    assert!(matches!(llama_text(Ok("t".into())), Ok(Value::String(s)) if s == "t"));
    assert_eq!(error(llama_text(Err("odd".into()))), "llama error: odd");
}
