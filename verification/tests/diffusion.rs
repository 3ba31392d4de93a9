use flint_ai::ggml::SdPackage;
use flint_ai::native::{Arch, Os, Target};
use flint_ai::sd::{
    c_string, checked_c_int, devices_note, image_bytes, next_sd_handle, optional_c_string,
    parse_wtype, pixels_of, return_c_string, sample_method_found, scheduler_found,
    sd_ctx_params_init, sd_ctx_params_set_backend, sd_ctx_params_set_flags,
    sd_ctx_params_set_paths, sd_ctx_params_set_vae_format, sd_ctx_params_set_wtype,
    sd_free_sd_ctx, sd_free_sd_images, sd_generate_image, sd_get_default_scheduler,
    sd_image_saved, sd_images_save, sd_img_gen_params_init, sd_img_gen_params_set_prompt,
    sd_img_gen_params_set_sample, sd_img_gen_params_set_sampler, sd_img_gen_params_set_size,
    sd_log_line, sd_new_sd_ctx, sd_str_to_sample_method, sd_str_to_scheduler,
    stable_diffusion_library_path, validate_positive, Generated, NameStep, Pixels, SdState,
};
use flint_ai::value::{Value, VmError};

const LINUX: Target = Target { os: Os::Linux, arch: Arch::X64 };

fn current() -> Result<SdPackage, String> {
    Ok(SdPackage::LinuxX64Vulkan)
}

fn handle(r: Result<Value, VmError>) -> i64 {
    match r {
        Ok(Value::Int(n)) => n,
        other => panic!("expected a handle, got {other:?}"),
    }
}

fn error<T>(r: Result<T, VmError>) -> String {
    match r {
        Ok(_) => panic!("expected an error"),
        Err(error) => error.text().to_string(),
    }
}

fn done(r: Result<Value, VmError>) -> bool {
    matches!(r, Ok(Value::Bool(true)))
}

fn with_params() -> (SdState, i64) {
    let mut state = SdState::new();
    let params = handle(sd_ctx_params_init(&mut state, current(), |_| Ok(())));
    (state, params)
}

fn with_ctx() -> (SdState, i64, i64) {
    let (mut state, params) = with_params();
    let ctx = handle(sd_new_sd_ctx(
        &mut state,
        params,
        LINUX,
        current(),
        |_| Ok(()),
        |_| Ok("CPU".to_string()),
        |_, _, _| 77,
    ));
    let img = handle(sd_img_gen_params_init(&mut state, current(), |_| Ok(())));
    (state, ctx, img)
}

#[test]
fn numbers_and_texts_are_checked() {
    assert!(validate_positive(1, "width").is_ok());
    assert_eq!(error(validate_positive(0, "width")), "width must be positive");
    assert_eq!(checked_c_int(-9, "n").unwrap(), -9);
    assert_eq!(error(checked_c_int(1 << 31, "n")), "n is out of range");
    assert_eq!(c_string("a", "t").unwrap(), "a");
    assert_eq!(error(c_string("a\0b", "t")), "t must not contain NUL bytes");
    assert_eq!(optional_c_string("", "t").unwrap(), None);
    assert_eq!(optional_c_string("AUTO", "t").unwrap(), None);
    assert_eq!(optional_c_string("x", "t").unwrap(), Some("x".to_string()));
    assert_eq!(error(optional_c_string("\0", "t")), "t must not contain NUL bytes");
    let mut state = SdState::new();
    assert_eq!((next_sd_handle(&mut state), next_sd_handle(&mut state)), (1, 2));
}

#[test]
fn weight_types_are_named() {
    let all = [
        ("", 42),
        ("Auto", 42),
        ("f32", 0),
        ("float", 0),
        ("F16", 1),
        ("half", 1),
        ("bf16", 30),
        ("q4_k", 12),
        ("q5_k", 13),
        ("q6_k", 14),
        ("q8_0", 8),
        ("q8", 8),
    ];
    for (name, number) in all {
        assert_eq!(parse_wtype(name).unwrap(), number);
    }
    assert_eq!(error(parse_wtype("Q2")), "unknown stable diffusion weight type 'q2'");
}

#[test]
fn options_need_the_library() {
    let mut state = SdState::new();
    assert_eq!(
        error(sd_ctx_params_init(&mut state, Err("no target".into()), |_| Ok(()))),
        "failed to select stable diffusion package: no target"
    );
    assert_eq!(
        error(sd_img_gen_params_init(&mut state, current(), |package| {
            assert_eq!(package, SdPackage::LinuxX64Vulkan);
            Err("no file".to_string())
        })),
        "failed to load stable-diffusion.cpp: no file"
    );
    assert_eq!(handle(sd_ctx_params_init(&mut state, current(), |_| Ok(()))), 1);
}

#[test]
fn paths_are_set_together_or_not_at_all() {
    let (mut state, params) = with_params();
    assert!(done(sd_ctx_params_set_paths(&mut state, params, "m", "", "auto", "l")));
    assert_eq!(
        error(sd_ctx_params_set_paths(&mut state, params, "x", "y", "z\0", "w")),
        "vae_path must not contain NUL bytes"
    );
    let paths = state.ctx_params.get(params).unwrap().paths.as_ref().unwrap();
    assert_eq!(
        (paths.model.as_deref(), paths.diffusion_model.as_deref()),
        (Some("m"), None)
    );
    assert_eq!((paths.vae.as_deref(), paths.llm.as_deref()), (None, Some("l")));
    assert_eq!(
        error(sd_ctx_params_set_paths(&mut state, 9, "", "", "", "")),
        "unknown stable diffusion ctx params handle 9"
    );
}

#[test]
fn a_backend_that_chooses_the_package_is_not_handed_on() {
    let (mut state, params) = with_params();
    for name in ["cpu", "CUDA", "cuda12", "Vulkan"] {
        assert!(done(sd_ctx_params_set_backend(&mut state, params, name, "p", "1")));
        let entry = state.ctx_params.get(params).unwrap();
        assert_eq!(entry.backend.as_deref(), Some(name));
        assert_eq!(entry.placement.as_ref().unwrap().backend, None);
    }
    assert!(done(sd_ctx_params_set_backend(&mut state, params, "Vulkan0", "p", "")));
    let placement = state.ctx_params.get(params).unwrap().placement.as_ref().unwrap();
    assert_eq!(placement.backend.as_deref(), Some("Vulkan0"));
    assert_eq!(
        (placement.params_backend.as_deref(), placement.max_vram.as_deref()),
        (Some("p"), None)
    );
    assert_eq!(
        error(sd_ctx_params_set_backend(&mut state, params, "cpu", "\0", "")),
        "params_backend must not contain NUL bytes"
    );
    let entry = state.ctx_params.get(params).unwrap();
    assert_eq!(entry.backend.as_deref(), Some("cpu"));
    assert_eq!(entry.placement.as_ref().unwrap().backend.as_deref(), Some("Vulkan0"));
}

#[test]
fn other_options_are_set_one_by_one() {
    let (mut state, params) = with_params();
    assert!(done(sd_ctx_params_set_wtype(&mut state, params, "f16")));
    assert!(sd_ctx_params_set_wtype(&mut state, params, "x").is_err());
    assert!(done(sd_ctx_params_set_vae_format(&mut state, params, 2)));
    assert_eq!(
        error(sd_ctx_params_set_vae_format(&mut state, params, 1 << 40)),
        "vae_format is out of range"
    );
    assert!(done(sd_ctx_params_set_flags(&mut state, params, true, false, true)));
    let entry = state.ctx_params.get(params).unwrap();
    assert_eq!((entry.wtype, entry.vae_format), (Some(1), Some(2)));
    let flags = entry.flags.unwrap();
    assert!(flags.enable_mmap && !flags.flash_attn && flags.diffusion_flash_attn);
    assert!(sd_ctx_params_set_flags(&mut state, 9, true, true, true).is_err());
}

#[test]
fn a_context_needs_devices() {
    let (mut state, params) = with_params();
    let tried = |state: &mut SdState, listed: Result<String, String>, ctx: usize| {
        sd_new_sd_ctx(state, params, LINUX, current(), |_| Ok(()), |_| listed, |_, _, _| ctx)
    };
    assert_eq!(
        error(tried(&mut state, Err("gone".into()), 7)),
        "failed to list stable diffusion devices: gone"
    );
    assert_eq!(
        error(tried(&mut state, Ok(" \n".into()), 7)),
        "stable-diffusion.cpp reported no ggml backend devices"
    );
    assert_eq!(error(tried(&mut state, Ok("CPU".into()), 0)), "new_sd_ctx returned null");
    let ctx = handle(tried(&mut state, Ok("CPU".into()), 7));
    let freed = sd_free_sd_ctx(&mut state, ctx).unwrap();
    assert_eq!((freed.package, freed.ctx), (SdPackage::LinuxX64Vulkan, 7));
    assert_eq!(
        error(sd_free_sd_ctx(&mut state, ctx)),
        format!("unknown stable diffusion ctx handle {ctx}")
    );
    assert_eq!(devices_note("CPU"), "stable-diffusion.cpp devices:\nCPU");
}

#[test]
fn a_context_is_made_with_the_package_of_its_backend() {
    let (mut state, params) = with_params();
    sd_ctx_params_set_backend(&mut state, params, "cpu", "", "").unwrap();
    let made = sd_new_sd_ctx(
        &mut state,
        params,
        LINUX,
        current(),
        |package| {
            assert_eq!(package, SdPackage::LinuxX64Cpu);
            Ok(())
        },
        |_| Ok("CPU\n".to_string()),
        |package, given, devices| {
            assert_eq!((package, devices.as_str()), (SdPackage::LinuxX64Cpu, "CPU\n"));
            assert_eq!(given.backend.as_deref(), Some("cpu"));
            5
        },
    );
    handle(made);
    sd_ctx_params_set_backend(&mut state, params, "cuda", "", "").unwrap();
    let refused = sd_new_sd_ctx(
        &mut state,
        params,
        LINUX,
        current(),
        |_| panic!("not loaded"),
        |_| panic!("not listed"),
        |_, _, _| panic!("not made"),
    );
    assert_eq!(
        error(refused),
        "failed to select stable diffusion backend: unsupported stable-diffusion.cpp CUDA package \
         for this target"
    );
}

#[test]
fn image_options_keep_what_was_set_before_an_error() {
    let (mut state, _, img) = with_ctx();
    assert_eq!(
        error(sd_img_gen_params_set_size(&mut state, img, 0, 1)),
        "width must be positive"
    );
    assert_eq!(
        error(sd_img_gen_params_set_size(&mut state, img, 64, 1 << 40)),
        "height is out of range"
    );
    assert_eq!(state.img_params.get(img).unwrap().width, Some(64));
    assert_eq!(state.img_params.get(img).unwrap().height, None);
    assert!(done(sd_img_gen_params_set_size(&mut state, img, 512, 256)));
    assert_eq!(
        error(sd_img_gen_params_set_sample(&mut state, img, 1 << 40, 3, 0)),
        "steps is out of range"
    );
    let entry = state.img_params.get(img).unwrap();
    assert_eq!((entry.seed, entry.batch_count, entry.sample_steps), (Some(3), Some(1), None));
    for scale in [-1.0f64, -f64::MIN_POSITIVE, f64::NEG_INFINITY] {
        assert_eq!(
            error(sd_img_gen_params_set_sample(&mut state, img, 20, 3, scale.to_bits())),
            "cfg_scale must be non-negative"
        );
    }
    for scale in [0.0f64, -0.0, 7.5, f64::INFINITY, f64::NAN, -f64::NAN] {
        assert!(done(sd_img_gen_params_set_sample(&mut state, img, 20, 3, scale.to_bits())));
    }
    assert_eq!(
        error(sd_img_gen_params_set_sampler(&mut state, img, 4, 1 << 40)),
        "scheduler is out of range"
    );
    assert_eq!(state.img_params.get(img).unwrap().sample_method, Some(4));
    assert!(done(sd_img_gen_params_set_sampler(&mut state, img, 4, 5)));
    assert!(done(sd_img_gen_params_set_prompt(&mut state, img, "a cat", "")));
    assert_eq!(
        error(sd_img_gen_params_set_prompt(&mut state, img, "a dog", "\0")),
        "negative_prompt must not contain NUL bytes"
    );
    assert_eq!(state.img_params.get(img).unwrap().prompt, "a cat");
}

#[test]
fn images_are_made_and_found_by_place() {
    let (mut state, ctx, img) = with_ctx();
    let make = |state: &mut SdState, made: Generated| {
        sd_generate_image(state, ctx, img, |_| Ok(()), |resource, params| {
            assert_eq!((resource.ctx, params.prompt.as_str()), (77, ""));
            made
        })
    };
    assert_eq!(
        error(make(&mut state, Generated { ok: false, images: 5, count: 1 })),
        "generate_image returned false"
    );
    for (images, count) in [(0, 1), (5, 0), (5, -1)] {
        assert_eq!(
            error(make(&mut state, Generated { ok: true, images, count })),
            "generate_image returned no images"
        );
    }
    let images = handle(make(&mut state, Generated { ok: true, images: 5, count: 2 }));
    let (resource, place) = sd_images_save(&state, images, 1).unwrap();
    assert_eq!((resource.images, resource.count, place), (5, 2, 1));
    assert_eq!(
        error(sd_images_save(&state, images, 2)),
        "image index 2 is out of range for 2 image(s)"
    );
    assert_eq!(
        error(sd_images_save(&state, images, -1)),
        "image index -1 is out of range for 2 image(s)"
    );
    assert_eq!(sd_free_sd_images(&mut state, images).unwrap().images, 5);
    assert!(sd_images_save(&state, images, 0).is_err());
    assert_eq!(
        error(sd_generate_image(&mut state, 99, img, |_| Ok(()), |_, _| panic!("not made"))),
        "unknown stable diffusion ctx handle 99"
    );
    assert_eq!(
        error(sd_generate_image(&mut state, ctx, img, |_| Err("x".into()), |_, _| {
            panic!("not made")
        })),
        "failed to load stable-diffusion.cpp: x"
    );
    assert_eq!(
        error(sd_get_default_scheduler(&state, 99, 1 << 40)),
        "sample_method is out of range"
    );
    assert_eq!(sd_get_default_scheduler(&state, ctx, 3).unwrap().1, 3);
}

#[test]
fn names_of_methods_are_looked_up() {
    assert!(matches!(sd_str_to_sample_method(""), Ok(NameStep::Known(20))));
    assert!(matches!(sd_str_to_scheduler("Auto"), Ok(NameStep::Known(16))));
    assert!(matches!(sd_str_to_sample_method("euler"), Ok(NameStep::Ask(s)) if s == "euler"));
    assert_eq!(
        error(sd_str_to_scheduler("a\0")),
        "scheduler must not contain NUL bytes"
    );
    assert_eq!(handle(sample_method_found("euler", 0)), 0);
    assert_eq!(
        error(sample_method_found("odd", 20)),
        "unknown stable diffusion sample method 'odd'"
    );
    assert_eq!(handle(scheduler_found("simple", 20)), 20);
    assert_eq!(
        error(scheduler_found("odd", 16)),
        "unknown stable diffusion scheduler 'odd'"
    );
    assert!(matches!(
        return_c_string(Some("euler".into()), "sample_method"),
        Ok(Value::String(s)) if s == "euler"
    ));
    assert_eq!(
        error(return_c_string(None, "sample_method")),
        "sample_method name pointer is null"
    );
}

#[test]
fn images_are_saved_by_their_channels() {
    assert_eq!(image_bytes(false, 4, 5, 3).unwrap(), 60);
    assert_eq!(image_bytes(true, 4, 5, 3).unwrap_err(), "generated image data is null");
    assert_eq!(
        image_bytes(false, 1 << 16, 1 << 16, 0).unwrap_err(),
        "generated image dimensions overflow"
    );
    assert_eq!(
        image_bytes(false, 1 << 15, 1 << 15, 4).unwrap_err(),
        "generated image dimensions overflow"
    );
    assert_eq!(pixels_of(1).unwrap(), Pixels::Gray);
    assert_eq!(pixels_of(3).unwrap(), Pixels::Rgb);
    assert_eq!(pixels_of(4).unwrap(), Pixels::Rgba);
    assert_eq!(
        pixels_of(2).unwrap_err(),
        "unsupported generated image channel count 2"
    );
    assert!(done(sd_image_saved(Ok(()), Ok(()))));
    assert_eq!(
        error(sd_image_saved(Err("a".into()), Ok(()))),
        "failed to create output directory: a"
    );
    assert_eq!(
        error(sd_image_saved(Ok(()), Err("b".into()))),
        "failed to save stable diffusion image: b"
    );
}

#[test]
fn messages_show_their_level() {
    assert_eq!(
        sd_log_line(2, Some("low memory")).unwrap(),
        "stable-diffusion.cpp [warn] low memory"
    );
    assert_eq!(sd_log_line(9, Some("x")).unwrap(), "stable-diffusion.cpp [log] x");
    assert!(sd_log_line(0, None).is_none());
    assert_eq!(
        stable_diffusion_library_path("/d", Os::Linux),
        "/d/libstable-diffusion.so"
    );
}
