//! What the functions on stable-diffusion.cpp and llama.cpp promise: what is set is what was given,
//! and what is made is found.
use vstd::prelude::*;

use crate::ggml::SdPackage;
use crate::llama;
use crate::llama::{
    llama_backend_init, llama_batch_add, llama_batch_init, llama_chat_messages_add,
    llama_chat_messages_init, llama_context_decode, llama_context_new,
    llama_context_params_init, llama_context_params_set_sizes,
    llama_context_params_set_threads, llama_decoder_push, llama_model_load,
    llama_model_params_init, llama_model_params_set_gpu_layers, llama_model_params_set_main_gpu,
    llama_model_params_set_memory, llama_model_tokenized, llama_sampler_accept,
    llama_sampler_add_dist, llama_sampler_add_min_p, llama_sampler_add_top_k,
    llama_sampler_add_top_p, llama_sampler_chain_init, llama_sampler_sample, llama_tokens_free,
    llama_tokens_get, llama_tokens_len, BatchEntry, ContextParams, LlamaState, LlamaView,
    ModelParams, SamplerPart,
};
use crate::sd;
use crate::sd::{
    sd_ctx_params_set_backend, sd_ctx_params_set_flags, sd_ctx_params_set_paths,
    sd_ctx_params_set_vae_format, sd_ctx_params_set_wtype, sd_free_sd_ctx, sd_free_sd_images,
    sd_generate_image, sd_get_default_scheduler, sd_images_save, sd_img_gen_params_set_prompt,
    sd_img_gen_params_set_sample, sd_img_gen_params_set_sampler, sd_img_gen_params_set_size,
    Generated, ImgParams, SdCtxResource, SdImagesResource, SdState,
};
use crate::value::{Value, ValueView, VmResult};

verus! {

/// The size, the sampling and the sampler that are set of images are held as they were given, each
/// as what it was given for, and nothing else of the options changes.
pub proof fn law_image_options_are_held(
    state: &mut SdState,
    handle: i64,
    a: i64,
    b: i64,
    scale: u64,
    r: VmResult<Value>,
)
    requires
        old(state).wf(),
        r is Ok,
    ensures
        call_ensures(sd_img_gen_params_set_size, (state, handle, a, b), r) ==> {
            let then = old(state)@.img_params[handle];
            let now = final(state)@.img_params[handle];
            &&& old(state)@.img_params.contains_key(handle)
            &&& now.width is Some && now.width->0 == a
            &&& now.height is Some && now.height->0 == b
            &&& a > 0 && b > 0
            &&& now == (ImgParams { width: now.width, height: now.height, ..then })
        },
        call_ensures(sd_img_gen_params_set_sample, (state, handle, a, b, scale), r) ==> {
            let then = old(state)@.img_params[handle];
            let now = final(state)@.img_params[handle];
            &&& now.sample_steps is Some && now.sample_steps->0 == a && a > 0
            &&& now.seed == Some(b)
            &&& now.cfg_scale == Some(scale)
            &&& now.batch_count == Some(1i32)
            &&& now.width == then.width && now.height == then.height
            &&& now.prompt == then.prompt && now.sample_method == then.sample_method
            &&& now.scheduler == then.scheduler
        },
        call_ensures(sd_img_gen_params_set_sampler, (state, handle, a, b), r) ==> {
            let then = old(state)@.img_params[handle];
            let now = final(state)@.img_params[handle];
            &&& now.sample_method is Some && now.sample_method->0 == a
            &&& now.scheduler is Some && now.scheduler->0 == b
            &&& now == (ImgParams {
                sample_method: now.sample_method,
                scheduler: now.scheduler,
                ..then
            })
        },
{
}

/// Sizes of images are taken where they are positive and fit 32 bits.
pub proof fn law_image_sizes_are_taken(
    state: &mut SdState,
    handle: i64,
    width: i64,
    height: i64,
    r: VmResult<Value>,
)
    requires
        old(state).wf(),
        call_ensures(sd_img_gen_params_set_size, (state, handle, width, height), r),
    ensures
        r is Ok <==> old(state)@.img_params.contains_key(handle) && 0 < width <= i32::MAX && 0
            < height <= i32::MAX,
{
}

/// The texts of images are held as they were given, the one that is asked for and the one that is
/// not.
pub proof fn law_prompts_are_held(
    state: &mut SdState,
    handle: i64,
    prompt: &str,
    negative_prompt: &str,
    r: VmResult<Value>,
)
    requires
        old(state).wf(),
        call_ensures(sd_img_gen_params_set_prompt, (state, handle, prompt, negative_prompt), r),
    ensures
        r is Ok <==> old(state)@.img_params.contains_key(handle) && !prompt@.contains('\0')
            && !negative_prompt@.contains('\0'),
        r is Ok ==> final(state)@.img_params[handle].prompt@ == prompt@
            && final(state)@.img_params[handle].negative_prompt@ == negative_prompt@
            && final(state)@.img_params[handle].width == old(state)@.img_params[handle].width
            && final(state)@.img_params[handle].height == old(state)@.img_params[handle].height,
{
}

/// The options of a context are held as they were given, each as what it was given for.
pub proof fn law_context_options_are_held(
    state: &mut SdState,
    handle: i64,
    a: &str,
    b: &str,
    c: &str,
    d: &str,
    n: i64,
    mmap: bool,
    flash: bool,
    diffusion: bool,
    r: VmResult<Value>,
)
    requires
        old(state).wf(),
        r is Ok,
    ensures
        call_ensures(sd_ctx_params_set_paths, (state, handle, a, b, c, d), r) ==> {
            let now = final(state)@.ctx_params[handle].paths;
            &&& now is Some
            &&& sd::opt_view(now->0.model) == (if sd::is_open(a@) {
                None
            } else {
                Some(a@)
            })
            &&& sd::opt_view(now->0.diffusion_model) == (if sd::is_open(b@) {
                None
            } else {
                Some(b@)
            })
            &&& sd::opt_view(now->0.vae) == (if sd::is_open(c@) {
                None
            } else {
                Some(c@)
            })
            &&& sd::opt_view(now->0.llm) == (if sd::is_open(d@) {
                None
            } else {
                Some(d@)
            })
        },
        call_ensures(sd_ctx_params_set_backend, (state, handle, a, b, c), r) ==> {
            let now = final(state)@.ctx_params[handle];
            &&& sd::opt_view(now.backend) == (if sd::is_open(a@) {
                None
            } else {
                Some(a@)
            })
            &&& now.placement is Some
            &&& sd::opt_view(now.placement->0.params_backend) == (if sd::is_open(b@) {
                None
            } else {
                Some(b@)
            })
            &&& sd::opt_view(now.placement->0.max_vram) == (if sd::is_open(c@) {
                None
            } else {
                Some(c@)
            })
        },
        call_ensures(sd_ctx_params_set_wtype, (state, handle, a), r) ==> sd::weight_type_outcome(
            a@,
        ) is Ok && final(state)@.ctx_params[handle].wtype == Some(
            sd::weight_type_outcome(a@)->Ok_0,
        ),
        call_ensures(sd_ctx_params_set_vae_format, (state, handle, n), r) ==> {
            let now = final(state)@.ctx_params[handle].vae_format;
            now is Some && now->0 == n
        },
        call_ensures(sd_ctx_params_set_flags, (state, handle, mmap, flash, diffusion), r) ==> {
            let now = final(state)@.ctx_params[handle].flags;
            now is Some && now->0.enable_mmap == mmap && now->0.flash_attn == flash
                && now->0.diffusion_flash_attn == diffusion
        },
{
    sd::law_paths_are_held(a@, b@, c@, d@);
}

/// Images are generated by the context and with the options of the handles that are given, and are
/// found under the handle that is given back; a place among them is the one asked for.
pub proof fn law_images_are_generated<
    L: FnOnce(SdPackage) -> Result<(), String>,
    G: FnOnce(SdCtxResource, &ImgParams) -> Generated,
>(
    state: &mut SdState,
    ctx: i64,
    params: i64,
    load: L,
    generate: G,
    r: VmResult<Value>,
    after: SdState,
    index: i64,
    saved: VmResult<(SdImagesResource, usize)>,
)
    requires
        old(state).wf(),
        old(state)@.next < i64::MAX,
        call_ensures(sd_generate_image::<L, G>, (state, ctx, params, load, generate), r),
        r is Ok,
        after == *final(state),
        r->Ok_0 is Int ==> call_ensures(
            sd_images_save,
            (&after, r->Ok_0->Int_0, index),
            saved,
        ),
    ensures
        old(state)@.ctxs.contains_key(ctx),
        old(state)@.img_params.contains_key(params),
        r->Ok_0 is Int,
        exists|made: Generated|
            {
                &&& #[trigger] call_ensures(
                    generate,
                    (old(state)@.ctxs[ctx], &old(state)@.img_params[params]),
                    made,
                )
                &&& made.ok
                &&& after@.images[r->Ok_0->Int_0].images == made.images
                &&& after@.images[r->Ok_0->Int_0].count == made.count
                &&& after@.images[r->Ok_0->Int_0].package == old(state)@.ctxs[ctx].package
                &&& saved is Ok <==> 0 <= index < made.count
                &&& saved is Ok ==> saved->Ok_0.0.images == made.images && saved->Ok_0.1 == index
            },
{
    sd::law_images_are_asked_for(
        load,
        generate,
        old(state)@,
        after@,
        old(state)@.ctxs[ctx],
        old(state)@.img_params[params],
        r,
    );
}

/// A context or images that are freed are had back once, and no others go.
pub proof fn law_resources_are_freed(
    state: &mut SdState,
    handle: i64,
    other: i64,
    ctx: VmResult<SdCtxResource>,
    images: VmResult<SdImagesResource>,
)
    ensures
        call_ensures(sd_free_sd_ctx, (state, handle), ctx) ==> {
            &&& ctx is Ok <==> old(state)@.ctxs.contains_key(handle)
            &&& ctx is Ok ==> ctx->Ok_0 == old(state)@.ctxs[handle]
            &&& !final(state)@.ctxs.contains_key(handle)
            &&& other != handle ==> final(state)@.ctxs.contains_key(other)
                == old(state)@.ctxs.contains_key(other)
            &&& final(state)@.images == old(state)@.images
        },
        call_ensures(sd_free_sd_images, (state, handle), images) ==> {
            &&& images is Ok <==> old(state)@.images.contains_key(handle)
            &&& images is Ok ==> images->Ok_0 == old(state)@.images[handle]
            &&& !final(state)@.images.contains_key(handle)
            &&& other != handle ==> final(state)@.images.contains_key(other)
                == old(state)@.images.contains_key(other)
            &&& final(state)@.ctxs == old(state)@.ctxs
        },
{
}

/// The scheduler of a sample method is asked of the context that is given, with that method.
pub proof fn law_scheduler_is_asked_for(
    state: &SdState,
    ctx: i64,
    method: i64,
    r: VmResult<(SdCtxResource, i32)>,
)
    requires
        call_ensures(sd_get_default_scheduler, (state, ctx, method), r),
    ensures
        r is Ok <==> state@.ctxs.contains_key(ctx) && i32::MIN <= method <= i32::MAX,
        r is Ok ==> r->Ok_0.0 == state@.ctxs[ctx] && r->Ok_0.1 == method,
{
}

/// The options of a model are held as they were given, each as what it was given for, and the
/// others stay.
pub proof fn law_model_options_are_held<N>(
    state: &mut LlamaState<N>,
    handle: i64,
    n: i64,
    mmap: bool,
    mlock: bool,
    r: VmResult<Value>,
)
    requires
        old(state).wf(),
        old(state)@.model_params.contains_key(handle),
    ensures
        call_ensures(llama_model_params_set_gpu_layers::<N>, (state, handle, n), r) ==> {
            let now = final(state)@.model_params[handle];
            &&& r is Ok <==> 0 <= n <= u32::MAX
            &&& r is Ok ==> now.gpu_layers is Some && now.gpu_layers->0 == n && now == (
            ModelParams { gpu_layers: now.gpu_layers, ..old(state)@.model_params[handle] })
        },
        call_ensures(llama_model_params_set_main_gpu::<N>, (state, handle, n), r) ==> {
            let now = final(state)@.model_params[handle];
            &&& r is Ok <==> i32::MIN <= n <= i32::MAX
            &&& r is Ok ==> now.main_gpu is Some && now.main_gpu->0 == n && now == (ModelParams {
                main_gpu: now.main_gpu,
                ..old(state)@.model_params[handle]
            })
        },
        call_ensures(llama_model_params_set_memory::<N>, (state, handle, mmap, mlock), r) ==> {
            let now = final(state)@.model_params[handle];
            &&& r is Ok
            &&& now.memory == Some((mmap, mlock))
            &&& now.gpu_layers == old(state)@.model_params[handle].gpu_layers
            &&& now.main_gpu == old(state)@.model_params[handle].main_gpu
        },
{
}

/// The options of a context are held as they were given, each as what it was given for, and the
/// others stay.
pub proof fn law_sizes_and_threads_are_held<N>(
    state: &mut LlamaState<N>,
    handle: i64,
    a: i64,
    b: i64,
    c: i64,
    r: VmResult<Value>,
)
    requires
        old(state).wf(),
        old(state)@.context_params.contains_key(handle),
        r is Ok,
    ensures
        call_ensures(llama_context_params_set_sizes::<N>, (state, handle, a, b, c), r) ==> {
            let now = final(state)@.context_params[handle];
            &&& now.sizes matches Some((n_ctx, n_batch, n_ubatch))
            &&& n_ctx == a && n_batch == b && n_ubatch == c
            &&& now.threads == old(state)@.context_params[handle].threads
        },
        call_ensures(llama_context_params_set_threads::<N>, (state, handle, a, b), r) ==> {
            let now = final(state)@.context_params[handle];
            &&& now.threads matches Some((n_threads, n_threads_batch))
            &&& n_threads == a && n_threads_batch == b
            &&& now.sizes == old(state)@.context_params[handle].sizes
        },
{
}

/// A backend, options, a list of tokens, a list of messages and a chain that are made are found
/// under the handle that is given back, as what was made.
pub proof fn law_llama_resources_are_made<N>(
    state: &mut LlamaState<N>,
    native: N,
    tokens: Vec<i32>,
    backend: i64,
    no_perf: bool,
    r: VmResult<Value>,
)
    requires
        old(state).wf(),
        old(state)@.next < i64::MAX,
        r is Ok,
        r->Ok_0 is Int,
    ensures
        call_ensures(llama_backend_init::<N>, (state, Ok::<N, String>(native)), r) ==> {
            &&& !old(state)@.backends.contains_key(r->Ok_0->Int_0)
            &&& final(state)@.backends[r->Ok_0->Int_0] == native
        },
        call_ensures(llama_model_params_init::<N>, (state, backend), r) ==> {
            let made = final(state)@.model_params[r->Ok_0->Int_0];
            &&& !old(state)@.model_params.contains_key(r->Ok_0->Int_0)
            &&& old(state)@.backends.contains_key(backend)
            &&& made.gpu_layers is None && made.main_gpu is None && made.memory is None
        },
        call_ensures(llama_context_params_init::<N>, (state, backend), r) ==> {
            let made = final(state)@.context_params[r->Ok_0->Int_0];
            &&& !old(state)@.context_params.contains_key(r->Ok_0->Int_0)
            &&& made.sizes is None && made.threads is None
        },
        call_ensures(llama_model_tokenized::<N>, (state, Ok::<Vec<i32>, String>(tokens)), r) ==> {
            &&& !old(state)@.token_lists.contains_key(r->Ok_0->Int_0)
            &&& final(state)@.token_lists[r->Ok_0->Int_0] == tokens@
        },
        call_ensures(llama_chat_messages_init::<N>, (state,), r) ==> {
            &&& !old(state)@.chat_messages.contains_key(r->Ok_0->Int_0)
            &&& final(state)@.chat_messages[r->Ok_0->Int_0].len() == 0
        },
        call_ensures(llama_sampler_chain_init::<N>, (state, no_perf), r) ==> {
            let made = final(state)@.samplers[r->Ok_0->Int_0];
            &&& !old(state)@.samplers.contains_key(r->Ok_0->Int_0)
            &&& made.no_perf == no_perf && made.pending.len() == 0 && made.sampler is None
        },
{
}

/// A message that is added comes behind those that were, in its own list.
pub proof fn law_messages_are_added<N>(
    state: &mut LlamaState<N>,
    handle: i64,
    message: N,
    r: VmResult<Value>,
    other: i64,
)
    requires
        call_ensures(
            llama_chat_messages_add::<N>,
            (state, handle, Ok::<N, String>(message)),
            r,
        ),
        old(state)@.chat_messages.contains_key(handle),
    ensures
        r is Ok,
        final(state)@.chat_messages[handle].last() == message,
        final(state)@.chat_messages[handle].drop_last() == old(state)@.chat_messages[handle],
        other != handle ==> final(state)@.chat_messages[other] == old(state)@.chat_messages[other],
{
    let then = old(state)@.chat_messages[handle];
    assert(then.push(message).drop_last() =~= then);
}

/// The number of tokens in a list is its own, and a token is the one in the place asked for.
pub proof fn law_tokens_are_read<N>(
    state: &LlamaState<N>,
    handle: i64,
    index: i64,
    len: VmResult<Value>,
    token: VmResult<Value>,
)
    requires
        call_ensures(llama_tokens_len::<N>, (state, handle), len),
        call_ensures(llama_tokens_get::<N>, (state, handle, index), token),
        state@.token_lists.contains_key(handle),
        state@.token_lists[handle].len() <= usize::MAX,
        state@.token_lists[handle].len() <= i64::MAX,
        0 <= index < state@.token_lists[handle].len(),
    ensures
        len is Ok && len->Ok_0@ == ValueView::Int(state@.token_lists[handle].len() as i64),
        token is Ok && token->Ok_0@ == ValueView::Int(
            state@.token_lists[handle][index as int] as i64,
        ),
{
    llama::law_token_in_its_place(state@, handle, index);
}

/// A list of tokens that is freed is gone, and no other.
pub proof fn law_tokens_are_freed<N>(
    state: &mut LlamaState<N>,
    handle: i64,
    other: i64,
    r: VmResult<Value>,
)
    requires
        call_ensures(llama_tokens_free::<N>, (state, handle), r),
    ensures
        r is Ok <==> old(state)@.token_lists.contains_key(handle),
        !final(state)@.token_lists.contains_key(handle),
        other != handle ==> final(state)@.token_lists.contains_key(other)
            == old(state)@.token_lists.contains_key(other) && final(state)@.token_lists[other]
            == old(state)@.token_lists[other],
{
}

/// A model is loaded by the backend and with the options of the handles that are given, which are
/// then used up.
pub proof fn law_model_is_loaded<N, F: FnOnce(&N, ModelParams) -> Result<N, String>>(
    state: &mut LlamaState<N>,
    backend: i64,
    params: i64,
    load: F,
    r: VmResult<Value>,
)
    requires
        old(state).wf(),
        old(state)@.next < i64::MAX,
        call_ensures(llama_model_load::<N, F>, (state, backend, params, load), r),
        r is Ok,
    ensures
        old(state)@.backends.contains_key(backend),
        old(state)@.model_params.contains_key(params),
        !final(state)@.model_params.contains_key(params),
        r->Ok_0 is Int,
        !old(state)@.models.contains_key(r->Ok_0->Int_0),
        exists|made: Result<N, String>|
            {
                &&& #[trigger] call_ensures(
                    load,
                    (&old(state)@.backends[backend], old(state)@.model_params[params]),
                    made,
                )
                &&& made == Ok::<N, String>(final(state)@.models[r->Ok_0->Int_0])
            },
{
    let taken = LlamaView {
        model_params: old(state)@.model_params.remove(params),
        ..old(state)@
    };
    llama::law_model_is_loaded(
        load,
        taken,
        final(state)@,
        old(state)@.backends[backend],
        old(state)@.model_params[params],
        r,
        0,
    );
}

/// A context is made for the model, by the backend and with the options of the handles that are
/// given.
pub proof fn law_context_is_made<N, F: FnOnce(&N, &N, ContextParams) -> Result<N, String>>(
    state: &mut LlamaState<N>,
    model: i64,
    backend: i64,
    params: i64,
    make: F,
    r: VmResult<Value>,
)
    requires
        old(state).wf(),
        old(state)@.next < i64::MAX,
        call_ensures(llama_context_new::<N, F>, (state, model, backend, params, make), r),
        r is Ok,
    ensures
        old(state)@.models.contains_key(model),
        old(state)@.backends.contains_key(backend),
        old(state)@.context_params.contains_key(params),
        r->Ok_0 is Int,
        !old(state)@.contexts.contains_key(r->Ok_0->Int_0),
        exists|made: Result<N, String>|
            {
                &&& #[trigger] call_ensures(
                    make,
                    (
                        &old(state)@.models[model],
                        &old(state)@.backends[backend],
                        old(state)@.context_params[params],
                    ),
                    made,
                )
                &&& made == Ok::<N, String>(final(state)@.contexts[r->Ok_0->Int_0])
            },
{
    let taken = LlamaView {
        context_params: old(state)@.context_params.remove(params),
        ..old(state)@
    };
    llama::law_llama_context_is_made(
        make,
        taken,
        final(state)@,
        old(state)@.models[model],
        old(state)@.backends[backend],
        old(state)@.context_params[params],
        r,
        0,
    );
}

/// The parts of a sampler chain are added as they were asked for, each behind those that were.
pub proof fn law_sampler_parts_are_added<N>(
    state: &mut LlamaState<N>,
    handle: i64,
    n: i64,
    p: u64,
    r: VmResult<Value>,
)
    requires
        r is Ok,
    ensures
        call_ensures(llama_sampler_add_top_k::<N>, (state, handle, n), r) ==> i32::MIN <= n
            <= i32::MAX && final(state)@.samplers[handle].pending
            == old(state)@.samplers[handle].pending.push(SamplerPart::TopK(n as i32)),
        call_ensures(llama_sampler_add_top_p::<N>, (state, handle, p, n), r) ==> 0 <= n
            <= usize::MAX && final(state)@.samplers[handle].pending
            == old(state)@.samplers[handle].pending.push(SamplerPart::TopP(p, n as usize)),
        call_ensures(llama_sampler_add_min_p::<N>, (state, handle, p, n), r) ==> 0 <= n
            <= usize::MAX && final(state)@.samplers[handle].pending
            == old(state)@.samplers[handle].pending.push(SamplerPart::MinP(p, n as usize)),
        call_ensures(llama_sampler_add_dist::<N>, (state, handle, n), r) ==> 0 <= n <= u32::MAX
            && final(state)@.samplers[handle].pending
            == old(state)@.samplers[handle].pending.push(SamplerPart::Dist(n as u32)),
{
}

/// A batch, an entry of one, a sample and a token are asked for with the numbers that were given,
/// each as what it was given for, and of resources that are there.
pub proof fn law_llama_requests<N>(
    state: &LlamaState<N>,
    a: i64,
    b: i64,
    c: i64,
    d: i64,
    sizes: VmResult<(usize, i32)>,
    entry: VmResult<BatchEntry>,
    number: VmResult<i32>,
    done: VmResult<()>,
)
    ensures
        call_ensures(llama_batch_init, (a, b), sizes) && sizes is Ok ==> sizes->Ok_0.0 == a
            && sizes->Ok_0.1 == b,
        call_ensures(llama_batch_add::<N>, (state, a, b, c, d), entry) && entry is Ok
            ==> state@.batches.contains_key(a) && entry->Ok_0.token == b && entry->Ok_0.position
            == c && entry->Ok_0.sequence == d,
        call_ensures(llama_sampler_sample::<N>, (state, a, b, c), number) && number is Ok
            ==> state@.contexts.contains_key(b) && state@.samplers.contains_key(a)
            && state@.samplers[a].sampler is Some && number->Ok_0 == c,
        call_ensures(llama_sampler_accept::<N>, (state, a, b), number) && number is Ok
            ==> state@.samplers.contains_key(a) && state@.samplers[a].sampler is Some
            && number->Ok_0 == b,
        call_ensures(llama_decoder_push::<N>, (state, a, b, c), number) && number is Ok
            ==> state@.decoders.contains_key(a) && state@.models.contains_key(b) && number->Ok_0
            == c,
        call_ensures(llama_context_decode::<N>, (state, a, b), done) ==> (done is Ok
            <==> state@.contexts.contains_key(a) && state@.batches.contains_key(b)),
{
}

} // verus!
