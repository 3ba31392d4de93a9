//! The resources of stable-diffusion.cpp that scripts hold by handle, and the rules of their use.
use vstd::prelude::*;
use vstd::string::*;

use crate::ggml;
use crate::ggml::{select_stable_diffusion_package, SdPackage};
use crate::native;
use crate::native::{library_path, Os, Target};
use crate::registry;
use crate::runtime;
use crate::tables::HandleMap;
use crate::text;
use crate::value::{host_error, return_int, ErrorView, Value, ValueView, VmError, VmResult};

verus! {

/// The sample method that stands for a choice of the library's own.
pub const SAMPLE_METHOD_COUNT: i32 = 20;

/// The scheduler that stands for a choice of the library's own.
pub const SCHEDULER_COUNT: i32 = 16;

/// The weight type that stands for a choice of the library's own.
pub const SD_TYPE_COUNT: i32 = 42;

pub const SD_TYPE_F32: i32 = 0;

pub const SD_TYPE_F16: i32 = 1;

pub const SD_TYPE_Q8_0: i32 = 8;

pub const SD_TYPE_Q4_K: i32 = 12;

pub const SD_TYPE_Q5_K: i32 = 13;

pub const SD_TYPE_Q6_K: i32 = 14;

pub const SD_TYPE_BF16: i32 = 30;

/// The files that a context is made of; one that is not given is left out.
#[derive(Debug)]
pub struct CtxPaths {
    pub model: Option<String>,
    pub diffusion_model: Option<String>,
    pub vae: Option<String>,
    pub llm: Option<String>,
}

/// Where a context places its work, in the words of stable-diffusion.cpp.
#[derive(Debug)]
pub struct CtxPlacement {
    pub backend: Option<String>,
    pub params_backend: Option<String>,
    pub max_vram: Option<String>,
}

/// The flags of a context.
#[derive(Clone, Copy, Debug, PartialEq, Eq, Structural)]
pub struct CtxFlags {
    pub enable_mmap: bool,
    pub flash_attn: bool,
    pub diffusion_flash_attn: bool,
}

/// The options that a context is made with; those that were not set keep their defaults.
/// `backend` is what the script asked for, and decides on the package.
#[derive(Debug)]
pub struct CtxParams {
    pub paths: Option<CtxPaths>,
    pub backend: Option<String>,
    pub placement: Option<CtxPlacement>,
    pub wtype: Option<i32>,
    pub vae_format: Option<i32>,
    pub flags: Option<CtxFlags>,
}

/// A context: the package that it belongs to, and its address.
#[derive(Clone, Copy, Debug, PartialEq, Eq, Structural)]
pub struct SdCtxResource {
    pub package: SdPackage,
    pub ctx: usize,
}

/// The options that images are made with; those that were not set keep their defaults. The scale
/// of the guidance is held as its IEEE bits.
#[derive(Debug)]
pub struct ImgParams {
    pub prompt: String,
    pub negative_prompt: String,
    pub width: Option<i32>,
    pub height: Option<i32>,
    pub seed: Option<i64>,
    pub batch_count: Option<i32>,
    pub sample_steps: Option<i32>,
    pub cfg_scale: Option<u64>,
    pub sample_method: Option<i32>,
    pub scheduler: Option<i32>,
}

/// Images: the package that they belong to, their address and their number.
#[derive(Clone, Copy, Debug, PartialEq, Eq, Structural)]
pub struct SdImagesResource {
    pub package: SdPackage,
    pub images: usize,
    pub count: i32,
}

/// The resources of stable-diffusion.cpp.
pub struct SdState {
    pub next: i64,
    pub ctx_params: HandleMap<CtxParams>,
    pub ctxs: HandleMap<SdCtxResource>,
    pub img_params: HandleMap<ImgParams>,
    pub images: HandleMap<SdImagesResource>,
}

/// The model of an [`SdState`].
#[verifier::ext_equal]
pub struct SdView {
    pub next: i64,
    pub ctx_params: Map<i64, CtxParams>,
    pub ctxs: Map<i64, SdCtxResource>,
    pub img_params: Map<i64, ImgParams>,
    pub images: Map<i64, SdImagesResource>,
}

impl View for SdState {
    type V = SdView;

    open spec fn view(&self) -> SdView {
        SdView {
            next: self.next,
            ctx_params: self.ctx_params@,
            ctxs: self.ctxs@,
            img_params: self.img_params@,
            images: self.images@,
        }
    }
}

/// Whether every handle of a table was given out.
pub open spec fn given_out<V>(m: Map<i64, V>, next: i64) -> bool {
    forall|h: i64| #[trigger] m.contains_key(h) ==> 1 <= h < next
}

impl SdView {
    /// Every handle was given out by the counter, no context stands at the null address, and no
    /// batch is without images.
    pub open spec fn wf(self) -> bool {
        &&& 1 <= self.next
        &&& given_out(self.ctx_params, self.next)
        &&& given_out(self.ctxs, self.next)
        &&& given_out(self.img_params, self.next)
        &&& given_out(self.images, self.next)
        &&& forall|h: i64| #[trigger] self.ctxs.contains_key(h) ==> self.ctxs[h].ctx != 0
        &&& forall|h: i64| #[trigger]
            self.images.contains_key(h) ==> self.images[h].images != 0 && self.images[h].count > 0
    }
}

impl SdState {
    /// The state is in order.
    pub open spec fn wf(&self) -> bool {
        self@.wf()
    }

    /// A state without resources.
    pub fn new() -> (r: Self)
        ensures
            r.wf(),
            r@.next == 1,
            r@.ctx_params == Map::<i64, CtxParams>::empty(),
            r@.ctxs == Map::<i64, SdCtxResource>::empty(),
            r@.img_params == Map::<i64, ImgParams>::empty(),
            r@.images == Map::<i64, SdImagesResource>::empty(),
    {
        SdState {
            next: 1,
            ctx_params: HandleMap::new(),
            ctxs: HandleMap::new(),
            img_params: HandleMap::new(),
            images: HandleMap::new(),
        }
    }
}

/// The next handle of a state.
pub fn next_sd_handle(state: &mut SdState) -> (r: i64)
    requires
        old(state).next < i64::MAX,
    ensures
        r == old(state)@.next,
        final(state)@ == moved_on(old(state)@),
{
    registry::next_handle(&mut state.next)
}

/// The state after a handle was given out.
pub open spec fn moved_on(s: SdView) -> SdView {
    SdView { next: (s.next + 1) as i64, ..s }
}

/// What looking a resource up gives.
pub open spec fn lookup<V>(m: Map<i64, V>, kind: Seq<char>, handle: i64) -> Result<V, ErrorView> {
    registry::found(m, "stable diffusion"@, kind, handle)
}

/// What a script gets where all went well.
pub open spec fn done() -> Result<ValueView, ErrorView> {
    Ok(ValueView::Bool(true))
}

/// What a script gets where a resource was added: its handle.
pub open spec fn handed(s: SdView) -> Result<ValueView, ErrorView> {
    Ok(ValueView::Int(s.next))
}

/// The message on a step that failed.
pub open spec fn failure(step: Seq<char>, reason: Seq<char>) -> ErrorView {
    ErrorView::Host(step + ": "@ + reason)
}

/// The error on a step that failed.
pub fn sd_error(step: &str, reason: &str) -> (r: VmError)
    ensures
        r@ == failure(step@, reason@),
{
    host_error(text::join3(step, ": ", reason).as_str())
}

/// Whether a number is above zero.
pub open spec fn positive(value: i64, label: Seq<char>) -> Option<ErrorView> {
    if value <= 0 {
        Some(ErrorView::Host(label + " must be positive"@))
    } else {
        None
    }
}

/// Refuses a number that is not above zero.
pub fn validate_positive(value: i64, label: &str) -> (r: VmResult<()>)
    ensures
        match positive(value, label@) {
            Some(e) => r is Err && r->Err_0@ == e,
            None => r is Ok,
        },
{
    if value <= 0 {
        Err(host_error(text::join2(label, " must be positive").as_str()))
    } else {
        Ok(())
    }
}

/// A number as a C integer.
pub open spec fn as_c_int(value: i64, label: Seq<char>) -> Result<i32, ErrorView> {
    if i32::MIN <= value <= i32::MAX {
        Ok(value as i32)
    } else {
        Err(ErrorView::Host(label + " is out of range"@))
    }
}

/// A number as a C integer, where it fits.
pub fn checked_c_int(value: i64, label: &str) -> (r: VmResult<i32>)
    ensures
        match r {
            Ok(n) => as_c_int(value, label@) == Ok::<i32, ErrorView>(n),
            Err(e) => as_c_int(value, label@) == Err::<i32, ErrorView>(e@),
        },
{
    if i32::MIN as i64 <= value && value <= i32::MAX as i64 {
        Ok(value as i32)
    } else {
        Err(host_error(text::join2(label, " is out of range").as_str()))
    }
}

/// Whether a text can be handed to C.
pub open spec fn has_nul(s: Seq<char>) -> bool {
    s.contains('\0')
}

/// The message on a text that cannot be handed to C.
pub open spec fn nul_error(label: Seq<char>) -> ErrorView {
    ErrorView::Host(label + " must not contain NUL bytes"@)
}

/// A text that can be handed to C.
pub fn c_string(value: &str, label: &str) -> (r: VmResult<String>)
    ensures
        match r {
            Ok(s) => !has_nul(value@) && s@ == value@,
            Err(e) => has_nul(value@) && e@ == nul_error(label@),
        },
{
    let chars: Vec<char> = text::chars_of(value);
    let mut i: usize = 0;
    while i < chars.len()
        invariant
            chars@ == value@,
            i <= chars@.len(),
            forall|j: int| 0 <= j < i ==> chars@[j] != '\0',
        decreases chars@.len() - i,
    {
        if chars[i] == '\0' {
            assert(value@[i as int] == '\0');
            return Err(host_error(text::join2(label, " must not contain NUL bytes").as_str()));
        }
        i = i + 1;
    }
    Ok(value.to_string())
}

/// Whether a text leaves the choice open.
pub open spec fn is_open(value: Seq<char>) -> bool {
    value.len() == 0 || text::lower_text(value) == "auto"@
}

/// An optional text that is handed to C.
pub open spec fn optional_text(value: Seq<char>, label: Seq<char>) -> Result<
    Option<Seq<char>>,
    ErrorView,
> {
    if is_open(value) {
        Ok(None)
    } else if has_nul(value) {
        Err(nul_error(label))
    } else {
        Ok(Some(value))
    }
}

/// The model of an optional text.
pub open spec fn opt_view(s: Option<String>) -> Option<Seq<char>> {
    match s {
        Some(v) => Some(v@),
        None => None,
    }
}

fn leaves_open(value: &str) -> (r: bool)
    ensures
        r == is_open(value@),
{
    if value.unicode_len() == 0 {
        return true;
    }
    let low: String = text::to_ascii_lowercase(value);
    text::same_text(low.as_str(), "auto")
}

/// An optional text that can be handed to C; one that leaves the choice open is none.
pub fn optional_c_string(value: &str, label: &str) -> (r: VmResult<Option<String>>)
    ensures
        match r {
            Ok(s) => optional_text(value@, label@) == Ok::<Option<Seq<char>>, ErrorView>(
                opt_view(s),
            ),
            Err(e) => optional_text(value@, label@) == Err::<Option<Seq<char>>, ErrorView>(e@),
        },
{
    if leaves_open(value) {
        return Ok(None);
    }
    match c_string(value, label) {
        Ok(s) => Ok(Some(s)),
        Err(e) => Err(e),
    }
}

/// Whether a backend's name only chooses the package, and is not handed on.
pub open spec fn chooses_package(backend: Seq<char>) -> bool {
    let low = text::lower_text(backend);
    low == "auto"@ || low == "cpu"@ || low == "cuda"@ || low == "cuda12"@ || low == "vulkan"@
}

/// The backend that is handed on to stable-diffusion.cpp.
pub open spec fn native_backend(backend: Option<Seq<char>>) -> Option<Seq<char>> {
    match backend {
        Some(name) => if chooses_package(name) {
            None
        } else {
            Some(name)
        },
        None => None,
    }
}

/// The backend that is handed on to stable-diffusion.cpp.
pub fn sd_backend(backend: &Option<String>) -> (r: Option<String>)
    ensures
        opt_view(r) == native_backend(opt_view(*backend)),
{
    match backend {
        None => None,
        Some(name) => {
            let low: String = text::to_ascii_lowercase(name.as_str());
            if text::same_text(low.as_str(), "auto") || text::same_text(low.as_str(), "cpu")
                || text::same_text(low.as_str(), "cuda") || text::same_text(low.as_str(), "cuda12")
                || text::same_text(low.as_str(), "vulkan") {
                None
            } else {
                Some(name.clone())
            }
        },
    }
}

/// The weight type that a text names, in any letter case.
pub open spec fn weight_type(value: Seq<char>) -> Option<i32> {
    let low = text::lower_text(value);
    if low == ""@ || low == "auto"@ {
        Some(SD_TYPE_COUNT)
    } else if low == "f32"@ || low == "float"@ {
        Some(SD_TYPE_F32)
    } else if low == "f16"@ || low == "half"@ {
        Some(SD_TYPE_F16)
    } else if low == "bf16"@ {
        Some(SD_TYPE_BF16)
    } else if low == "q4_k"@ {
        Some(SD_TYPE_Q4_K)
    } else if low == "q5_k"@ {
        Some(SD_TYPE_Q5_K)
    } else if low == "q6_k"@ {
        Some(SD_TYPE_Q6_K)
    } else if low == "q8_0"@ || low == "q8"@ {
        Some(SD_TYPE_Q8_0)
    } else {
        None
    }
}

/// What reading a weight type gives.
pub open spec fn weight_type_outcome(value: Seq<char>) -> Result<i32, ErrorView> {
    match weight_type(value) {
        Some(n) => Ok(n),
        None => Err(
            ErrorView::Host(
                "unknown stable diffusion weight type '"@ + text::lower_text(value) + "'"@,
            ),
        ),
    }
}

/// The weight type that a text names.
pub fn parse_wtype(value: &str) -> (r: VmResult<i32>)
    ensures
        match r {
            Ok(n) => weight_type_outcome(value@) == Ok::<i32, ErrorView>(n),
            Err(e) => weight_type_outcome(value@) == Err::<i32, ErrorView>(e@),
        },
{
    let low: String = text::to_ascii_lowercase(value);
    let name: &str = low.as_str();
    if text::same_text(name, "") || text::same_text(name, "auto") {
        Ok(SD_TYPE_COUNT)
    } else if text::same_text(name, "f32") || text::same_text(name, "float") {
        Ok(SD_TYPE_F32)
    } else if text::same_text(name, "f16") || text::same_text(name, "half") {
        Ok(SD_TYPE_F16)
    } else if text::same_text(name, "bf16") {
        Ok(SD_TYPE_BF16)
    } else if text::same_text(name, "q4_k") {
        Ok(SD_TYPE_Q4_K)
    } else if text::same_text(name, "q5_k") {
        Ok(SD_TYPE_Q5_K)
    } else if text::same_text(name, "q6_k") {
        Ok(SD_TYPE_Q6_K)
    } else if text::same_text(name, "q8_0") || text::same_text(name, "q8") {
        Ok(SD_TYPE_Q8_0)
    } else {
        Err(
            host_error(
                text::join3("unknown stable diffusion weight type '", name, "'").as_str(),
            ),
        )
    }
}

/// The path of the library of stable-diffusion.cpp.
pub fn stable_diffusion_library_path(directory: &str, os: Os) -> (r: String)
    ensures
        r@ == native::entry_path(
            os,
            directory@,
            native::library_name(os, "stable-diffusion"@),
        ),
{
    library_path(directory, "stable-diffusion", os)
}

/// The result of loading a package.
pub open spec fn load_outcome(package: SdPackage, loaded: Result<(), String>) -> Result<
    SdPackage,
    ErrorView,
> {
    match loaded {
        Ok(()) => Ok(package),
        Err(m) => Err(failure("failed to load stable-diffusion.cpp"@, m@)),
    }
}

/// The model of a result.
pub open spec fn result_view<T>(r: VmResult<T>) -> Result<T, ErrorView> {
    match r {
        Ok(v) => Ok(v),
        Err(e) => Err(e@),
    }
}

/// Whether `r` can come of loading a package with `load`.
pub open spec fn loads<L: FnOnce(SdPackage) -> Result<(), String>>(
    load: L,
    package: SdPackage,
    r: Result<SdPackage, ErrorView>,
) -> bool {
    exists|loaded: Result<(), String>| #[trigger]
        call_ensures(load, (package,), loaded) && r == load_outcome(package, loaded)
}

/// Loads a package.
pub fn sd_api<L: FnOnce(SdPackage) -> Result<(), String>>(package: SdPackage, load: L) -> (r:
    VmResult<SdPackage>)
    requires
        call_requires(load, (package,)),
    ensures
        loads(load, package, result_view(r)),
{
    let loaded: Result<(), String> = load(package);
    let ghost result = loaded;
    let r: VmResult<SdPackage> = match loaded {
        Ok(()) => Ok(package),
        Err(m) => Err(sd_error("failed to load stable-diffusion.cpp", m.as_str())),
    };
    assert(call_ensures(load, (package,), result));
    assert(result_view(r) == load_outcome(package, result));
    r
}

/// Whether `r` can come of loading the package that suits the target with `load`.
pub open spec fn loads_current<L: FnOnce(SdPackage) -> Result<(), String>>(
    load: L,
    current: Result<SdPackage, String>,
    r: Result<SdPackage, ErrorView>,
) -> bool {
    match current {
        Err(m) => r == Err::<SdPackage, ErrorView>(
            failure("failed to select stable diffusion package"@, m@),
        ),
        Ok(package) => loads(load, package, r),
    }
}

/// Loads the package that suits the target.
pub fn sd_api_for_current_target<L: FnOnce(SdPackage) -> Result<(), String>>(
    current: Result<SdPackage, String>,
    load: L,
) -> (r: VmResult<SdPackage>)
    requires
        current is Ok ==> call_requires(load, (current->Ok_0,)),
    ensures
        loads_current(load, current, result_view(r)),
{
    match current {
        Err(m) => Err(sd_error("failed to select stable diffusion package", m.as_str())),
        Ok(package) => sd_api(package, load),
    }
}

/// Options of a context of which nothing is set.
pub open spec fn unset_ctx() -> CtxParams {
    CtxParams {
        paths: None,
        backend: None,
        placement: None,
        wtype: None,
        vae_format: None,
        flags: None,
    }
}

/// The state after the options of a context were started, and what the script gets; `ready` is the
/// result of loading the package that the options belong to.
pub open spec fn ctx_started(
    before: SdView,
    after: SdView,
    ready: Result<SdPackage, ErrorView>,
    r: VmResult<Value>,
) -> bool {
    match ready {
        Err(e) => {
            &&& runtime::outcome(r) == Err::<ValueView, ErrorView>(e)
            &&& after == before
        },
        Ok(_) => {
            &&& runtime::outcome(r) == handed(before)
            &&& after == (SdView {
                ctx_params: before.ctx_params.insert(before.next, unset_ctx()),
                ..moved_on(before)
            })
        },
    }
}

/// Starts the options of a context.
pub fn sd_ctx_params_init<L: FnOnce(SdPackage) -> Result<(), String>>(
    state: &mut SdState,
    current: Result<SdPackage, String>,
    load: L,
) -> (r: VmResult<Value>)
    requires
        old(state).wf(),
        old(state).next < i64::MAX,
        current is Ok ==> call_requires(load, (current->Ok_0,)),
    ensures
        final(state).wf(),
        exists|ready: Result<SdPackage, ErrorView>| #[trigger]
            loads_current(load, current, ready) && ctx_started(
                old(state)@,
                final(state)@,
                ready,
                r,
            ),
{
    let loaded: VmResult<SdPackage> = sd_api_for_current_target(current, load);
    let ghost ready = result_view(loaded);
    assert(loads_current(load, current, ready));
    match loaded {
        Ok(_) => {},
        Err(e) => {
            return Err(e);
        },
    }
    let handle: i64 = next_sd_handle(state);
    state.ctx_params.insert(
        handle,
        CtxParams {
            paths: None,
            backend: None,
            placement: None,
            wtype: None,
            vae_format: None,
            flags: None,
        },
    );
    return_int(handle)
}

/// The files of a context, read from a script's four texts.
pub open spec fn paths_outcome(
    model_path: Seq<char>,
    diffusion_model_path: Seq<char>,
    vae_path: Seq<char>,
    llm_path: Seq<char>,
) -> Result<(Option<Seq<char>>, Option<Seq<char>>, Option<Seq<char>>, Option<Seq<char>>), ErrorView> {
    match optional_text(model_path, "model_path"@) {
        Err(e) => Err(e),
        Ok(model) => match optional_text(diffusion_model_path, "diffusion_model_path"@) {
            Err(e) => Err(e),
            Ok(diffusion) => match optional_text(vae_path, "vae_path"@) {
                Err(e) => Err(e),
                Ok(vae) => match optional_text(llm_path, "llm_path"@) {
                    Err(e) => Err(e),
                    Ok(llm) => Ok((model, diffusion, vae, llm)),
                },
            },
        },
    }
}

/// The model of the files of a context.
pub open spec fn paths_view(paths: CtxPaths) -> (
    Option<Seq<char>>,
    Option<Seq<char>>,
    Option<Seq<char>>,
    Option<Seq<char>>,
) {
    (
        opt_view(paths.model),
        opt_view(paths.diffusion_model),
        opt_view(paths.vae),
        opt_view(paths.llm),
    )
}

fn read_paths(
    model_path: &str,
    diffusion_model_path: &str,
    vae_path: &str,
    llm_path: &str,
) -> (r: VmResult<CtxPaths>)
    ensures
        match r {
            Ok(p) => paths_outcome(model_path@, diffusion_model_path@, vae_path@, llm_path@) == Ok::<
                _,
                ErrorView,
            >(paths_view(p)),
            Err(e) => paths_outcome(model_path@, diffusion_model_path@, vae_path@, llm_path@)
                == Err::<
                (Option<Seq<char>>, Option<Seq<char>>, Option<Seq<char>>, Option<Seq<char>>),
                ErrorView,
            >(e@),
        },
{
    match optional_c_string(model_path, "model_path") {
        Err(e) => Err(e),
        Ok(model) => match optional_c_string(diffusion_model_path, "diffusion_model_path") {
            Err(e) => Err(e),
            Ok(diffusion_model) => match optional_c_string(vae_path, "vae_path") {
                Err(e) => Err(e),
                Ok(vae) => match optional_c_string(llm_path, "llm_path") {
                    Err(e) => Err(e),
                    Ok(llm) => Ok(CtxPaths { model, diffusion_model, vae, llm }),
                },
            },
        },
    }
}

/// Whether only the options of one handle differ between two states.
pub open spec fn ctx_changed(before: SdView, after: SdView, handle: i64) -> bool {
    &&& after.ctx_params.contains_key(handle)
    &&& after == (SdView {
        ctx_params: before.ctx_params.insert(handle, after.ctx_params[handle]),
        ..before
    })
}

/// Sets the files of a context.
pub fn sd_ctx_params_set_paths(
    state: &mut SdState,
    handle: i64,
    model_path: &str,
    diffusion_model_path: &str,
    vae_path: &str,
    llm_path: &str,
) -> (r: VmResult<Value>)
    requires
        old(state).wf(),
    ensures
        final(state).wf(),
        match lookup(old(state)@.ctx_params, "ctx params"@, handle) {
            Err(e) => {
                &&& runtime::outcome(r) == Err::<ValueView, ErrorView>(e)
                &&& final(state)@ == old(state)@
            },
            Ok(params) => match paths_outcome(
                model_path@,
                diffusion_model_path@,
                vae_path@,
                llm_path@,
            ) {
                Err(e) => {
                    &&& runtime::outcome(r) == Err::<ValueView, ErrorView>(e)
                    &&& final(state)@ == old(state)@
                },
                Ok(paths) => {
                    let now = final(state)@.ctx_params[handle];
                    &&& runtime::outcome(r) == done()
                    &&& ctx_changed(old(state)@, final(state)@, handle)
                    &&& now.paths is Some
                    &&& paths_view(now.paths->0) == paths
                    &&& now == (CtxParams { paths: now.paths, ..params })
                },
            },
        },
{
    let params: &mut CtxParams = match registry::get_mut_in(
        &mut state.ctx_params,
        "stable diffusion",
        "ctx params",
        handle,
    ) {
        Ok(params) => params,
        Err(e) => {
            return Err(e);
        },
    };
    let paths: CtxPaths = match read_paths(model_path, diffusion_model_path, vae_path, llm_path) {
        Ok(paths) => paths,
        Err(e) => {
            return Err(e);
        },
    };
    params.paths = Some(paths);
    Ok(Value::Bool(true))
}

/// The model of where a context places its work.
pub open spec fn placement_view(p: CtxPlacement) -> (
    Option<Seq<char>>,
    Option<Seq<char>>,
    Option<Seq<char>>,
) {
    (opt_view(p.backend), opt_view(p.params_backend), opt_view(p.max_vram))
}

/// Sets where a context places its work. The backend that decides on the package is taken as soon
/// as it is read, also where a later text is refused.
pub fn sd_ctx_params_set_backend(
    state: &mut SdState,
    handle: i64,
    backend: &str,
    params_backend: &str,
    max_vram: &str,
) -> (r: VmResult<Value>)
    requires
        old(state).wf(),
    ensures
        final(state).wf(),
        match lookup(old(state)@.ctx_params, "ctx params"@, handle) {
            Err(e) => {
                &&& runtime::outcome(r) == Err::<ValueView, ErrorView>(e)
                &&& final(state)@ == old(state)@
            },
            Ok(params) => match optional_text(backend@, "backend"@) {
                Err(e) => {
                    &&& runtime::outcome(r) == Err::<ValueView, ErrorView>(e)
                    &&& final(state)@ == old(state)@
                },
                Ok(asked) => {
                    let now = final(state)@.ctx_params[handle];
                    &&& ctx_changed(old(state)@, final(state)@, handle)
                    &&& opt_view(now.backend) == asked
                    &&& match optional_text(params_backend@, "params_backend"@) {
                        Err(e) => {
                            &&& runtime::outcome(r) == Err::<ValueView, ErrorView>(e)
                            &&& now == (CtxParams { backend: now.backend, ..params })
                        },
                        Ok(params_place) => match optional_text(max_vram@, "max_vram"@) {
                            Err(e) => {
                                &&& runtime::outcome(r) == Err::<ValueView, ErrorView>(e)
                                &&& now == (CtxParams { backend: now.backend, ..params })
                            },
                            Ok(vram) => {
                                &&& runtime::outcome(r) == done()
                                &&& now.placement is Some
                                &&& placement_view(now.placement->0) == (
                                    native_backend(asked),
                                    params_place,
                                    vram,
                                )
                                &&& now == (CtxParams {
                                    backend: now.backend,
                                    placement: now.placement,
                                    ..params
                                })
                            },
                        },
                    }
                },
            },
        },
{
    let params: &mut CtxParams = match registry::get_mut_in(
        &mut state.ctx_params,
        "stable diffusion",
        "ctx params",
        handle,
    ) {
        Ok(params) => params,
        Err(e) => {
            return Err(e);
        },
    };
    let asked: Option<String> = match optional_c_string(backend, "backend") {
        Ok(asked) => asked,
        Err(e) => {
            return Err(e);
        },
    };
    let native: Option<String> = sd_backend(&asked);
    params.backend = asked;
    let params_backend: Option<String> = match optional_c_string(params_backend, "params_backend") {
        Ok(s) => s,
        Err(e) => {
            return Err(e);
        },
    };
    let max_vram: Option<String> = match optional_c_string(max_vram, "max_vram") {
        Ok(s) => s,
        Err(e) => {
            return Err(e);
        },
    };
    params.placement = Some(CtxPlacement { backend: native, params_backend, max_vram });
    Ok(Value::Bool(true))
}

/// What setting one option of a context comes to: `value` is the option, or why it is refused.
pub open spec fn ctx_option_set<T>(
    before: SdView,
    after: SdView,
    handle: i64,
    value: Result<T, ErrorView>,
    set: spec_fn(CtxParams, T) -> CtxParams,
    r: VmResult<Value>,
) -> bool {
    match lookup(before.ctx_params, "ctx params"@, handle) {
        Err(e) => {
            &&& runtime::outcome(r) == Err::<ValueView, ErrorView>(e)
            &&& after == before
        },
        Ok(params) => match value {
            Err(e) => {
                &&& runtime::outcome(r) == Err::<ValueView, ErrorView>(e)
                &&& after == before
            },
            Ok(v) => {
                &&& runtime::outcome(r) == done()
                &&& after == (SdView {
                    ctx_params: before.ctx_params.insert(handle, set(params, v)),
                    ..before
                })
            },
        },
    }
}

/// Sets the weight type of a context.
pub fn sd_ctx_params_set_wtype(
    state: &mut SdState,
    handle: i64,
    wtype: &str,
) -> (r: VmResult<Value>)
    requires
        old(state).wf(),
    ensures
        final(state).wf(),
        ctx_option_set(
            old(state)@,
            final(state)@,
            handle,
            weight_type_outcome(wtype@),
            (|p: CtxParams, n: i32| (CtxParams { wtype: Some(n), ..p })),
            r,
        ),
{
    let params: &mut CtxParams = match registry::get_mut_in(
        &mut state.ctx_params,
        "stable diffusion",
        "ctx params",
        handle,
    ) {
        Ok(params) => params,
        Err(e) => {
            return Err(e);
        },
    };
    match parse_wtype(wtype) {
        Ok(n) => {
            params.wtype = Some(n);
        },
        Err(e) => {
            assert(state@.ctx_params =~= old(state)@.ctx_params);
            return Err(e);
        },
    }
    Ok(Value::Bool(true))
}

/// Sets the format of a context's image coder.
pub fn sd_ctx_params_set_vae_format(state: &mut SdState, handle: i64, vae_format: i64) -> (r:
    VmResult<Value>)
    requires
        old(state).wf(),
    ensures
        final(state).wf(),
        ctx_option_set(
            old(state)@,
            final(state)@,
            handle,
            as_c_int(vae_format, "vae_format"@),
            (|p: CtxParams, n: i32| (CtxParams { vae_format: Some(n), ..p })),
            r,
        ),
{
    let params: &mut CtxParams = match registry::get_mut_in(
        &mut state.ctx_params,
        "stable diffusion",
        "ctx params",
        handle,
    ) {
        Ok(params) => params,
        Err(e) => {
            return Err(e);
        },
    };
    match checked_c_int(vae_format, "vae_format") {
        Ok(n) => {
            params.vae_format = Some(n);
        },
        Err(e) => {
            assert(state@.ctx_params =~= old(state)@.ctx_params);
            return Err(e);
        },
    }
    Ok(Value::Bool(true))
}

/// Sets the flags of a context.
pub fn sd_ctx_params_set_flags(
    state: &mut SdState,
    handle: i64,
    enable_mmap: bool,
    flash_attn: bool,
    diffusion_flash_attn: bool,
) -> (r: VmResult<Value>)
    requires
        old(state).wf(),
    ensures
        final(state).wf(),
        ctx_option_set(
            old(state)@,
            final(state)@,
            handle,
            Ok::<CtxFlags, ErrorView>(CtxFlags { enable_mmap, flash_attn, diffusion_flash_attn }),
            (|p: CtxParams, f: CtxFlags| (CtxParams { flags: Some(f), ..p })),
            r,
        ),
{
    match registry::get_mut_in(&mut state.ctx_params, "stable diffusion", "ctx params", handle) {
        Ok(params) => {
            params.flags = Some(CtxFlags { enable_mmap, flash_attn, diffusion_flash_attn });
        },
        Err(e) => {
            return Err(e);
        },
    }
    Ok(Value::Bool(true))
}

/// The package that the options of a context ask for.
pub open spec fn ctx_package(
    s: SdView,
    handle: i64,
    target: Target,
    current: Result<SdPackage, Seq<char>>,
) -> Result<SdPackage, ErrorView> {
    match lookup(s.ctx_params, "ctx params"@, handle) {
        Err(e) => Err(e),
        Ok(params) => match ggml::package_for(opt_view(params.backend), target, current) {
            Ok(p) => Ok(p),
            Err(m) => Err(failure("failed to select stable diffusion backend"@, m)),
        },
    }
}

/// The package that the options of a context ask for.
pub fn select_package(
    state: &SdState,
    handle: i64,
    target: Target,
    current: Result<SdPackage, String>,
) -> (r: VmResult<SdPackage>)
    ensures
        match r {
            Ok(p) => ctx_package(state@, handle, target, ggml::package_view(current)) == Ok::<
                SdPackage,
                ErrorView,
            >(p),
            Err(e) => ctx_package(state@, handle, target, ggml::package_view(current)) == Err::<
                SdPackage,
                ErrorView,
            >(e@),
        },
{
    let params: &CtxParams = match registry::get_in(
        &state.ctx_params,
        "stable diffusion",
        "ctx params",
        handle,
    ) {
        Ok(params) => params,
        Err(e) => {
            return Err(e);
        },
    };
    let backend: Option<&str> = match &params.backend {
        Some(name) => Some(name.as_str()),
        None => None,
    };
    match select_stable_diffusion_package(backend, target, current) {
        Ok(p) => Ok(p),
        Err(m) => Err(sd_error("failed to select stable diffusion backend", m.as_str())),
    }
}

/// What is shown of the devices that were found.
pub fn devices_note(devices: &str) -> (r: String)
    ensures
        r@ == "stable-diffusion.cpp devices:\n"@ + devices@,
{
    text::join2("stable-diffusion.cpp devices:\n", devices)
}

/// The state after a context was made at an address, and what the script gets; the null address is
/// none.
pub open spec fn ctx_added(
    before: SdView,
    after: SdView,
    package: SdPackage,
    ctx: usize,
    r: VmResult<Value>,
) -> bool {
    if ctx == 0 {
        &&& runtime::outcome(r) == Err::<ValueView, ErrorView>(
            ErrorView::Host("new_sd_ctx returned null"@),
        )
        &&& after == before
    } else {
        &&& runtime::outcome(r) == handed(before)
        &&& after == (SdView {
            ctxs: before.ctxs.insert(before.next, (SdCtxResource { package, ctx })),
            ..moved_on(before)
        })
    }
}

/// Whether a context can come of making one with `create` on devices that were found.
pub open spec fn ctx_created<C: FnOnce(SdPackage, &CtxParams, String) -> usize>(
    create: C,
    before: SdView,
    after: SdView,
    package: SdPackage,
    params: CtxParams,
    devices: String,
    r: VmResult<Value>,
) -> bool {
    exists|ctx: usize| #[trigger]
        call_ensures(create, (package, &params, devices), ctx) && ctx_added(
            before,
            after,
            package,
            ctx,
            r,
        )
}

/// Whether a context can come of listing the devices with `list` and making it with `create`.
pub open spec fn ctx_listed<
    D: FnOnce(SdPackage) -> Result<String, String>,
    C: FnOnce(SdPackage, &CtxParams, String) -> usize,
>(
    list: D,
    create: C,
    before: SdView,
    after: SdView,
    package: SdPackage,
    params: CtxParams,
    r: VmResult<Value>,
) -> bool {
    exists|listed: Result<String, String>| #[trigger]
        call_ensures(list, (package,), listed) && match listed {
            Err(m) => {
                &&& runtime::outcome(r) == Err::<ValueView, ErrorView>(
                    failure("failed to list stable diffusion devices"@, m@),
                )
                &&& after == before
            },
            Ok(devices) => if text::trimmed(devices@).len() == 0 {
                &&& runtime::outcome(r) == Err::<ValueView, ErrorView>(
                    ErrorView::Host("stable-diffusion.cpp reported no ggml backend devices"@),
                )
                &&& after == before
            } else {
                ctx_created(create, before, after, package, params, devices, r)
            },
        }
}

/// Whether a context can come of loading its package, listing the devices and making it.
pub open spec fn ctx_loaded<
    L: FnOnce(SdPackage) -> Result<(), String>,
    D: FnOnce(SdPackage) -> Result<String, String>,
    C: FnOnce(SdPackage, &CtxParams, String) -> usize,
>(
    load: L,
    list: D,
    create: C,
    before: SdView,
    after: SdView,
    package: SdPackage,
    params: CtxParams,
    r: VmResult<Value>,
) -> bool {
    exists|ready: Result<SdPackage, ErrorView>| #[trigger]
        loads(load, package, ready) && match ready {
            Err(e) => {
                &&& runtime::outcome(r) == Err::<ValueView, ErrorView>(e)
                &&& after == before
            },
            Ok(_) => ctx_listed(list, create, before, after, package, params, r),
        }
}

/// Makes a context of its options: chooses and loads the package, asks for the devices, and makes
/// the context only where there are some.
pub fn sd_new_sd_ctx<
    L: FnOnce(SdPackage) -> Result<(), String>,
    D: FnOnce(SdPackage) -> Result<String, String>,
    C: FnOnce(SdPackage, &CtxParams, String) -> usize,
>(
    state: &mut SdState,
    params_handle: i64,
    target: Target,
    current: Result<SdPackage, String>,
    load: L,
    list: D,
    create: C,
) -> (r: VmResult<Value>)
    requires
        old(state).wf(),
        old(state).next < i64::MAX,
        forall|p: SdPackage| #[trigger] call_requires(load, (p,)),
        forall|p: SdPackage| #[trigger] call_requires(list, (p,)),
        forall|p: SdPackage, params: &CtxParams, devices: String| #[trigger]
            call_requires(create, (p, params, devices)),
    ensures
        final(state).wf(),
        match ctx_package(old(state)@, params_handle, target, ggml::package_view(current)) {
            Err(e) => {
                &&& runtime::outcome(r) == Err::<ValueView, ErrorView>(e)
                &&& final(state)@ == old(state)@
            },
            Ok(package) => ctx_loaded(
                load,
                list,
                create,
                old(state)@,
                final(state)@,
                package,
                old(state)@.ctx_params[params_handle],
                r,
            ),
        },
{
    let package: SdPackage = match select_package(state, params_handle, target, current) {
        Ok(package) => package,
        Err(e) => {
            return Err(e);
        },
    };
    let loaded: VmResult<SdPackage> = sd_api(package, load);
    let ghost ready = result_view(loaded);
    assert(loads(load, package, ready));
    match loaded {
        Ok(_) => {},
        Err(e) => {
            return Err(e);
        },
    }
    let listed: Result<String, String> = list(package);
    let ghost found = listed;
    assert(call_ensures(list, (package,), found));
    let devices: String = match listed {
        Ok(devices) => devices,
        Err(m) => {
            return Err(sd_error("failed to list stable diffusion devices", m.as_str()));
        },
    };
    let shown: String = text::trim(devices.as_str());
    if shown.as_str().unicode_len() == 0 {
        return Err(host_error("stable-diffusion.cpp reported no ggml backend devices"));
    }
    let params: &CtxParams = match registry::get_in(
        &state.ctx_params,
        "stable diffusion",
        "ctx params",
        params_handle,
    ) {
        Ok(params) => params,
        Err(e) => {
            return Err(e);
        },
    };
    let ghost given = *params;
    let ghost named = devices;
    let ctx: usize = create(package, params, devices);
    assert(call_ensures(create, (package, &given, named), ctx));
    if ctx == 0 {
        let r: VmResult<Value> = Err(host_error("new_sd_ctx returned null"));
        assert(ctx_added(old(state)@, state@, package, ctx, r));
        return r;
    }
    let handle: i64 = next_sd_handle(state);
    state.ctxs.insert(handle, SdCtxResource { package, ctx });
    let r: VmResult<Value> = return_int(handle);
    assert(ctx_added(old(state)@, state@, package, ctx, r));
    r
}

/// Takes a context out, to be freed.
pub fn sd_free_sd_ctx(state: &mut SdState, handle: i64) -> (r: VmResult<SdCtxResource>)
    requires
        old(state).wf(),
    ensures
        final(state).wf(),
        final(state)@ == (SdView { ctxs: old(state)@.ctxs.remove(handle), ..old(state)@ }),
        match lookup(old(state)@.ctxs, "ctx"@, handle) {
            Ok(ctx) => r is Ok && r->Ok_0 == ctx,
            Err(e) => r is Err && r->Err_0@ == e,
        },
{
    registry::take_in(&mut state.ctxs, "stable diffusion", "ctx", handle)
}

/// Options of images of which nothing is set.
pub open spec fn is_unset_img(p: ImgParams) -> bool {
    &&& p.prompt@ == ""@
    &&& p.negative_prompt@ == ""@
    &&& p.width is None
    &&& p.height is None
    &&& p.seed is None
    &&& p.batch_count is None
    &&& p.sample_steps is None
    &&& p.cfg_scale is None
    &&& p.sample_method is None
    &&& p.scheduler is None
}

/// The state after the options of images were started, and what the script gets; `ready` is the
/// result of loading the package that the options belong to.
pub open spec fn img_started(
    before: SdView,
    after: SdView,
    ready: Result<SdPackage, ErrorView>,
    r: VmResult<Value>,
) -> bool {
    match ready {
        Err(e) => {
            &&& runtime::outcome(r) == Err::<ValueView, ErrorView>(e)
            &&& after == before
        },
        Ok(_) => {
            let made = after.img_params[before.next];
            &&& runtime::outcome(r) == handed(before)
            &&& is_unset_img(made)
            &&& after == (SdView {
                img_params: before.img_params.insert(before.next, made),
                ..moved_on(before)
            })
        },
    }
}

/// Starts the options of images.
pub fn sd_img_gen_params_init<L: FnOnce(SdPackage) -> Result<(), String>>(
    state: &mut SdState,
    current: Result<SdPackage, String>,
    load: L,
) -> (r: VmResult<Value>)
    requires
        old(state).wf(),
        old(state).next < i64::MAX,
        current is Ok ==> call_requires(load, (current->Ok_0,)),
    ensures
        final(state).wf(),
        exists|ready: Result<SdPackage, ErrorView>| #[trigger]
            loads_current(load, current, ready) && img_started(
                old(state)@,
                final(state)@,
                ready,
                r,
            ),
{
    let loaded: VmResult<SdPackage> = sd_api_for_current_target(current, load);
    let ghost ready = result_view(loaded);
    assert(loads_current(load, current, ready));
    match loaded {
        Ok(_) => {},
        Err(e) => {
            return Err(e);
        },
    }
    let handle: i64 = next_sd_handle(state);
    state.img_params.insert(
        handle,
        ImgParams {
            prompt: "".to_string(),
            negative_prompt: "".to_string(),
            width: None,
            height: None,
            seed: None,
            batch_count: None,
            sample_steps: None,
            cfg_scale: None,
            sample_method: None,
            scheduler: None,
        },
    );
    return_int(handle)
}

/// Sets the prompts of images.
pub fn sd_img_gen_params_set_prompt(
    state: &mut SdState,
    handle: i64,
    prompt: &str,
    negative_prompt: &str,
) -> (r: VmResult<Value>)
    requires
        old(state).wf(),
    ensures
        final(state).wf(),
        match lookup(old(state)@.img_params, "image params"@, handle) {
            Err(e) => {
                &&& runtime::outcome(r) == Err::<ValueView, ErrorView>(e)
                &&& final(state)@ == old(state)@
            },
            Ok(params) => if has_nul(prompt@) {
                &&& runtime::outcome(r) == Err::<ValueView, ErrorView>(nul_error("prompt"@))
                &&& final(state)@ == old(state)@
            } else if has_nul(negative_prompt@) {
                &&& runtime::outcome(r) == Err::<ValueView, ErrorView>(
                    nul_error("negative_prompt"@),
                )
                &&& final(state)@ == old(state)@
            } else {
                let now = final(state)@.img_params[handle];
                &&& runtime::outcome(r) == done()
                &&& now.prompt@ == prompt@
                &&& now.negative_prompt@ == negative_prompt@
                &&& now == (ImgParams {
                    prompt: now.prompt,
                    negative_prompt: now.negative_prompt,
                    ..params
                })
                &&& final(state)@ == (SdView {
                    img_params: old(state)@.img_params.insert(handle, now),
                    ..old(state)@
                })
            },
        },
{
    let params: &mut ImgParams = match registry::get_mut_in(
        &mut state.img_params,
        "stable diffusion",
        "image params",
        handle,
    ) {
        Ok(params) => params,
        Err(e) => {
            return Err(e);
        },
    };
    let prompt: String = match c_string(prompt, "prompt") {
        Ok(s) => s,
        Err(e) => {
            return Err(e);
        },
    };
    let negative_prompt: String = match c_string(negative_prompt, "negative_prompt") {
        Ok(s) => s,
        Err(e) => {
            return Err(e);
        },
    };
    params.prompt = prompt;
    params.negative_prompt = negative_prompt;
    Ok(Value::Bool(true))
}

/// The options after some were set, and the error that stopped it, if any.
pub open spec fn img_options_set(
    before: SdView,
    after: SdView,
    handle: i64,
    refused: Option<ErrorView>,
    set: spec_fn(ImgParams) -> (ImgParams, Option<ErrorView>),
    r: VmResult<Value>,
) -> bool {
    match refused {
        Some(e) => {
            &&& runtime::outcome(r) == Err::<ValueView, ErrorView>(e)
            &&& after == before
        },
        None => match lookup(before.img_params, "image params"@, handle) {
            Err(e) => {
                &&& runtime::outcome(r) == Err::<ValueView, ErrorView>(e)
                &&& after == before
            },
            Ok(params) => {
                &&& after == (SdView {
                    img_params: before.img_params.insert(handle, set(params).0),
                    ..before
                })
                &&& runtime::outcome(r) == match set(params).1 {
                    Some(e) => Err::<ValueView, ErrorView>(e),
                    None => done(),
                }
            },
        },
    }
}

/// Sets two numbers one after the other; a number that does not fit stops it.
pub open spec fn size_set(p: ImgParams, width: i64, height: i64) -> (ImgParams, Option<ErrorView>) {
    match as_c_int(width, "width"@) {
        Err(e) => (p, Some(e)),
        Ok(w) => {
            let wide = ImgParams { width: Some(w), ..p };
            match as_c_int(height, "height"@) {
                Err(e) => (wide, Some(e)),
                Ok(h) => (ImgParams { height: Some(h), ..wide }, None),
            }
        },
    }
}

/// Sets the size of images. The width is kept where only the height does not fit.
pub fn sd_img_gen_params_set_size(state: &mut SdState, handle: i64, width: i64, height: i64) -> (r:
    VmResult<Value>)
    requires
        old(state).wf(),
    ensures
        final(state).wf(),
        img_options_set(
            old(state)@,
            final(state)@,
            handle,
            match positive(width, "width"@) {
                Some(e) => Some(e),
                None => positive(height, "height"@),
            },
            (|p: ImgParams| size_set(p, width, height)),
            r,
        ),
        r is Ok ==> final(state)@.img_params[handle] == (ImgParams {
            width: Some(width as i32),
            height: Some(height as i32),
            ..old(state)@.img_params[handle]
        }),
{
    match validate_positive(width, "width") {
        Ok(()) => {},
        Err(e) => {
            return Err(e);
        },
    }
    match validate_positive(height, "height") {
        Ok(()) => {},
        Err(e) => {
            return Err(e);
        },
    }
    let params: &mut ImgParams = match registry::get_mut_in(
        &mut state.img_params,
        "stable diffusion",
        "image params",
        handle,
    ) {
        Ok(params) => params,
        Err(e) => {
            return Err(e);
        },
    };
    match checked_c_int(width, "width") {
        Ok(n) => {
            params.width = Some(n);
        },
        Err(e) => {
            return Err(e);
        },
    }
    match checked_c_int(height, "height") {
        Ok(n) => {
            params.height = Some(n);
        },
        Err(e) => {
            return Err(e);
        },
    }
    Ok(Value::Bool(true))
}

/// Whether IEEE bits hold a number below zero: the sign is set, and the rest is neither zero nor
/// beyond infinity.
pub open spec fn below_zero(bits: u64) -> bool {
    0x8000_0000_0000_0000 < bits <= 0xfff0_0000_0000_0000
}

/// Sets how images are sampled; a number of steps that does not fit stops it.
pub open spec fn sample_set(p: ImgParams, steps: i64, seed: i64, cfg_scale: u64) -> (
    ImgParams,
    Option<ErrorView>,
) {
    let seeded = ImgParams { seed: Some(seed), batch_count: Some(1), ..p };
    match as_c_int(steps, "steps"@) {
        Err(e) => (seeded, Some(e)),
        Ok(n) => (
            ImgParams { sample_steps: Some(n), cfg_scale: Some(cfg_scale), ..seeded },
            None,
        ),
    }
}

/// Sets how images are sampled. The seed is kept where only the number of steps does not fit.
pub fn sd_img_gen_params_set_sample(
    state: &mut SdState,
    handle: i64,
    steps: i64,
    seed: i64,
    cfg_scale: u64,
) -> (r: VmResult<Value>)
    requires
        old(state).wf(),
    ensures
        final(state).wf(),
        img_options_set(
            old(state)@,
            final(state)@,
            handle,
            match positive(steps, "steps"@) {
                Some(e) => Some(e),
                None => if below_zero(cfg_scale) {
                    Some(ErrorView::Host("cfg_scale must be non-negative"@))
                } else {
                    None
                },
            },
            (|p: ImgParams| sample_set(p, steps, seed, cfg_scale)),
            r,
        ),
        r is Ok ==> final(state)@.img_params[handle] == (ImgParams {
            seed: Some(seed),
            batch_count: Some(1),
            sample_steps: Some(steps as i32),
            cfg_scale: Some(cfg_scale),
            ..old(state)@.img_params[handle]
        }),
{
    match validate_positive(steps, "steps") {
        Ok(()) => {},
        Err(e) => {
            return Err(e);
        },
    }
    if 0x8000_0000_0000_0000 < cfg_scale && cfg_scale <= 0xfff0_0000_0000_0000 {
        return Err(host_error("cfg_scale must be non-negative"));
    }
    let params: &mut ImgParams = match registry::get_mut_in(
        &mut state.img_params,
        "stable diffusion",
        "image params",
        handle,
    ) {
        Ok(params) => params,
        Err(e) => {
            return Err(e);
        },
    };
    params.seed = Some(seed);
    params.batch_count = Some(1);
    match checked_c_int(steps, "steps") {
        Ok(n) => {
            params.sample_steps = Some(n);
        },
        Err(e) => {
            return Err(e);
        },
    }
    params.cfg_scale = Some(cfg_scale);
    Ok(Value::Bool(true))
}

/// Sets the sample method and the scheduler; a number that does not fit stops it.
pub open spec fn sampler_set(p: ImgParams, sample_method: i64, scheduler: i64) -> (
    ImgParams,
    Option<ErrorView>,
) {
    match as_c_int(sample_method, "sample_method"@) {
        Err(e) => (p, Some(e)),
        Ok(m) => {
            let with_method = ImgParams { sample_method: Some(m), ..p };
            match as_c_int(scheduler, "scheduler"@) {
                Err(e) => (with_method, Some(e)),
                Ok(n) => (ImgParams { scheduler: Some(n), ..with_method }, None),
            }
        },
    }
}

/// Sets the sample method and the scheduler. The method is kept where only the scheduler does not
/// fit.
pub fn sd_img_gen_params_set_sampler(
    state: &mut SdState,
    handle: i64,
    sample_method: i64,
    scheduler: i64,
) -> (r: VmResult<Value>)
    requires
        old(state).wf(),
    ensures
        final(state).wf(),
        img_options_set(
            old(state)@,
            final(state)@,
            handle,
            None,
            (|p: ImgParams| sampler_set(p, sample_method, scheduler)),
            r,
        ),
        r is Ok ==> final(state)@.img_params[handle] == (ImgParams {
            sample_method: Some(sample_method as i32),
            scheduler: Some(scheduler as i32),
            ..old(state)@.img_params[handle]
        }),
{
    let params: &mut ImgParams = match registry::get_mut_in(
        &mut state.img_params,
        "stable diffusion",
        "image params",
        handle,
    ) {
        Ok(params) => params,
        Err(e) => {
            return Err(e);
        },
    };
    match checked_c_int(sample_method, "sample_method") {
        Ok(n) => {
            params.sample_method = Some(n);
        },
        Err(e) => {
            return Err(e);
        },
    }
    match checked_c_int(scheduler, "scheduler") {
        Ok(n) => {
            params.scheduler = Some(n);
        },
        Err(e) => {
            return Err(e);
        },
    }
    Ok(Value::Bool(true))
}

/// What is to be done with a name: nothing, as its number is known, or to ask for its number.
#[derive(Debug)]
pub enum NameStep {
    Known(i64),
    Ask(String),
}

/// What is to be done with a name; `open` is the number that stands for an open choice.
pub open spec fn name_step(name: Seq<char>, label: Seq<char>, open: i32, r: VmResult<NameStep>) -> bool {
    if is_open(name) {
        r matches Ok(NameStep::Known(n)) && n == open
    } else if has_nul(name) {
        r is Err && r->Err_0@ == nul_error(label)
    } else {
        r matches Ok(NameStep::Ask(s)) && s@ == name
    }
}

/// The number that was found for a name; `open` is found for none.
pub open spec fn number_outcome(what: Seq<char>, name: Seq<char>, open: i32, value: i32) -> Result<
    ValueView,
    ErrorView,
> {
    if value == open {
        Err(ErrorView::Host("unknown stable diffusion "@ + what + " '"@ + name + "'"@))
    } else {
        Ok(ValueView::Int(value as i64))
    }
}

fn named(name: &str, label: &str, open: i32) -> (r: VmResult<NameStep>)
    ensures
        name_step(name@, label@, open, r),
{
    if leaves_open(name) {
        return Ok(NameStep::Known(open as i64));
    }
    match c_string(name, label) {
        Ok(s) => Ok(NameStep::Ask(s)),
        Err(e) => Err(e),
    }
}

fn number_found(what: &str, name: &str, open: i32, value: i32) -> (r: VmResult<Value>)
    ensures
        runtime::outcome(r) == number_outcome(what@, name@, open, value),
{
    if value == open {
        let mut message: String = text::join3("unknown stable diffusion ", what, " '");
        message.append(name);
        message.append("'");
        return Err(host_error(message.as_str()));
    }
    return_int(value as i64)
}

/// What is to be done with the name of a sample method.
pub fn sd_str_to_sample_method(name: &str) -> (r: VmResult<NameStep>)
    ensures
        name_step(name@, "sample_method"@, SAMPLE_METHOD_COUNT, r),
{
    named(name, "sample_method", SAMPLE_METHOD_COUNT)
}

/// The sample method that was found for a name.
pub fn sample_method_found(name: &str, value: i32) -> (r: VmResult<Value>)
    ensures
        runtime::outcome(r) == number_outcome("sample method"@, name@, SAMPLE_METHOD_COUNT, value),
{
    number_found("sample method", name, SAMPLE_METHOD_COUNT, value)
}

/// What is to be done with the name of a scheduler.
pub fn sd_str_to_scheduler(name: &str) -> (r: VmResult<NameStep>)
    ensures
        name_step(name@, "scheduler"@, SCHEDULER_COUNT, r),
{
    named(name, "scheduler", SCHEDULER_COUNT)
}

/// The scheduler that was found for a name.
pub fn scheduler_found(name: &str, value: i32) -> (r: VmResult<Value>)
    ensures
        runtime::outcome(r) == number_outcome("scheduler"@, name@, SCHEDULER_COUNT, value),
{
    number_found("scheduler", name, SCHEDULER_COUNT, value)
}

/// A text that came from C, or the error that none came.
pub fn return_c_string(value: Option<String>, label: &str) -> (r: VmResult<Value>)
    ensures
        runtime::outcome(r) == match value {
            Some(s) => Ok(ValueView::String(s@)),
            None => Err(ErrorView::Host(label@ + " name pointer is null"@)),
        },
{
    match value {
        Some(s) => Ok(Value::String(s)),
        None => Err(host_error(text::join2(label, " name pointer is null").as_str())),
    }
}

/// The context of a handle.
pub fn sd_ctx(state: &SdState, handle: i64) -> (r: VmResult<SdCtxResource>)
    ensures
        match lookup(state@.ctxs, "ctx"@, handle) {
            Ok(ctx) => r is Ok && r->Ok_0 == ctx,
            Err(e) => r is Err && r->Err_0@ == e,
        },
{
    match registry::get_in(&state.ctxs, "stable diffusion", "ctx", handle) {
        Ok(ctx) => Ok(*ctx),
        Err(e) => Err(e),
    }
}

/// The context and the sample method that a default scheduler is asked for.
pub fn sd_get_default_scheduler(state: &SdState, ctx_handle: i64, sample_method: i64) -> (r:
    VmResult<(SdCtxResource, i32)>)
    ensures
        match as_c_int(sample_method, "sample_method"@) {
            Err(e) => r is Err && r->Err_0@ == e,
            Ok(n) => match lookup(state@.ctxs, "ctx"@, ctx_handle) {
                Err(e) => r is Err && r->Err_0@ == e,
                Ok(ctx) => r is Ok && r->Ok_0 == (ctx, n),
            },
        },
{
    match checked_c_int(sample_method, "sample_method") {
        Err(e) => Err(e),
        Ok(n) => match sd_ctx(state, ctx_handle) {
            Err(e) => Err(e),
            Ok(ctx) => Ok((ctx, n)),
        },
    }
}

/// What came of making images: whether it went well, their address and their number.
#[derive(Clone, Copy, Debug, PartialEq, Eq, Structural)]
pub struct Generated {
    pub ok: bool,
    pub images: usize,
    pub count: i32,
}

/// The state after images were made, and what the script gets.
pub open spec fn images_added(
    before: SdView,
    after: SdView,
    package: SdPackage,
    made: Generated,
    r: VmResult<Value>,
) -> bool {
    if !made.ok {
        &&& runtime::outcome(r) == Err::<ValueView, ErrorView>(
            ErrorView::Host("generate_image returned false"@),
        )
        &&& after == before
    } else if made.images == 0 || made.count <= 0 {
        &&& runtime::outcome(r) == Err::<ValueView, ErrorView>(
            ErrorView::Host("generate_image returned no images"@),
        )
        &&& after == before
    } else {
        &&& runtime::outcome(r) == handed(before)
        &&& after == (SdView {
            images: before.images.insert(
                before.next,
                (SdImagesResource { package, images: made.images, count: made.count }),
            ),
            ..moved_on(before)
        })
    }
}

/// Adds images that were made with a package.
pub fn sd_generated(state: &mut SdState, package: SdPackage, made: Generated) -> (r: VmResult<
    Value,
>)
    requires
        old(state).wf(),
        old(state).next < i64::MAX,
    ensures
        final(state).wf(),
        images_added(old(state)@, final(state)@, package, made, r),
{
    if !made.ok {
        return Err(host_error("generate_image returned false"));
    }
    if made.images == 0 || made.count <= 0 {
        return Err(host_error("generate_image returned no images"));
    }
    let handle: i64 = next_sd_handle(state);
    state.images.insert(
        handle,
        SdImagesResource { package, images: made.images, count: made.count },
    );
    return_int(handle)
}

/// Whether images can come of making them with `generate` in a context.
pub open spec fn images_made<G: FnOnce(SdCtxResource, &ImgParams) -> Generated>(
    generate: G,
    before: SdView,
    after: SdView,
    ctx: SdCtxResource,
    params: ImgParams,
    r: VmResult<Value>,
) -> bool {
    exists|made: Generated| #[trigger]
        call_ensures(generate, (ctx, &params), made) && images_added(
            before,
            after,
            ctx.package,
            made,
            r,
        )
}

/// Whether images can come of loading a context's package and making them.
pub open spec fn images_loaded<
    L: FnOnce(SdPackage) -> Result<(), String>,
    G: FnOnce(SdCtxResource, &ImgParams) -> Generated,
>(
    load: L,
    generate: G,
    before: SdView,
    after: SdView,
    ctx: SdCtxResource,
    params: ImgParams,
    r: VmResult<Value>,
) -> bool {
    exists|ready: Result<SdPackage, ErrorView>| #[trigger]
        loads(load, ctx.package, ready) && match ready {
            Err(e) => {
                &&& runtime::outcome(r) == Err::<ValueView, ErrorView>(e)
                &&& after == before
            },
            Ok(_) => images_made(generate, before, after, ctx, params, r),
        }
}

/// Makes images in a context.
pub fn sd_generate_image<
    L: FnOnce(SdPackage) -> Result<(), String>,
    G: FnOnce(SdCtxResource, &ImgParams) -> Generated,
>(state: &mut SdState, ctx_handle: i64, params_handle: i64, load: L, generate: G) -> (r: VmResult<
    Value,
>)
    requires
        old(state).wf(),
        old(state).next < i64::MAX,
        forall|p: SdPackage| #[trigger] call_requires(load, (p,)),
        forall|ctx: SdCtxResource, params: &ImgParams| #[trigger]
            call_requires(generate, (ctx, params)),
    ensures
        final(state).wf(),
        match lookup(old(state)@.ctxs, "ctx"@, ctx_handle) {
            Err(e) => {
                &&& runtime::outcome(r) == Err::<ValueView, ErrorView>(e)
                &&& final(state)@ == old(state)@
            },
            Ok(ctx) => match lookup(old(state)@.img_params, "image params"@, params_handle) {
                Err(e) => {
                    &&& runtime::outcome(r) == Err::<ValueView, ErrorView>(e)
                    &&& final(state)@ == old(state)@
                },
                Ok(params) => images_loaded(
                    load,
                    generate,
                    old(state)@,
                    final(state)@,
                    ctx,
                    params,
                    r,
                ),
            },
        },
{
    let ctx: SdCtxResource = match sd_ctx(state, ctx_handle) {
        Ok(ctx) => ctx,
        Err(e) => {
            return Err(e);
        },
    };
    let params: &ImgParams = match registry::get_in(
        &state.img_params,
        "stable diffusion",
        "image params",
        params_handle,
    ) {
        Ok(params) => params,
        Err(e) => {
            return Err(e);
        },
    };
    let loaded: VmResult<SdPackage> = sd_api(ctx.package, load);
    let ghost ready = result_view(loaded);
    assert(loads(load, ctx.package, ready));
    match loaded {
        Ok(_) => {},
        Err(e) => {
            return Err(e);
        },
    }
    let ghost given = *params;
    let made: Generated = generate(ctx, params);
    assert(call_ensures(generate, (ctx, &given), made));
    let r: VmResult<Value> = sd_generated(state, ctx.package, made);
    assert(images_made(generate, old(state)@, state@, ctx, given, r));
    r
}

/// The place of an image that is to be saved.
pub open spec fn image_place(s: SdView, handle: i64, index: i64) -> Result<
    (SdImagesResource, int),
    ErrorView,
> {
    match lookup(s.images, "images"@, handle) {
        Err(e) => Err(e),
        Ok(images) => if 0 <= index < images.count {
            Ok((images, index as int))
        } else {
            Err(
                ErrorView::Host(
                    "image index "@ + text::decimal(index as int) + " is out of range for "@
                        + text::decimal(images.count as int) + " image(s)"@,
                ),
            )
        },
    }
}

/// The place of an image that is to be saved.
pub fn sd_images_save(state: &SdState, handle: i64, index: i64) -> (r: VmResult<
    (SdImagesResource, usize),
>)
    ensures
        match r {
            Ok(place) => image_place(state@, handle, index) == Ok::<
                (SdImagesResource, int),
                ErrorView,
            >((place.0, place.1 as int)),
            Err(e) => image_place(state@, handle, index) == Err::<
                (SdImagesResource, int),
                ErrorView,
            >(e@),
        },
{
    let images: &SdImagesResource = match registry::get_in(
        &state.images,
        "stable diffusion",
        "images",
        handle,
    ) {
        Ok(images) => images,
        Err(e) => {
            return Err(e);
        },
    };
    if index < 0 || index >= images.count as i64 {
        let mut message: String = text::join3(
            "image index ",
            text::decimal_text(index as i128).as_str(),
            " is out of range for ",
        );
        message.append(text::decimal_text(images.count as i128).as_str());
        message.append(" image(s)");
        return Err(host_error(message.as_str()));
    }
    Ok((*images, index as usize))
}

/// The kinds of pixels that an image can be saved with.
#[derive(Clone, Copy, Debug, PartialEq, Eq, Structural)]
pub enum Pixels {
    Gray,
    Rgb,
    Rgba,
}

/// How many bytes an image has, or why it cannot be read.
pub fn image_bytes(null: bool, width: u32, height: u32, channel: u32) -> (r: Result<usize, String>)
    ensures
        match r {
            Ok(n) => !null && width * height <= u32::MAX && (width * height) * channel <= u32::MAX
                && n == (width * height) * channel,
            Err(m) => if null {
                m@ == "generated image data is null"@
            } else {
                &&& width * height > u32::MAX || (width * height) * channel > u32::MAX
                &&& m@ == "generated image dimensions overflow"@
            },
        },
{
    if null {
        return Err("generated image data is null".to_string());
    }
    match width.checked_mul(height) {
        None => Err("generated image dimensions overflow".to_string()),
        Some(pixels) => match pixels.checked_mul(channel) {
            None => Err("generated image dimensions overflow".to_string()),
            Some(n) => Ok(n as usize),
        },
    }
}

/// The kind of pixels that a number of channels means.
pub fn pixels_of(channel: u32) -> (r: Result<Pixels, String>)
    ensures
        match r {
            Ok(p) => (channel == 1 && p == Pixels::Gray) || (channel == 3 && p == Pixels::Rgb) || (
            channel == 4 && p == Pixels::Rgba),
            Err(m) => channel != 1 && channel != 3 && channel != 4 && m@
                == "unsupported generated image channel count "@ + text::decimal(channel as int),
        },
{
    match channel {
        1 => Ok(Pixels::Gray),
        3 => Ok(Pixels::Rgb),
        4 => Ok(Pixels::Rgba),
        _ => Err(
            text::join2(
                "unsupported generated image channel count ",
                text::decimal_text(channel as i128).as_str(),
            ),
        ),
    }
}

/// The result of saving an image: `made` tells whether its directory is there, and `saved` whether
/// it was written.
pub fn sd_image_saved(made: Result<(), String>, saved: Result<(), String>) -> (r: VmResult<Value>)
    ensures
        runtime::outcome(r) == match made {
            Err(m) => Err(failure("failed to create output directory"@, m@)),
            Ok(()) => match saved {
                Err(m) => Err(failure("failed to save stable diffusion image"@, m@)),
                Ok(()) => done(),
            },
        },
{
    match made {
        Err(m) => Err(sd_error("failed to create output directory", m.as_str())),
        Ok(()) => match saved {
            Err(m) => Err(sd_error("failed to save stable diffusion image", m.as_str())),
            Ok(()) => Ok(Value::Bool(true)),
        },
    }
}

/// Takes images out, to be freed.
pub fn sd_free_sd_images(state: &mut SdState, handle: i64) -> (r: VmResult<SdImagesResource>)
    requires
        old(state).wf(),
    ensures
        final(state).wf(),
        final(state)@ == (SdView { images: old(state)@.images.remove(handle), ..old(state)@ }),
        match lookup(old(state)@.images, "images"@, handle) {
            Ok(images) => r is Ok && r->Ok_0 == images,
            Err(e) => r is Err && r->Err_0@ == e,
        },
{
    registry::take_in(&mut state.images, "stable diffusion", "images", handle)
}

/// The name of a level of messages.
pub open spec fn level_name(level: i32) -> Seq<char> {
    match level {
        0 => "debug"@,
        1 => "info"@,
        2 => "warn"@,
        3 => "error"@,
        _ => "log"@,
    }
}

/// The line that a message is shown as; a message without a text is not shown.
pub fn sd_log_line(level: i32, message: Option<&str>) -> (r: Option<String>)
    ensures
        match message {
            None => r is None,
            Some(s) => r is Some && r->0@ == "stable-diffusion.cpp ["@ + level_name(level) + "] "@
                + s@,
        },
{
    match message {
        None => None,
        Some(s) => {
            let name: &str = match level {
                0 => "debug",
                1 => "info",
                2 => "warn",
                3 => "error",
                _ => "log",
            };
            let mut line: String = text::join3("stable-diffusion.cpp [", name, "] ");
            line.append(s);
            Some(line)
        },
    }
}

/// A name of a sample method or a scheduler that was looked up is never answered with the number
/// that stands for an open choice.
pub proof fn law_open_choice_is_not_found(what: Seq<char>, name: Seq<char>, open: i32, value: i32)
    ensures
        number_outcome(what, name, open, value) != Ok::<ValueView, ErrorView>(
            ValueView::Int(open as i64),
        ),
{
}

/// A backend that only chooses the package is not handed on, whatever its letter case; any other
/// is handed on as it is.
pub proof fn law_backend_is_handed_on(backend: Seq<char>)
    ensures
        native_backend(Some(backend)) == (if chooses_package(backend) {
            None
        } else {
            Some(backend)
        }),
        chooses_package(text::lower_text(backend)) == chooses_package(backend),
        native_backend(Some(backend)) is None <==> text::lower_text(backend) == "auto"@
            || text::lower_text(backend) == "cpu"@ || text::lower_text(backend) == "cuda"@
            || text::lower_text(backend) == "cuda12"@ || text::lower_text(backend) == "vulkan"@,
        native_backend(None) is None,
{
    assert(text::lower_text(text::lower_text(backend)) =~= text::lower_text(backend));
}

/// Every image of a batch has a place, and no other index has one.
pub proof fn law_images_have_places(s: SdView, handle: i64, index: i64)
    requires
        s.wf(),
        s.images.contains_key(handle),
    ensures
        image_place(s, handle, 0) is Ok,
        image_place(s, handle, index) is Ok <==> 0 <= index < s.images[handle].count,
{
}

/// The handle that is given out next names nothing of any kind yet.
pub proof fn law_sd_handles_are_fresh(s: SdView)
    requires
        s.wf(),
    ensures
        !s.ctx_params.contains_key(s.next),
        !s.ctxs.contains_key(s.next),
        !s.img_params.contains_key(s.next),
        !s.images.contains_key(s.next),
{
}

/// A size that is set is held as it was given: the width as the width and the height as the height,
/// and nothing else changes. Both are taken where they fit.
pub proof fn law_size_is_held(p: ImgParams, width: i64, height: i64)
    ensures
        ({
            let (now, refused) = size_set(p, width, height);
            &&& refused is None <==> i32::MIN <= width <= i32::MAX && i32::MIN <= height
                <= i32::MAX
            &&& refused is None ==> {
                &&& now.width matches Some(w) && w == width
                &&& now.height matches Some(h) && h == height
                &&& now.prompt == p.prompt
                &&& now.negative_prompt == p.negative_prompt
                &&& now.seed == p.seed
                &&& now.batch_count == p.batch_count
                &&& now.sample_steps == p.sample_steps
                &&& now.cfg_scale == p.cfg_scale
                &&& now.sample_method == p.sample_method
                &&& now.scheduler == p.scheduler
            }
        }),
{
}

/// What is set of the sampling is held as it was given: the steps, the seed and the scale, for one
/// image at a time; the size, the texts and the sampler stay.
pub proof fn law_sampling_is_held(p: ImgParams, steps: i64, seed: i64, cfg_scale: u64)
    ensures
        ({
            let (now, refused) = sample_set(p, steps, seed, cfg_scale);
            &&& refused is None <==> i32::MIN <= steps <= i32::MAX
            &&& refused is None ==> {
                &&& now.sample_steps matches Some(n) && n == steps
                &&& now.seed == Some(seed)
                &&& now.cfg_scale == Some(cfg_scale)
                &&& now.batch_count == Some(1i32)
                &&& now.width == p.width
                &&& now.height == p.height
                &&& now.prompt == p.prompt
                &&& now.negative_prompt == p.negative_prompt
                &&& now.sample_method == p.sample_method
                &&& now.scheduler == p.scheduler
            }
        }),
{
}

/// A sampler that is set is held as it was given: the method as the method and the scheduler as
/// the scheduler, and nothing else changes.
pub proof fn law_sampler_is_held(p: ImgParams, sample_method: i64, scheduler: i64)
    ensures
        ({
            let (now, refused) = sampler_set(p, sample_method, scheduler);
            &&& refused is None <==> i32::MIN <= sample_method <= i32::MAX && i32::MIN <= scheduler
                <= i32::MAX
            &&& refused is None ==> {
                &&& now.sample_method matches Some(m) && m == sample_method
                &&& now.scheduler matches Some(n) && n == scheduler
                &&& now.width == p.width
                &&& now.height == p.height
                &&& now.seed == p.seed
                &&& now.batch_count == p.batch_count
                &&& now.sample_steps == p.sample_steps
                &&& now.cfg_scale == p.cfg_scale
                &&& now.prompt == p.prompt
                &&& now.negative_prompt == p.negative_prompt
            }
        }),
{
}

/// Setting options of images changes the options of their handle alone, to what was set; it
/// succeeds where the handle is known and nothing is refused, and is refused as a whole before it
/// changes anything where the values are out of the question.
pub proof fn law_image_options_are_set(
    before: SdView,
    after: SdView,
    handle: i64,
    refused: Option<ErrorView>,
    set: spec_fn(ImgParams) -> (ImgParams, Option<ErrorView>),
    r: VmResult<Value>,
    other: i64,
)
    requires
        img_options_set(before, after, handle, refused, set, r),
    ensures
        r is Ok <==> refused is None && before.img_params.contains_key(handle) && set(
            before.img_params[handle],
        ).1 is None,
        r is Ok ==> after.img_params[handle] == set(before.img_params[handle]).0 && r->Ok_0
            == Value::Bool(true),
        refused is Some ==> after == before && r->Err_0@ == refused->0,
        other != handle ==> after.img_params.contains_key(other)
            == before.img_params.contains_key(other) && after.img_params[other]
            == before.img_params[other],
        after.next == before.next,
        after.ctx_params == before.ctx_params,
        after.ctxs == before.ctxs,
        after.images == before.images,
{
}

/// Setting an option of a context changes the options of its handle alone, to what was set, where
/// the handle is known and the value can be read; and else nothing.
pub proof fn law_context_option_is_set<T>(
    before: SdView,
    after: SdView,
    handle: i64,
    value: Result<T, ErrorView>,
    set: spec_fn(CtxParams, T) -> CtxParams,
    r: VmResult<Value>,
    other: i64,
)
    requires
        ctx_option_set(before, after, handle, value, set, r),
    ensures
        r is Ok <==> before.ctx_params.contains_key(handle) && value is Ok,
        r is Ok ==> after.ctx_params[handle] == set(before.ctx_params[handle], value->Ok_0),
        r is Err ==> after == before,
        other != handle ==> after.ctx_params[other] == before.ctx_params[other],
        after.next == before.next,
        after.ctxs == before.ctxs,
        after.img_params == before.img_params,
        after.images == before.images,
{
}

/// A number fits C where it fits 32 bits, and is then handed on as it is; what has to be positive
/// is refused where it is not.
pub proof fn law_numbers_for_c(value: i64, label: Seq<char>)
    ensures
        as_c_int(value, label) is Ok <==> -0x8000_0000 <= value <= 0x7fff_ffff,
        as_c_int(value, label) matches Ok(n) ==> n == value,
        positive(value, label) is None <==> value > 0,
{
}

/// A text that is left open, empty or `auto` in any letter case, asks for nothing; another is
/// handed on as it is, unless C would take its end for where a NUL stands.
pub proof fn law_text_for_c(value: Seq<char>, label: Seq<char>)
    ensures
        value.len() == 0 || text::lower_text(value) == "auto"@ ==> optional_text(value, label)
            == Ok::<Option<Seq<char>>, ErrorView>(None),
        value.len() > 0 && text::lower_text(value) != "auto"@ && value.contains('\0')
            ==> optional_text(value, label) is Err,
        value.len() > 0 && text::lower_text(value) != "auto"@ && !value.contains('\0')
            ==> optional_text(value, label) == Ok::<Option<Seq<char>>, ErrorView>(Some(value)),
{
}

/// The files of a context are those that were given, each as what it was given for.
pub proof fn law_paths_are_held(
    model: Seq<char>,
    diffusion: Seq<char>,
    vae: Seq<char>,
    llm: Seq<char>,
)
    ensures
        paths_outcome(model, diffusion, vae, llm) matches Ok(paths) ==> {
            &&& paths.0 == (if is_open(model) {
                None
            } else {
                Some(model)
            })
            &&& paths.1 == (if is_open(diffusion) {
                None
            } else {
                Some(diffusion)
            })
            &&& paths.2 == (if is_open(vae) {
                None
            } else {
                Some(vae)
            })
            &&& paths.3 == (if is_open(llm) {
                None
            } else {
                Some(llm)
            })
        },
        !model.contains('\0') && !diffusion.contains('\0') && !vae.contains('\0')
            && !llm.contains('\0') ==> paths_outcome(model, diffusion, vae, llm) is Ok,
{
}

/// A weight type is named in any letter case, and each has the number that stable-diffusion.cpp
/// knows it by.
pub proof fn law_weight_types(s: Seq<char>, t: Seq<char>)
    ensures
        text::lower_text(s) == text::lower_text(t) ==> weight_type_outcome(s)
            == weight_type_outcome(t),
        text::lower_text(s) == "f32"@ ==> weight_type_outcome(s) == Ok::<i32, ErrorView>(0),
        text::lower_text(s) == "f16"@ ==> weight_type_outcome(s) == Ok::<i32, ErrorView>(1),
        text::lower_text(s) == "q8_0"@ ==> weight_type_outcome(s) == Ok::<i32, ErrorView>(8),
        text::lower_text(s) == "q4_k"@ ==> weight_type_outcome(s) == Ok::<i32, ErrorView>(12),
        text::lower_text(s) == "q5_k"@ ==> weight_type_outcome(s) == Ok::<i32, ErrorView>(13),
        text::lower_text(s) == "q6_k"@ ==> weight_type_outcome(s) == Ok::<i32, ErrorView>(14),
        text::lower_text(s) == "bf16"@ ==> weight_type_outcome(s) == Ok::<i32, ErrorView>(30),
        s.len() == 0 ==> weight_type_outcome(s) == Ok::<i32, ErrorView>(42),
{
    reveal_strlit("");
    reveal_strlit("auto");
    reveal_strlit("f32");
    reveal_strlit("float");
    reveal_strlit("f16");
    reveal_strlit("half");
    reveal_strlit("bf16");
    reveal_strlit("q4_k");
    reveal_strlit("q5_k");
    reveal_strlit("q6_k");
    reveal_strlit("q8_0");
    reveal_strlit("q8");
    assert("f32"@[1] == '3' && "f16"@[1] == '1');
    assert("f32"@.len() == 3 && "f16"@.len() == 3 && ""@.len() == 0 && "auto"@.len() == 4);
    assert("float"@.len() == 5 && "half"@.len() == 4);
    assert("auto"@[0] == 'a' && "half"@[0] == 'h' && "bf16"@[0] == 'b' && "q4_k"@[0] == 'q');
    assert("q4_k"@[1] == '4' && "q5_k"@[1] == '5' && "q6_k"@[1] == '6' && "q8_0"@[1] == '8');
    assert("f32"@ != "f16"@);
    assert("bf16"@ != "auto"@ && "bf16"@ != "half"@);
    assert("q4_k"@ != "auto"@ && "q4_k"@ != "half"@ && "q4_k"@ != "bf16"@);
    assert("q5_k"@ != "auto"@ && "q5_k"@ != "half"@ && "q5_k"@ != "bf16"@ && "q5_k"@ != "q4_k"@);
    assert("q6_k"@ != "auto"@ && "q6_k"@ != "half"@ && "q6_k"@ != "bf16"@ && "q6_k"@ != "q4_k"@
        && "q6_k"@ != "q5_k"@);
    assert("q8_0"@ != "auto"@ && "q8_0"@ != "half"@ && "q8_0"@ != "bf16"@ && "q8_0"@ != "q4_k"@
        && "q8_0"@ != "q5_k"@ && "q8_0"@ != "q6_k"@);
    if s.len() == 0 {
        assert(text::lower_text(s) =~= ""@);
    }
}

/// A context that was made is found under a handle that named none before, as the one that was
/// made with its package; one that could not be made leaves everything as it was.
pub proof fn law_context_is_made(
    before: SdView,
    after: SdView,
    package: SdPackage,
    ctx: usize,
    r: VmResult<Value>,
    other: i64,
)
    requires
        before.wf(),
        before.next < i64::MAX,
        ctx_added(before, after, package, ctx, r),
    ensures
        r is Ok <==> ctx != 0,
        r is Err ==> after == before,
        r is Ok ==> r->Ok_0 is Int && {
            let handle = r->Ok_0->Int_0;
            &&& !before.ctxs.contains_key(handle)
            &&& lookup(after.ctxs, "ctx"@, handle) == Ok::<SdCtxResource, ErrorView>(
                (SdCtxResource { package, ctx }),
            )
            &&& other != handle ==> lookup(after.ctxs, "ctx"@, other) == lookup(
                before.ctxs,
                "ctx"@,
                other,
            )
            &&& after.next > handle
        },
{
}

/// Images that were made are found under a handle that named none before, with their number and
/// the package of the context that made them; where none were made, everything stays.
pub proof fn law_images_are_made(
    before: SdView,
    after: SdView,
    package: SdPackage,
    made: Generated,
    r: VmResult<Value>,
    other: i64,
)
    requires
        before.wf(),
        before.next < i64::MAX,
        images_added(before, after, package, made, r),
    ensures
        r is Ok <==> made.ok && made.images != 0 && made.count > 0,
        r is Err ==> after == before,
        r is Ok ==> r->Ok_0 is Int && {
            let handle = r->Ok_0->Int_0;
            &&& !before.images.contains_key(handle)
            &&& after.images.contains_key(handle)
            &&& after.images[handle].package == package
            &&& after.images[handle].images == made.images
            &&& after.images[handle].count == made.count
            &&& other != handle ==> after.images[other] == before.images[other]
            &&& image_place(after, handle, 0) == Ok::<(SdImagesResource, int), ErrorView>(
                (after.images[handle], 0),
            )
            &&& after.next > handle
        },
{
}

/// Images are generated by the context and with the options that were asked for, in the package of
/// that context.
pub proof fn law_images_are_asked_for<
    L: FnOnce(SdPackage) -> Result<(), String>,
    G: FnOnce(SdCtxResource, &ImgParams) -> Generated,
>(
    load: L,
    generate: G,
    before: SdView,
    after: SdView,
    ctx: SdCtxResource,
    params: ImgParams,
    r: VmResult<Value>,
)
    requires
        before.wf(),
        before.next < i64::MAX,
        images_loaded(load, generate, before, after, ctx, params, r),
        r is Ok,
    ensures
        exists|loaded: Result<(), String>| #[trigger]
            call_ensures(load, (ctx.package,), loaded) && loaded is Ok,
        exists|made: Generated|
            {
                &&& #[trigger] call_ensures(generate, (ctx, &params), made)
                &&& made.ok
                &&& after.images[r->Ok_0->Int_0] == (SdImagesResource {
                    package: ctx.package,
                    images: made.images,
                    count: made.count,
                })
            },
{
    let ready = choose|ready: Result<SdPackage, ErrorView>| #[trigger]
        loads(load, ctx.package, ready) && match ready {
            Err(e) => {
                &&& runtime::outcome(r) == Err::<ValueView, ErrorView>(e)
                &&& after == before
            },
            Ok(_) => images_made(generate, before, after, ctx, params, r),
        };
    let loaded = choose|loaded: Result<(), String>| #[trigger]
        call_ensures(load, (ctx.package,), loaded) && ready == load_outcome(ctx.package, loaded);
    assert(loaded is Ok);
}

/// The image in a place is the one asked for, among the images of the handle.
pub proof fn law_image_in_its_place(s: SdView, handle: i64, index: i64)
    ensures
        image_place(s, handle, index) matches Ok(place) ==> {
            &&& s.images.contains_key(handle)
            &&& place.0 == s.images[handle]
            &&& place.1 == index
            &&& 0 <= index < s.images[handle].count
        },
        s.images.contains_key(handle) && 0 <= index < s.images[handle].count ==> image_place(
            s,
            handle,
            index,
        ) is Ok,
{
}

/// A name that is left open has the number of the open choice; another is asked for as it is, and
/// what is found for it is handed on, unless that is the number of the open choice.
pub proof fn law_names_have_numbers(
    name: Seq<char>,
    label: Seq<char>,
    what: Seq<char>,
    open: i32,
    value: i32,
    r: VmResult<NameStep>,
)
    requires
        name_step(name, label, open, r),
    ensures
        name.len() == 0 || text::lower_text(name) == "auto"@ ==> (r matches Ok(NameStep::Known(n))
            && n == open),
        name.len() > 0 && text::lower_text(name) != "auto"@ && !name.contains('\0') ==> (
        r matches Ok(NameStep::Ask(asked)) && asked@ == name),
        number_outcome(what, name, open, value) is Ok <==> value != open,
        value != open ==> number_outcome(what, name, open, value) == Ok::<ValueView, ErrorView>(
            ValueView::Int(value as i64),
        ),
{
}

/// The scale of the guidance is refused where its IEEE bits are those of a number below zero: the
/// sign is set, and the rest are not those of zero or of no number.
pub proof fn law_scale_below_zero(rest: u64)
    requires
        rest < 0x8000_0000_0000_0000,
    ensures
        !below_zero(rest),
        below_zero((0x8000_0000_0000_0000 + rest) as u64) <==> 0 < rest <= 0x7ff0_0000_0000_0000,
{
}

/// Options begin unset, under a handle that named none before; where the library cannot be loaded,
/// nothing is made.
pub proof fn law_options_begin_unset(
    before: SdView,
    after: SdView,
    ready: Result<SdPackage, ErrorView>,
    r: VmResult<Value>,
    other: i64,
)
    requires
        before.wf(),
        before.next < i64::MAX,
    ensures
        ctx_started(before, after, ready, r) ==> {
            &&& r is Ok <==> ready is Ok
            &&& r is Err ==> after == before
            &&& r is Ok ==> r->Ok_0 is Int && {
                let made = after.ctx_params[r->Ok_0->Int_0];
                &&& !before.ctx_params.contains_key(r->Ok_0->Int_0)
                &&& after.ctx_params.contains_key(r->Ok_0->Int_0)
                &&& made.paths is None && made.backend is None && made.placement is None
                &&& made.wtype is None && made.vae_format is None && made.flags is None
                &&& other != r->Ok_0->Int_0 ==> after.ctx_params[other] == before.ctx_params[other]
                &&& after.next > r->Ok_0->Int_0
            }
        },
        img_started(before, after, ready, r) ==> {
            &&& r is Ok <==> ready is Ok
            &&& r is Err ==> after == before
            &&& r is Ok ==> r->Ok_0 is Int && {
                let made = after.img_params[r->Ok_0->Int_0];
                &&& !before.img_params.contains_key(r->Ok_0->Int_0)
                &&& after.img_params.contains_key(r->Ok_0->Int_0)
                &&& made.prompt@.len() == 0 && made.negative_prompt@.len() == 0
                &&& made.width is None && made.height is None && made.seed is None
                &&& made.batch_count is None && made.sample_steps is None
                &&& made.cfg_scale is None && made.sample_method is None
                &&& made.scheduler is None
                &&& other != r->Ok_0->Int_0 ==> after.img_params[other] == before.img_params[other]
                &&& after.next > r->Ok_0->Int_0
            }
        },
{
    reveal_strlit("");
}

/// A context is made in the package that its backend chooses and with its own options, once the
/// library is loaded and a device is there.
pub proof fn law_context_is_asked_for<
    L: FnOnce(SdPackage) -> Result<(), String>,
    D: FnOnce(SdPackage) -> Result<String, String>,
    C: FnOnce(SdPackage, &CtxParams, String) -> usize,
>(
    load: L,
    list: D,
    create: C,
    before: SdView,
    after: SdView,
    package: SdPackage,
    params: CtxParams,
    r: VmResult<Value>,
)
    requires
        before.wf(),
        before.next < i64::MAX,
        ctx_loaded(load, list, create, before, after, package, params, r),
    ensures
        r is Err ==> after == before,
        r is Ok ==> exists|devices: String, ctx: usize|
            {
                &&& #[trigger] call_ensures(create, (package, &params, devices), ctx)
                &&& text::trimmed(devices@).len() > 0
                &&& ctx != 0
                &&& after.ctxs[r->Ok_0->Int_0] == (SdCtxResource { package, ctx })
            },
{
    let ready = choose|ready: Result<SdPackage, ErrorView>| #[trigger]
        loads(load, package, ready) && match ready {
            Err(e) => {
                &&& runtime::outcome(r) == Err::<ValueView, ErrorView>(e)
                &&& after == before
            },
            Ok(_) => ctx_listed(list, create, before, after, package, params, r),
        };
    if ready is Ok {
        let listed = choose|listed: Result<String, String>| #[trigger]
            call_ensures(list, (package,), listed) && match listed {
                Err(m) => {
                    &&& runtime::outcome(r) == Err::<ValueView, ErrorView>(
                        failure("failed to list stable diffusion devices"@, m@),
                    )
                    &&& after == before
                },
                Ok(devices) => if text::trimmed(devices@).len() == 0 {
                    &&& runtime::outcome(r) == Err::<ValueView, ErrorView>(
                        ErrorView::Host("stable-diffusion.cpp reported no ggml backend devices"@),
                    )
                    &&& after == before
                } else {
                    ctx_created(create, before, after, package, params, devices, r)
                },
            };
        if let Ok(devices) = listed {
            if text::trimmed(devices@).len() > 0 {
                let ctx = choose|ctx: usize| #[trigger]
                    call_ensures(create, (package, &params, devices), ctx) && ctx_added(
                        before,
                        after,
                        package,
                        ctx,
                        r,
                    );
                assert(call_ensures(create, (package, &params, devices), ctx));
            }
        }
    }
}

/// The package of a context is the one that the backend in its options chooses.
pub proof fn law_context_package(
    s: SdView,
    handle: i64,
    target: Target,
    current: Result<SdPackage, Seq<char>>,
)
    ensures
        ctx_package(s, handle, target, current) matches Ok(p) ==> s.ctx_params.contains_key(handle)
            && ggml::package_for(opt_view(s.ctx_params[handle].backend), target, current) == Ok::<
            SdPackage,
            Seq<char>,
        >(p),
        s.ctx_params.contains_key(handle) && ggml::package_for(
            opt_view(s.ctx_params[handle].backend),
            target,
            current,
        ) is Ok ==> ctx_package(s, handle, target, current) is Ok,
{
}

} // verus!
