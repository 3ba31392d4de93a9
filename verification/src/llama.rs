//! The resources of llama.cpp that scripts hold by handle, and the rules of their use.
//!
//! `N` stands for the native objects, which only the executor touches.
use vstd::prelude::*;
use vstd::string::*;

use crate::native::{Arch, Os, Target};
use crate::registry;
use crate::runtime;
use crate::tables::HandleMap;
use crate::text;
use crate::value::{host_error, return_int, ErrorView, Value, ValueView, VmError, VmResult};

verus! {

/// The options that a model is loaded with; those that were not set keep their defaults.
#[derive(Clone, Copy, Debug, PartialEq, Eq)]
pub struct ModelParams {
    pub gpu_layers: Option<u32>,
    pub main_gpu: Option<i32>,
    pub memory: Option<(bool, bool)>,
}

/// The options that a context is made with; those that were not set keep their defaults.
#[derive(Clone, Copy, Debug, PartialEq, Eq)]
pub struct ContextParams {
    pub sizes: Option<(u32, u32, u32)>,
    pub threads: Option<(i32, i32)>,
}

/// A part of a chain of samplers. Floating-point numbers are held as their IEEE bits.
#[derive(Clone, Copy, Debug, PartialEq, Eq, Structural)]
pub enum SamplerPart {
    TopK(i32),
    TopP(u64, usize),
    MinP(u64, usize),
    Temp(u64),
    Dist(u32),
    Greedy,
}

/// A chain of samplers: its parts until it is built, and then the chain itself.
pub struct SamplerResource<N> {
    pub no_perf: bool,
    pub pending: Vec<SamplerPart>,
    pub sampler: Option<N>,
}

/// The model of a [`SamplerResource`].
#[verifier::ext_equal]
pub struct SamplerView<N> {
    pub no_perf: bool,
    pub pending: Seq<SamplerPart>,
    pub sampler: Option<N>,
}

impl<N> View for SamplerResource<N> {
    type V = SamplerView<N>;

    open spec fn view(&self) -> SamplerView<N> {
        SamplerView { no_perf: self.no_perf, pending: self.pending@, sampler: self.sampler }
    }
}

/// The resources of llama.cpp.
#[verifier::reject_recursive_types(N)]
pub struct LlamaState<N> {
    pub next: i64,
    pub backends: HandleMap<N>,
    pub model_params: HandleMap<ModelParams>,
    pub models: HandleMap<N>,
    pub context_params: HandleMap<ContextParams>,
    pub contexts: HandleMap<N>,
    pub token_lists: HandleMap<Vec<i32>>,
    pub batches: HandleMap<N>,
    pub samplers: HandleMap<SamplerResource<N>>,
    pub decoders: HandleMap<N>,
    pub chat_templates: HandleMap<N>,
    pub chat_messages: HandleMap<Vec<N>>,
}

/// The model of a [`LlamaState`].
#[verifier::ext_equal]
#[verifier::reject_recursive_types(N)]
pub struct LlamaView<N> {
    pub next: i64,
    pub backends: Map<i64, N>,
    pub model_params: Map<i64, ModelParams>,
    pub models: Map<i64, N>,
    pub context_params: Map<i64, ContextParams>,
    pub contexts: Map<i64, N>,
    pub token_lists: Map<i64, Seq<i32>>,
    pub batches: Map<i64, N>,
    pub samplers: Map<i64, SamplerView<N>>,
    pub decoders: Map<i64, N>,
    pub chat_templates: Map<i64, N>,
    pub chat_messages: Map<i64, Seq<N>>,
}

impl<N> View for LlamaState<N> {
    type V = LlamaView<N>;

    open spec fn view(&self) -> LlamaView<N> {
        LlamaView {
            next: self.next,
            backends: self.backends@,
            model_params: self.model_params@,
            models: self.models@,
            context_params: self.context_params@,
            contexts: self.contexts@,
            token_lists: self.token_lists@.map_values(|v: Vec<i32>| v@),
            batches: self.batches@,
            samplers: self.samplers@.map_values(|s: SamplerResource<N>| s@),
            decoders: self.decoders@,
            chat_templates: self.chat_templates@,
            chat_messages: self.chat_messages@.map_values(|v: Vec<N>| v@),
        }
    }
}

/// Whether every handle of a table was given out.
pub open spec fn given_out<V>(m: Map<i64, V>, next: i64) -> bool {
    forall|h: i64| #[trigger] m.contains_key(h) ==> 1 <= h < next
}

impl<N> LlamaView<N> {
    /// Every handle was given out by the counter, and a chain that is built has no parts left.
    pub open spec fn wf(self) -> bool {
        &&& 1 <= self.next
        &&& given_out(self.backends, self.next)
        &&& given_out(self.model_params, self.next)
        &&& given_out(self.models, self.next)
        &&& given_out(self.context_params, self.next)
        &&& given_out(self.contexts, self.next)
        &&& given_out(self.token_lists, self.next)
        &&& given_out(self.batches, self.next)
        &&& given_out(self.samplers, self.next)
        &&& given_out(self.decoders, self.next)
        &&& given_out(self.chat_templates, self.next)
        &&& given_out(self.chat_messages, self.next)
        &&& forall|h: i64| #[trigger]
            self.samplers.contains_key(h) && self.samplers[h].sampler is Some
                ==> self.samplers[h].pending.len() == 0
    }
}

impl<N> LlamaState<N> {
    /// The state is in order.
    pub open spec fn wf(&self) -> bool {
        self@.wf()
    }

    /// A state without resources.
    pub fn new() -> (r: Self)
        ensures
            r.wf(),
            r@.next == 1,
            r@.backends == Map::<i64, N>::empty(),
            r@.model_params == Map::<i64, ModelParams>::empty(),
            r@.models == Map::<i64, N>::empty(),
            r@.context_params == Map::<i64, ContextParams>::empty(),
            r@.contexts == Map::<i64, N>::empty(),
            r@.token_lists == Map::<i64, Seq<i32>>::empty(),
            r@.batches == Map::<i64, N>::empty(),
            r@.samplers == Map::<i64, SamplerView<N>>::empty(),
            r@.decoders == Map::<i64, N>::empty(),
            r@.chat_templates == Map::<i64, N>::empty(),
            r@.chat_messages == Map::<i64, Seq<N>>::empty(),
    {
        let r: LlamaState<N> = LlamaState {
            next: 1,
            backends: HandleMap::new(),
            model_params: HandleMap::new(),
            models: HandleMap::new(),
            context_params: HandleMap::new(),
            contexts: HandleMap::new(),
            token_lists: HandleMap::new(),
            batches: HandleMap::new(),
            samplers: HandleMap::new(),
            decoders: HandleMap::new(),
            chat_templates: HandleMap::new(),
            chat_messages: HandleMap::new(),
        };
        assert(r@.token_lists =~= Map::<i64, Seq<i32>>::empty());
        assert(r@.samplers =~= Map::<i64, SamplerView<N>>::empty());
        assert(r@.chat_messages =~= Map::<i64, Seq<N>>::empty());
        r
    }
}

/// The resource of a handle.
pub fn get<'a, V>(map: &'a HandleMap<V>, handle: i64, kind: &str) -> (r: VmResult<&'a V>)
    ensures
        match r {
            Ok(v) => lookup(map@, kind@, handle) == Ok::<V, ErrorView>(*v),
            Err(e) => lookup(map@, kind@, handle) == Err::<V, ErrorView>(e@),
        },
{
    registry::get_in(map, "llama", kind, handle)
}

/// The resource of a handle, to be changed in place.
pub fn get_mut<'a, V>(map: &'a mut HandleMap<V>, handle: i64, kind: &str) -> (r: VmResult<
    &'a mut V,
>)
    ensures
        match r {
            Ok(v) => {
                &&& lookup(old(map)@, kind@, handle) == Ok::<V, ErrorView>(*v)
                &&& final(map)@ == old(map)@.insert(handle, *final(v))
            },
            Err(e) => {
                &&& lookup(old(map)@, kind@, handle) == Err::<V, ErrorView>(e@)
                &&& final(map)@ == old(map)@
            },
        },
{
    registry::get_mut_in(map, "llama", kind, handle)
}

/// What looking a resource up gives.
pub open spec fn lookup<V>(m: Map<i64, V>, kind: Seq<char>, handle: i64) -> Result<V, ErrorView> {
    registry::found(m, "llama"@, kind, handle)
}

/// The message on a handle that names no resource of a kind.
pub open spec fn unknown(kind: Seq<char>, handle: i64) -> ErrorView {
    registry::unknown_handle("llama"@, kind, handle)
}

/// The message on an operation of llama.cpp that failed.
pub open spec fn failure(reason: Seq<char>) -> ErrorView {
    ErrorView::Host("llama error: "@ + reason)
}

/// The error on an operation of llama.cpp that failed.
pub fn llama_host_error(reason: &str) -> (r: VmError)
    ensures
        r@ == failure(reason@),
{
    host_error(text::join2("llama error: ", reason).as_str())
}

/// The message on a number that does not fit.
pub open spec fn unfit(name: Seq<char>, reason: Seq<char>) -> ErrorView {
    ErrorView::Host(name + reason)
}

/// A number as an `i32`.
pub open spec fn as_i32(value: i64, name: Seq<char>) -> Result<i32, ErrorView> {
    if i32::MIN <= value <= i32::MAX {
        Ok(value as i32)
    } else {
        Err(unfit(name, " is out of range for int32"@))
    }
}

/// A number as a `u32`.
pub open spec fn as_u32(value: i64, name: Seq<char>) -> Result<u32, ErrorView> {
    if 0 <= value <= u32::MAX {
        Ok(value as u32)
    } else {
        Err(unfit(name, " is out of range for uint32"@))
    }
}

/// A number as a `usize`.
pub open spec fn as_usize(value: i64, name: Seq<char>) -> Result<usize, ErrorView> {
    if 0 <= value <= usize::MAX {
        Ok(value as usize)
    } else {
        Err(unfit(name, " must be non-negative"@))
    }
}

/// A number as an `i32`, where it fits.
pub fn checked_i32(value: i64, name: &str) -> (r: VmResult<i32>)
    ensures
        match r {
            Ok(n) => as_i32(value, name@) == Ok::<i32, ErrorView>(n),
            Err(e) => as_i32(value, name@) == Err::<i32, ErrorView>(e@),
        },
{
    if i32::MIN as i64 <= value && value <= i32::MAX as i64 {
        Ok(value as i32)
    } else {
        Err(host_error(text::join2(name, " is out of range for int32").as_str()))
    }
}

/// A number as a `u32`, where it fits.
pub fn checked_u32(value: i64, name: &str) -> (r: VmResult<u32>)
    ensures
        match r {
            Ok(n) => as_u32(value, name@) == Ok::<u32, ErrorView>(n),
            Err(e) => as_u32(value, name@) == Err::<u32, ErrorView>(e@),
        },
{
    if 0 <= value && value <= u32::MAX as i64 {
        Ok(value as u32)
    } else {
        Err(host_error(text::join2(name, " is out of range for uint32").as_str()))
    }
}

/// A number as a `usize`, where it fits.
pub fn checked_usize(value: i64, name: &str) -> (r: VmResult<usize>)
    ensures
        match r {
            Ok(n) => as_usize(value, name@) == Ok::<usize, ErrorView>(n),
            Err(e) => as_usize(value, name@) == Err::<usize, ErrorView>(e@),
        },
{
    if 0 <= value && value as u64 <= usize::MAX as u64 {
        Ok(value as usize)
    } else {
        Err(host_error(text::join2(name, " must be non-negative").as_str()))
    }
}

/// What a script gets where all went well.
pub open spec fn done() -> Result<ValueView, ErrorView> {
    Ok(ValueView::Bool(true))
}

/// What a script gets where a resource was added: its handle.
pub open spec fn handed<N>(s: LlamaView<N>) -> Result<ValueView, ErrorView> {
    Ok(ValueView::Int(s.next))
}

/// The state after a handle was given out.
pub open spec fn moved_on<N>(s: LlamaView<N>) -> LlamaView<N> {
    LlamaView { next: (s.next + 1) as i64, ..s }
}

/// The packages of llama.cpp.
#[derive(Clone, Copy, Debug, PartialEq, Eq, Structural)]
pub enum LlamaPackage {
    /// The package that suits the present target best.
    Current,
    WindowsX64Cpu,
    LinuxX64Cpu,
    LinuxArm64Cpu,
    WindowsX64Vulkan,
    LinuxX64Vulkan,
    LinuxArm64Vulkan,
}

/// The package that a kind of backend asks for, in any letter case.
pub open spec fn package_for(kind: Seq<char>, target: Target) -> Option<LlamaPackage> {
    let low = text::lower_text(kind);
    if low.len() == 0 || low == "auto"@ || text::has_prefix(low, "cuda"@) {
        Some(LlamaPackage::Current)
    } else if low == "cpu"@ {
        match (target.os, target.arch) {
            (Os::Windows, Arch::X64) => Some(LlamaPackage::WindowsX64Cpu),
            (Os::Linux, Arch::X64) => Some(LlamaPackage::LinuxX64Cpu),
            (Os::Linux, Arch::Arm64) => Some(LlamaPackage::LinuxArm64Cpu),
            _ => None,
        }
    } else if text::has_prefix(low, "vulkan"@) {
        match (target.os, target.arch) {
            (Os::Windows, Arch::X64) => Some(LlamaPackage::WindowsX64Vulkan),
            (Os::Linux, Arch::X64) => Some(LlamaPackage::LinuxX64Vulkan),
            (Os::Linux, Arch::Arm64) => Some(LlamaPackage::LinuxArm64Vulkan),
            _ => None,
        }
    } else {
        None
    }
}

/// The package that a kind of backend asks for.
pub fn select_package(kind: &str, target: Target) -> (r: Result<LlamaPackage, String>)
    ensures
        match r {
            Ok(p) => package_for(kind@, target) == Some(p),
            Err(m) => package_for(kind@, target) is None && m@
                == "unsupported llama.cpp backend '"@ + text::lower_text(kind@)
                + "' for this target"@,
        },
{
    let low: String = text::to_ascii_lowercase(kind);
    if low.as_str().unicode_len() == 0 || text::same_text(low.as_str(), "auto")
        || text::starts_with(low.as_str(), "cuda") {
        return Ok(LlamaPackage::Current);
    }
    let package: Option<LlamaPackage> = if text::same_text(low.as_str(), "cpu") {
        match (target.os, target.arch) {
            (Os::Windows, Arch::X64) => Some(LlamaPackage::WindowsX64Cpu),
            (Os::Linux, Arch::X64) => Some(LlamaPackage::LinuxX64Cpu),
            (Os::Linux, Arch::Arm64) => Some(LlamaPackage::LinuxArm64Cpu),
            _ => None,
        }
    } else if text::starts_with(low.as_str(), "vulkan") {
        match (target.os, target.arch) {
            (Os::Windows, Arch::X64) => Some(LlamaPackage::WindowsX64Vulkan),
            (Os::Linux, Arch::X64) => Some(LlamaPackage::LinuxX64Vulkan),
            (Os::Linux, Arch::Arm64) => Some(LlamaPackage::LinuxArm64Vulkan),
            _ => None,
        }
    } else {
        None
    };
    match package {
        Some(p) => Ok(p),
        None => Err(
            text::join3("unsupported llama.cpp backend '", low.as_str(), "' for this target"),
        ),
    }
}

/// What is known of a device.
#[derive(Debug)]
pub struct DeviceInfo {
    pub index: usize,
    pub name: String,
    pub backend: String,
    pub description: String,
    pub memory_free: usize,
}

/// The line of a device: its fields with tabs between them.
pub open spec fn device_line(device: DeviceInfo) -> Seq<char> {
    text::decimal(device.index as int) + "\t"@ + device.name@ + "\t"@ + device.backend@ + "\t"@
        + device.description@ + "\t"@ + text::decimal(device.memory_free as int)
}

/// The lines of devices, with line ends between them.
pub open spec fn device_listing(devices: Seq<DeviceInfo>) -> Seq<char> {
    text::joined(devices.map_values(|device: DeviceInfo| device_line(device)), "\n"@)
}

/// Lists the devices of a backend.
pub fn llama_backend_list_devices<N>(
    state: &LlamaState<N>,
    handle: i64,
    devices: &Vec<DeviceInfo>,
) -> (r: VmResult<Value>)
    ensures
        runtime::outcome(r) == match lookup(state@.backends, "backend"@, handle) {
            Err(e) => Err::<ValueView, ErrorView>(e),
            Ok(_) => Ok(ValueView::String(device_listing(devices@))),
        },
{
    match get(&state.backends, handle, "backend") {
        Ok(_) => {},
        Err(e) => {
            return Err(e);
        },
    }
    let mut lines: Vec<String> = Vec::new();
    let mut i: usize = 0;
    while i < devices.len()
        invariant
            i <= devices@.len(),
            lines@.len() == i,
            forall|j: int| 0 <= j < i ==> (#[trigger] lines@[j])@ == device_line(devices@[j]),
        decreases devices@.len() - i,
    {
        let device: &DeviceInfo = &devices[i];
        let mut line: String = text::decimal_text(device.index as i128);
        line.append("\t");
        line.append(device.name.as_str());
        line.append("\t");
        line.append(device.backend.as_str());
        line.append("\t");
        line.append(device.description.as_str());
        line.append("\t");
        line.append(text::decimal_text(device.memory_free as i128).as_str());
        lines.push(line);
        i = i + 1;
    }
    assert(text::views(lines@) =~= devices@.map_values(|device: DeviceInfo| device_line(device)));
    Ok(Value::String(text::join(&lines, "\n")))
}

/// Whether a backend is there.
pub fn ensure_backend<N>(state: &LlamaState<N>, handle: i64) -> (r: VmResult<()>)
    ensures
        match r {
            Ok(()) => state@.backends.contains_key(handle),
            Err(e) => !state@.backends.contains_key(handle) && e@ == unknown("backend"@, handle),
        },
{
    match get(&state.backends, handle, "backend") {
        Ok(_) => Ok(()),
        Err(e) => Err(e),
    }
}

/// Adds a backend that was started, or tells why it was not.
pub fn llama_backend_init<N>(
    state: &mut LlamaState<N>,
    made: Result<N,
    String>,
) -> (r: VmResult<Value>)
    requires
        old(state).wf(),
        old(state).next < i64::MAX,
    ensures
        final(state).wf(),
        match made {
            Err(m) => {
                &&& runtime::outcome(r) == Err::<ValueView, ErrorView>(failure(m@))
                &&& final(state)@ == old(state)@
            },
            Ok(native) => {
                &&& runtime::outcome(r) == handed(old(state)@)
                &&& final(state)@ == (LlamaView {
                    backends: old(state)@.backends.insert(old(state)@.next, native),
                    ..moved_on(old(state)@)
                })
            },
        },
{
    match made {
        Err(m) => Err(llama_host_error(m.as_str())),
        Ok(native) => {
            let handle: i64 = registry::next_handle(&mut state.next);
            state.backends.insert(handle, native);
            return_int(handle)
        },
    }
}

/// Adds a model that was loaded, or tells why it was not.
pub fn llama_model_loaded<N>(
    state: &mut LlamaState<N>,
    made: Result<N,
    String>,
) -> (r: VmResult<Value>)
    requires
        old(state).wf(),
        old(state).next < i64::MAX,
    ensures
        final(state).wf(),
        match made {
            Err(m) => {
                &&& runtime::outcome(r) == Err::<ValueView, ErrorView>(failure(m@))
                &&& final(state)@ == old(state)@
            },
            Ok(native) => {
                &&& runtime::outcome(r) == handed(old(state)@)
                &&& final(state)@ == (LlamaView {
                    models: old(state)@.models.insert(old(state)@.next, native),
                    ..moved_on(old(state)@)
                })
            },
        },
{
    match made {
        Err(m) => Err(llama_host_error(m.as_str())),
        Ok(native) => {
            let handle: i64 = registry::next_handle(&mut state.next);
            state.models.insert(handle, native);
            return_int(handle)
        },
    }
}

/// Adds a context that was made, or tells why it was not.
pub fn llama_context_made<N>(
    state: &mut LlamaState<N>,
    made: Result<N,
    String>,
) -> (r: VmResult<Value>)
    requires
        old(state).wf(),
        old(state).next < i64::MAX,
    ensures
        final(state).wf(),
        match made {
            Err(m) => {
                &&& runtime::outcome(r) == Err::<ValueView, ErrorView>(failure(m@))
                &&& final(state)@ == old(state)@
            },
            Ok(native) => {
                &&& runtime::outcome(r) == handed(old(state)@)
                &&& final(state)@ == (LlamaView {
                    contexts: old(state)@.contexts.insert(old(state)@.next, native),
                    ..moved_on(old(state)@)
                })
            },
        },
{
    match made {
        Err(m) => Err(llama_host_error(m.as_str())),
        Ok(native) => {
            let handle: i64 = registry::next_handle(&mut state.next);
            state.contexts.insert(handle, native);
            return_int(handle)
        },
    }
}

/// Adds a chat template that a model has, or tells why it has none.
pub fn llama_chat_template_found<N>(
    state: &mut LlamaState<N>,
    made: Result<N,
    String>,
) -> (r: VmResult<Value>)
    requires
        old(state).wf(),
        old(state).next < i64::MAX,
    ensures
        final(state).wf(),
        match made {
            Err(m) => {
                &&& runtime::outcome(r) == Err::<ValueView, ErrorView>(failure(m@))
                &&& final(state)@ == old(state)@
            },
            Ok(native) => {
                &&& runtime::outcome(r) == handed(old(state)@)
                &&& final(state)@ == (LlamaView {
                    chat_templates: old(state)@.chat_templates.insert(old(state)@.next, native),
                    ..moved_on(old(state)@)
                })
            },
        },
{
    match made {
        Err(m) => Err(llama_host_error(m.as_str())),
        Ok(native) => {
            let handle: i64 = registry::next_handle(&mut state.next);
            state.chat_templates.insert(handle, native);
            return_int(handle)
        },
    }
}

/// Adds a decoder of token pieces.
pub fn llama_decoder_init<N>(state: &mut LlamaState<N>, native: N) -> (r: VmResult<Value>)
    requires
        old(state).wf(),
        old(state).next < i64::MAX,
    ensures
        final(state).wf(),
        runtime::outcome(r) == handed(old(state)@),
        final(state)@ == (LlamaView {
            decoders: old(state)@.decoders.insert(old(state)@.next, native),
            ..moved_on(old(state)@)
        }),
{
    let handle: i64 = registry::next_handle(&mut state.next);
    state.decoders.insert(handle, native);
    return_int(handle)
}

/// Adds a batch that was made.
pub fn llama_batch_made<N>(state: &mut LlamaState<N>, native: N) -> (r: VmResult<Value>)
    requires
        old(state).wf(),
        old(state).next < i64::MAX,
    ensures
        final(state).wf(),
        runtime::outcome(r) == handed(old(state)@),
        final(state)@ == (LlamaView {
            batches: old(state)@.batches.insert(old(state)@.next, native),
            ..moved_on(old(state)@)
        }),
{
    let handle: i64 = registry::next_handle(&mut state.next);
    state.batches.insert(handle, native);
    return_int(handle)
}

/// Ends a backend.
pub fn llama_backend_free<N>(state: &mut LlamaState<N>, handle: i64) -> (r: VmResult<Value>)
    requires
        old(state).wf(),
    ensures
        final(state).wf(),
        runtime::outcome(r) == (if old(state)@.backends.contains_key(handle) {
            done()
        } else {
            Err(unknown("backend"@, handle))
        }),
        final(state)@ == (LlamaView {
            backends: old(state)@.backends.remove(handle),
            ..old(state)@
        }),
{
    let taken = registry::take_in(&mut state.backends, "llama", "backend", handle);
    match taken {
        Ok(_) => Ok(Value::Bool(true)),
        Err(e) => Err(e),
    }
}

/// Ends a model.
pub fn llama_model_free<N>(state: &mut LlamaState<N>, handle: i64) -> (r: VmResult<Value>)
    requires
        old(state).wf(),
    ensures
        final(state).wf(),
        runtime::outcome(r) == (if old(state)@.models.contains_key(handle) {
            done()
        } else {
            Err(unknown("model"@, handle))
        }),
        final(state)@ == (LlamaView {
            models: old(state)@.models.remove(handle),
            ..old(state)@
        }),
{
    let taken = registry::take_in(&mut state.models, "llama", "model", handle);
    match taken {
        Ok(_) => Ok(Value::Bool(true)),
        Err(e) => Err(e),
    }
}

/// Ends a context.
pub fn llama_context_free<N>(state: &mut LlamaState<N>, handle: i64) -> (r: VmResult<Value>)
    requires
        old(state).wf(),
    ensures
        final(state).wf(),
        runtime::outcome(r) == (if old(state)@.contexts.contains_key(handle) {
            done()
        } else {
            Err(unknown("context"@, handle))
        }),
        final(state)@ == (LlamaView {
            contexts: old(state)@.contexts.remove(handle),
            ..old(state)@
        }),
{
    let taken = registry::take_in(&mut state.contexts, "llama", "context", handle);
    match taken {
        Ok(_) => Ok(Value::Bool(true)),
        Err(e) => Err(e),
    }
}

/// Ends a batch.
pub fn llama_batch_free<N>(state: &mut LlamaState<N>, handle: i64) -> (r: VmResult<Value>)
    requires
        old(state).wf(),
    ensures
        final(state).wf(),
        runtime::outcome(r) == (if old(state)@.batches.contains_key(handle) {
            done()
        } else {
            Err(unknown("batch"@, handle))
        }),
        final(state)@ == (LlamaView {
            batches: old(state)@.batches.remove(handle),
            ..old(state)@
        }),
{
    let taken = registry::take_in(&mut state.batches, "llama", "batch", handle);
    match taken {
        Ok(_) => Ok(Value::Bool(true)),
        Err(e) => Err(e),
    }
}

/// Ends a decoder.
pub fn llama_decoder_free<N>(state: &mut LlamaState<N>, handle: i64) -> (r: VmResult<Value>)
    requires
        old(state).wf(),
    ensures
        final(state).wf(),
        runtime::outcome(r) == (if old(state)@.decoders.contains_key(handle) {
            done()
        } else {
            Err(unknown("decoder"@, handle))
        }),
        final(state)@ == (LlamaView {
            decoders: old(state)@.decoders.remove(handle),
            ..old(state)@
        }),
{
    let taken = registry::take_in(&mut state.decoders, "llama", "decoder", handle);
    match taken {
        Ok(_) => Ok(Value::Bool(true)),
        Err(e) => Err(e),
    }
}

/// Ends a list of tokens.
pub fn llama_tokens_free<N>(state: &mut LlamaState<N>, handle: i64) -> (r: VmResult<Value>)
    requires
        old(state).wf(),
    ensures
        final(state).wf(),
        runtime::outcome(r) == (if old(state)@.token_lists.contains_key(handle) {
            done()
        } else {
            Err(unknown("tokens"@, handle))
        }),
        final(state)@ == (LlamaView {
            token_lists: old(state)@.token_lists.remove(handle),
            ..old(state)@
        }),
{
    let taken = registry::take_in(&mut state.token_lists, "llama", "tokens", handle);
    assert(state@.token_lists =~= old(state)@.token_lists.remove(handle));
    match taken {
        Ok(_) => Ok(Value::Bool(true)),
        Err(e) => Err(e),
    }
}

/// Ends a sampler.
pub fn llama_sampler_free<N>(state: &mut LlamaState<N>, handle: i64) -> (r: VmResult<Value>)
    requires
        old(state).wf(),
    ensures
        final(state).wf(),
        runtime::outcome(r) == (if old(state)@.samplers.contains_key(handle) {
            done()
        } else {
            Err(unknown("sampler"@, handle))
        }),
        final(state)@ == (LlamaView {
            samplers: old(state)@.samplers.remove(handle),
            ..old(state)@
        }),
{
    let taken = registry::take_in(&mut state.samplers, "llama", "sampler", handle);
    assert(state@.samplers =~= old(state)@.samplers.remove(handle));
    match taken {
        Ok(_) => Ok(Value::Bool(true)),
        Err(e) => Err(e),
    }
}

/// Starts the options of a model.
pub fn llama_model_params_init<N>(state: &mut LlamaState<N>, backend: i64) -> (r: VmResult<Value>)
    requires
        old(state).wf(),
        old(state).next < i64::MAX,
    ensures
        final(state).wf(),
        if old(state)@.backends.contains_key(backend) {
            &&& runtime::outcome(r) == handed(old(state)@)
            &&& final(state)@ == (LlamaView {
                model_params: old(state)@.model_params.insert(
                    old(state)@.next,
                    (ModelParams { gpu_layers: None, main_gpu: None, memory: None }),
                ),
                ..moved_on(old(state)@)
            })
        } else {
            &&& runtime::outcome(r) == Err::<ValueView, ErrorView>(unknown("backend"@, backend))
            &&& final(state)@ == old(state)@
        },
{
    match ensure_backend(state, backend) {
        Ok(()) => {},
        Err(e) => {
            return Err(e);
        },
    }
    let handle: i64 = registry::next_handle(&mut state.next);
    state.model_params.insert(
        handle,
        ModelParams { gpu_layers: None, main_gpu: None, memory: None },
    );
    return_int(handle)
}

/// What changing the options of a model comes to.
pub open spec fn params_changed<N>(
    before: LlamaView<N>,
    after: LlamaView<N>,
    handle: i64,
    changed: ModelParams,
    r: VmResult<Value>,
) -> bool {
    if before.model_params.contains_key(handle) {
        &&& runtime::outcome(r) == done()
        &&& after == (LlamaView {
            model_params: before.model_params.insert(handle, changed),
            ..before
        })
    } else {
        &&& runtime::outcome(r) == Err::<ValueView, ErrorView>(unknown("model params"@, handle))
        &&& after == before
    }
}

fn update_model_params<N>(state: &mut LlamaState<N>, handle: i64, changed: ModelParams) -> (r:
    VmResult<Value>)
    requires
        old(state).wf(),
    ensures
        final(state).wf(),
        params_changed(old(state)@, final(state)@, handle, changed, r),
{
    match get_mut(&mut state.model_params, handle, "model params") {
        Ok(params) => {
            *params = changed;
        },
        Err(e) => {
            return Err(e);
        },
    }
    Ok(Value::Bool(true))
}

/// The options of a model as they are; options that are not there are all unset.
pub open spec fn params_of<N>(s: LlamaView<N>, handle: i64) -> ModelParams {
    if s.model_params.contains_key(handle) {
        s.model_params[handle]
    } else {
        ModelParams { gpu_layers: None, main_gpu: None, memory: None }
    }
}

fn current_params<N>(state: &LlamaState<N>, handle: i64) -> (r: ModelParams)
    ensures
        r == params_of(state@, handle),
{
    match state.model_params.get(handle) {
        Some(params) => *params,
        None => ModelParams { gpu_layers: None, main_gpu: None, memory: None },
    }
}

/// Sets how many layers of a model go to the GPU.
pub fn llama_model_params_set_gpu_layers<N>(
    state: &mut LlamaState<N>,
    handle: i64,
    layers: i64,
) -> (r: VmResult<Value>)
    requires
        old(state).wf(),
    ensures
        final(state).wf(),
        if 0 <= layers <= u32::MAX {
            params_changed(
                old(state)@,
                final(state)@,
                handle,
                (ModelParams {
                    gpu_layers: Some(layers as u32),
                    ..params_of(old(state)@, handle)
                }),
                r,
            )
        } else {
            &&& runtime::outcome(r) == Err::<ValueView, ErrorView>(
                ErrorView::Host("n_gpu_layers must be a non-negative uint32"@),
            )
            &&& final(state)@ == old(state)@
        },
{
    if layers < 0 || layers > u32::MAX as i64 {
        return Err(host_error("n_gpu_layers must be a non-negative uint32"));
    }
    let current: ModelParams = current_params(state, handle);
    update_model_params(
        state,
        handle,
        ModelParams { gpu_layers: Some(layers as u32), ..current },
    )
}

/// Sets the main GPU of a model.
pub fn llama_model_params_set_main_gpu<N>(
    state: &mut LlamaState<N>,
    handle: i64,
    main_gpu: i64,
) -> (r: VmResult<Value>)
    requires
        old(state).wf(),
    ensures
        final(state).wf(),
        match as_i32(main_gpu, "main_gpu"@) {
            Ok(n) => params_changed(
                old(state)@,
                final(state)@,
                handle,
                (ModelParams { main_gpu: Some(n), ..params_of(old(state)@, handle) }),
                r,
            ),
            Err(e) => {
                &&& runtime::outcome(r) == Err::<ValueView, ErrorView>(e)
                &&& final(state)@ == old(state)@
            },
        },
{
    let main_gpu: i32 = match checked_i32(main_gpu, "main_gpu") {
        Ok(n) => n,
        Err(e) => {
            return Err(e);
        },
    };
    let current: ModelParams = current_params(state, handle);
    update_model_params(state, handle, ModelParams { main_gpu: Some(main_gpu), ..current })
}

/// Sets how a model is kept in memory: mapped, and locked.
pub fn llama_model_params_set_memory<N>(
    state: &mut LlamaState<N>,
    handle: i64,
    use_mmap: bool,
    use_mlock: bool,
) -> (r: VmResult<Value>)
    requires
        old(state).wf(),
    ensures
        final(state).wf(),
        params_changed(
            old(state)@,
            final(state)@,
            handle,
            (ModelParams {
                memory: Some((use_mmap, use_mlock)),
                ..params_of(old(state)@, handle)
            }),
            r,
        ),
{
    let current: ModelParams = current_params(state, handle);
    update_model_params(
        state,
        handle,
        ModelParams { memory: Some((use_mmap, use_mlock)), ..current },
    )
}

/// Whether a model can come of loading one with `load`.
pub open spec fn model_loads<N, F: FnOnce(&N, ModelParams) -> Result<N, String>>(
    load: F,
    before: LlamaView<N>,
    after: LlamaView<N>,
    backend: N,
    params: ModelParams,
    r: VmResult<Value>,
) -> bool {
    exists|made: Result<N, String>| #[trigger]
        call_ensures(load, (&backend, params), made) && match made {
            Err(m) => {
                &&& runtime::outcome(r) == Err::<ValueView, ErrorView>(failure(m@))
                &&& after == before
            },
            Ok(model) => {
                &&& runtime::outcome(r) == handed(before)
                &&& after == (LlamaView {
                    models: before.models.insert(before.next, model),
                    ..moved_on(before)
                })
            },
        }
}

/// Loads a model on a backend. The options are used up, whatever comes of the load.
pub fn llama_model_load<N, F: FnOnce(&N, ModelParams) -> Result<N, String>>(
    state: &mut LlamaState<N>,
    backend: i64,
    params: i64,
    load: F,
) -> (r: VmResult<Value>)
    requires
        old(state).wf(),
        old(state).next < i64::MAX,
        forall|native: &N, p: ModelParams| #[trigger] call_requires(load, (native, p)),
    ensures
        final(state).wf(),
        match lookup(old(state)@.backends, "backend"@, backend) {
            Err(e) => {
                &&& runtime::outcome(r) == Err::<ValueView, ErrorView>(e)
                &&& final(state)@ == old(state)@
            },
            Ok(native) => {
                let taken = LlamaView {
                    model_params: old(state)@.model_params.remove(params),
                    ..old(state)@
                };
                match lookup(old(state)@.model_params, "model params"@, params) {
                    Err(e) => {
                        &&& runtime::outcome(r) == Err::<ValueView, ErrorView>(e)
                        &&& final(state)@ == taken
                    },
                    Ok(p) => model_loads(load, taken, final(state)@, native, p, r),
                }
            },
        },
{
    let native: &N = match get(&state.backends, backend, "backend") {
        Ok(native) => native,
        Err(e) => {
            return Err(e);
        },
    };
    let taken: ModelParams = match registry::take_in(
        &mut state.model_params,
        "llama",
        "model params",
        params,
    ) {
        Ok(taken) => taken,
        Err(e) => {
            return Err(e);
        },
    };
    let ghost backend_native = *native;
    let made: Result<N, String> = load(native, taken);
    let ghost result = made;
    assert(call_ensures(load, (&backend_native, taken), result));
    llama_model_loaded(state, made)
}

/// Adds the tokens of a text that a model made, or tells why it made none.
pub fn llama_model_tokenized<N>(state: &mut LlamaState<N>, made: Result<Vec<i32>, String>) -> (r:
    VmResult<Value>)
    requires
        old(state).wf(),
        old(state).next < i64::MAX,
    ensures
        final(state).wf(),
        match made {
            Err(m) => {
                &&& runtime::outcome(r) == Err::<ValueView, ErrorView>(failure(m@))
                &&& final(state)@ == old(state)@
            },
            Ok(tokens) => {
                &&& runtime::outcome(r) == handed(old(state)@)
                &&& final(state)@ == (LlamaView {
                    token_lists: old(state)@.token_lists.insert(old(state)@.next, tokens@),
                    ..moved_on(old(state)@)
                })
            },
        },
{
    match made {
        Err(m) => Err(llama_host_error(m.as_str())),
        Ok(tokens) => {
            let handle: i64 = registry::next_handle(&mut state.next);
            let ghost list = tokens@;
            state.token_lists.insert(handle, tokens);
            assert(state@.token_lists =~= old(state)@.token_lists.insert(handle, list));
            return_int(handle)
        },
    }
}

/// The token that a model is asked about.
pub fn llama_model_is_eog<N>(state: &LlamaState<N>, model: i64, token: i64) -> (r: VmResult<i32>)
    ensures
        match lookup(state@.models, "model"@, model) {
            Err(e) => r is Err && r->Err_0@ == e,
            Ok(_) => match as_i32(token, "token"@) {
                Err(e) => r is Err && r->Err_0@ == e,
                Ok(n) => r is Ok && r->Ok_0 == n,
            },
        },
{
    match get(&state.models, model, "model") {
        Err(e) => Err(e),
        Ok(_) => checked_i32(token, "token"),
    }
}

/// The name of a chat template, unless it is empty: then the model's own is meant.
pub fn template_name(name: &str) -> (r: Option<&str>)
    ensures
        match r {
            Some(s) => name@.len() > 0 && s@ == name@,
            None => name@.len() == 0,
        },
{
    if name.unicode_len() == 0 {
        None
    } else {
        Some(name)
    }
}

/// Starts a list of chat messages.
pub fn llama_chat_messages_init<N>(state: &mut LlamaState<N>) -> (r: VmResult<Value>)
    requires
        old(state).wf(),
        old(state).next < i64::MAX,
    ensures
        final(state).wf(),
        runtime::outcome(r) == handed(old(state)@),
        final(state)@ == (LlamaView {
            chat_messages: old(state)@.chat_messages.insert(
                old(state)@.next,
                Seq::<N>::empty(),
            ),
            ..moved_on(old(state)@)
        }),
{
    let handle: i64 = registry::next_handle(&mut state.next);
    let messages: Vec<N> = Vec::new();
    let ghost list = messages@;
    state.chat_messages.insert(handle, messages);
    assert(state@.chat_messages =~= old(state)@.chat_messages.insert(handle, list));
    return_int(handle)
}

/// Adds a message to a list, or tells why it could not be made. A list that is not there is
/// reported first.
pub fn llama_chat_messages_add<N>(
    state: &mut LlamaState<N>,
    handle: i64,
    message: Result<N, String>,
) -> (r: VmResult<Value>)
    requires
        old(state).wf(),
    ensures
        final(state).wf(),
        match lookup(old(state)@.chat_messages, "chat messages"@, handle) {
            Err(e) => {
                &&& runtime::outcome(r) == Err::<ValueView, ErrorView>(e)
                &&& final(state)@ == old(state)@
            },
            Ok(list) => match message {
                Err(m) => {
                    &&& runtime::outcome(r) == Err::<ValueView, ErrorView>(failure(m@))
                    &&& final(state)@ == old(state)@
                },
                Ok(native) => {
                    &&& runtime::outcome(r) == done()
                    &&& final(state)@ == (LlamaView {
                        chat_messages: old(state)@.chat_messages.insert(
                            handle,
                            list.push(native),
                        ),
                        ..old(state)@
                    })
                },
            },
        },
{
    let mut list: Vec<N> = match registry::take_in(
        &mut state.chat_messages,
        "llama",
        "chat messages",
        handle,
    ) {
        Err(e) => {
            assert(state@.chat_messages =~= old(state)@.chat_messages);
            return Err(e);
        },
        Ok(list) => list,
    };
    let ghost before = list@;
    let r: VmResult<Value> = match message {
        Err(m) => Err(llama_host_error(m.as_str())),
        Ok(native) => {
            list.push(native);
            Ok(Value::Bool(true))
        },
    };
    let ghost after = list@;
    state.chat_messages.insert(handle, list);
    proof {
        assert(state@.chat_messages =~= old(state)@.chat_messages.insert(handle, after));
        assert(old(state)@.chat_messages.insert(handle, before) =~= old(state)@.chat_messages);
    }
    r
}

/// Checks that a model, a chat template and a list of messages are there.
pub fn llama_apply_chat_template<N>(
    state: &LlamaState<N>,
    model: i64,
    template: i64,
    messages: i64,
) -> (r: VmResult<()>)
    ensures
        match lookup(state@.models, "model"@, model) {
            Err(e) => r is Err && r->Err_0@ == e,
            Ok(_) => match lookup(state@.chat_templates, "chat template"@, template) {
                Err(e) => r is Err && r->Err_0@ == e,
                Ok(_) => match lookup(state@.chat_messages, "chat messages"@, messages) {
                    Err(e) => r is Err && r->Err_0@ == e,
                    Ok(_) => r is Ok,
                },
            },
        },
{
    match get(&state.models, model, "model") {
        Err(e) => Err(e),
        Ok(_) => match get(&state.chat_templates, template, "chat template") {
            Err(e) => Err(e),
            Ok(_) => match get(&state.chat_messages, messages, "chat messages") {
                Err(e) => Err(e),
                Ok(_) => Ok(()),
            },
        },
    }
}

/// Ends a chat template or a list of messages.
pub fn llama_chat_free<N>(state: &mut LlamaState<N>, handle: i64) -> (r: VmResult<Value>)
    requires
        old(state).wf(),
    ensures
        final(state).wf(),
        runtime::outcome(r) == (if old(state)@.chat_templates.contains_key(handle)
            || old(state)@.chat_messages.contains_key(handle) {
            done()
        } else {
            Err(unknown("chat resource"@, handle))
        }),
        final(state)@ == (LlamaView {
            chat_templates: old(state)@.chat_templates.remove(handle),
            chat_messages: old(state)@.chat_messages.remove(handle),
            ..old(state)@
        }),
{
    let template: bool = state.chat_templates.remove(handle).is_some();
    let messages: bool = state.chat_messages.remove(handle).is_some();
    assert(state@.chat_messages =~= old(state)@.chat_messages.remove(handle));
    if !template && !messages {
        return Err(registry::unknown_handle_error("llama", "chat resource", handle));
    }
    Ok(Value::Bool(true))
}

/// The number of tokens in a list.
pub fn llama_tokens_len<N>(state: &LlamaState<N>, handle: i64) -> (r: VmResult<Value>)
    ensures
        runtime::outcome(r) == match lookup(state@.token_lists, "tokens"@, handle) {
            Err(e) => Err::<ValueView, ErrorView>(e),
            Ok(list) => if list.len() <= i64::MAX {
                Ok(ValueView::Int(list.len() as i64))
            } else {
                Err(ErrorView::Host("token count exceeds int64"@))
            },
        },
{
    match get(&state.token_lists, handle, "tokens") {
        Err(e) => Err(e),
        Ok(list) => {
            let count: usize = list.len();
            if count as u64 <= i64::MAX as u64 {
                return_int(count as i64)
            } else {
                Err(host_error("token count exceeds int64"))
            }
        },
    }
}

/// What reading one token of a list gives.
pub open spec fn token_outcome<N>(s: LlamaView<N>, handle: i64, index: i64) -> Result<
    ValueView,
    ErrorView,
> {
    match lookup(s.token_lists, "tokens"@, handle) {
        Err(e) => Err(e),
        Ok(list) => match runtime::index_outcome(index, "token index"@) {
            Err(e) => Err(e),
            Ok(i) => if i < list.len() {
                Ok(ValueView::Int(list[i] as i64))
            } else {
                Err(
                    ErrorView::Host(
                        "token index "@ + text::decimal(i) + " is out of range"@,
                    ),
                )
            },
        },
    }
}

/// One token of a list.
pub fn llama_tokens_get<N>(state: &LlamaState<N>, handle: i64, index: i64) -> (r: VmResult<Value>)
    ensures
        runtime::outcome(r) == token_outcome(state@, handle, index),
{
    match get(&state.token_lists, handle, "tokens") {
        Err(e) => Err(e),
        Ok(list) => match runtime::non_negative_index(index, "token index") {
            Err(e) => Err(e),
            Ok(i) => if i < list.len() {
                return_int(list[i] as i64)
            } else {
                Err(
                    host_error(
                        text::join3(
                            "token index ",
                            text::decimal_text(i as i128).as_str(),
                            " is out of range",
                        ).as_str(),
                    ),
                )
            },
        },
    }
}

/// Starts the options of a context.
pub fn llama_context_params_init<N>(state: &mut LlamaState<N>, backend: i64) -> (r: VmResult<Value>)
    requires
        old(state).wf(),
        old(state).next < i64::MAX,
    ensures
        final(state).wf(),
        if old(state)@.backends.contains_key(backend) {
            &&& runtime::outcome(r) == handed(old(state)@)
            &&& final(state)@ == (LlamaView {
                context_params: old(state)@.context_params.insert(
                    old(state)@.next,
                    (ContextParams { sizes: None, threads: None }),
                ),
                ..moved_on(old(state)@)
            })
        } else {
            &&& runtime::outcome(r) == Err::<ValueView, ErrorView>(unknown("backend"@, backend))
            &&& final(state)@ == old(state)@
        },
{
    match ensure_backend(state, backend) {
        Ok(()) => {},
        Err(e) => {
            return Err(e);
        },
    }
    let handle: i64 = registry::next_handle(&mut state.next);
    state.context_params.insert(handle, ContextParams { sizes: None, threads: None });
    return_int(handle)
}

/// The three sizes of a context.
pub open spec fn context_sizes(n_ctx: i64, n_batch: i64, n_ubatch: i64) -> Result<
    (u32, u32, u32),
    ErrorView,
> {
    match as_u32(n_ctx, "n_ctx"@) {
        Err(e) => Err(e),
        Ok(a) => match as_u32(n_batch, "n_batch"@) {
            Err(e) => Err(e),
            Ok(b) => match as_u32(n_ubatch, "n_ubatch"@) {
                Err(e) => Err(e),
                Ok(c) => Ok((a, b, c)),
            },
        },
    }
}

/// Sets the sizes of a context.
pub fn llama_context_params_set_sizes<N>(
    state: &mut LlamaState<N>,
    handle: i64,
    n_ctx: i64,
    n_batch: i64,
    n_ubatch: i64,
) -> (r: VmResult<Value>)
    requires
        old(state).wf(),
    ensures
        final(state).wf(),
        match context_sizes(n_ctx, n_batch, n_ubatch) {
            Err(e) => {
                &&& runtime::outcome(r) == Err::<ValueView, ErrorView>(e)
                &&& final(state)@ == old(state)@
            },
            Ok(sizes) => match lookup(old(state)@.context_params, "context params"@, handle) {
                Err(e) => {
                    &&& runtime::outcome(r) == Err::<ValueView, ErrorView>(e)
                    &&& final(state)@ == old(state)@
                },
                Ok(params) => {
                    &&& runtime::outcome(r) == done()
                    &&& final(state)@ == (LlamaView {
                        context_params: old(state)@.context_params.insert(
                            handle,
                            (ContextParams { sizes: Some(sizes), ..params }),
                        ),
                        ..old(state)@
                    })
                },
            },
        },
{
    let n_ctx: u32 = match checked_u32(n_ctx, "n_ctx") {
        Err(e) => {
            return Err(e);
        },
        Ok(n) => n,
    };
    let n_batch: u32 = match checked_u32(n_batch, "n_batch") {
        Err(e) => {
            return Err(e);
        },
        Ok(n) => n,
    };
    let n_ubatch: u32 = match checked_u32(n_ubatch, "n_ubatch") {
        Err(e) => {
            return Err(e);
        },
        Ok(n) => n,
    };
    match get_mut(&mut state.context_params, handle, "context params") {
        Err(e) => {
            return Err(e);
        },
        Ok(params) => {
            *params = ContextParams {
                sizes: Some((n_ctx, n_batch, n_ubatch)),
                threads: params.threads,
            };
        },
    }
    Ok(Value::Bool(true))
}

/// The two numbers of threads of a context.
pub open spec fn context_threads(n_threads: i64, n_threads_batch: i64) -> Result<
    (i32, i32),
    ErrorView,
> {
    match as_i32(n_threads, "n_threads"@) {
        Err(e) => Err(e),
        Ok(a) => match as_i32(n_threads_batch, "n_threads_batch"@) {
            Err(e) => Err(e),
            Ok(b) => Ok((a, b)),
        },
    }
}

/// Sets the numbers of threads of a context.
pub fn llama_context_params_set_threads<N>(
    state: &mut LlamaState<N>,
    handle: i64,
    n_threads: i64,
    n_threads_batch: i64,
) -> (r: VmResult<Value>)
    requires
        old(state).wf(),
    ensures
        final(state).wf(),
        match context_threads(n_threads, n_threads_batch) {
            Err(e) => {
                &&& runtime::outcome(r) == Err::<ValueView, ErrorView>(e)
                &&& final(state)@ == old(state)@
            },
            Ok(threads) => match lookup(old(state)@.context_params, "context params"@, handle) {
                Err(e) => {
                    &&& runtime::outcome(r) == Err::<ValueView, ErrorView>(e)
                    &&& final(state)@ == old(state)@
                },
                Ok(params) => {
                    &&& runtime::outcome(r) == done()
                    &&& final(state)@ == (LlamaView {
                        context_params: old(state)@.context_params.insert(
                            handle,
                            (ContextParams { threads: Some(threads), ..params }),
                        ),
                        ..old(state)@
                    })
                },
            },
        },
{
    let n_threads: i32 = match checked_i32(n_threads, "n_threads") {
        Err(e) => {
            return Err(e);
        },
        Ok(n) => n,
    };
    let n_threads_batch: i32 = match checked_i32(n_threads_batch, "n_threads_batch") {
        Err(e) => {
            return Err(e);
        },
        Ok(n) => n,
    };
    match get_mut(&mut state.context_params, handle, "context params") {
        Err(e) => {
            return Err(e);
        },
        Ok(params) => {
            *params = ContextParams {
                sizes: params.sizes,
                threads: Some((n_threads, n_threads_batch)),
            };
        },
    }
    Ok(Value::Bool(true))
}

/// Whether a context can come of making one with `make`.
pub open spec fn context_makes<N, F: FnOnce(&N, &N, ContextParams) -> Result<N, String>>(
    make: F,
    before: LlamaView<N>,
    after: LlamaView<N>,
    model: N,
    backend: N,
    params: ContextParams,
    r: VmResult<Value>,
) -> bool {
    exists|made: Result<N, String>| #[trigger]
        call_ensures(make, (&model, &backend, params), made) && match made {
            Err(m) => {
                &&& runtime::outcome(r) == Err::<ValueView, ErrorView>(failure(m@))
                &&& after == before
            },
            Ok(context) => {
                &&& runtime::outcome(r) == handed(before)
                &&& after == (LlamaView {
                    contexts: before.contexts.insert(before.next, context),
                    ..moved_on(before)
                })
            },
        }
}

/// Makes a context of a model on a backend. The options are used up, whatever comes of it.
pub fn llama_context_new<N, F: FnOnce(&N, &N, ContextParams) -> Result<N, String>>(
    state: &mut LlamaState<N>,
    model: i64,
    backend: i64,
    params: i64,
    make: F,
) -> (r: VmResult<Value>)
    requires
        old(state).wf(),
        old(state).next < i64::MAX,
        forall|m: &N, b: &N, p: ContextParams| #[trigger] call_requires(make, (m, b, p)),
    ensures
        final(state).wf(),
        match lookup(old(state)@.models, "model"@, model) {
            Err(e) => {
                &&& runtime::outcome(r) == Err::<ValueView, ErrorView>(e)
                &&& final(state)@ == old(state)@
            },
            Ok(native_model) => match lookup(old(state)@.backends, "backend"@, backend) {
                Err(e) => {
                    &&& runtime::outcome(r) == Err::<ValueView, ErrorView>(e)
                    &&& final(state)@ == old(state)@
                },
                Ok(native) => {
                    let taken = LlamaView {
                        context_params: old(state)@.context_params.remove(params),
                        ..old(state)@
                    };
                    match lookup(old(state)@.context_params, "context params"@, params) {
                        Err(e) => {
                            &&& runtime::outcome(r) == Err::<ValueView, ErrorView>(e)
                            &&& final(state)@ == taken
                        },
                        Ok(p) => context_makes(
                            make,
                            taken,
                            final(state)@,
                            native_model,
                            native,
                            p,
                            r,
                        ),
                    }
                },
            },
        },
{
    let native_model: &N = match get(&state.models, model, "model") {
        Ok(native) => native,
        Err(e) => {
            return Err(e);
        },
    };
    let native: &N = match get(&state.backends, backend, "backend") {
        Ok(native) => native,
        Err(e) => {
            return Err(e);
        },
    };
    let taken: ContextParams = match registry::take_in(
        &mut state.context_params,
        "llama",
        "context params",
        params,
    ) {
        Ok(taken) => taken,
        Err(e) => {
            return Err(e);
        },
    };
    let ghost given_model = *native_model;
    let ghost given = *native;
    let made: Result<N, String> = make(native_model, native, taken);
    let ghost result = made;
    assert(call_ensures(make, (&given_model, &given, taken), result));
    llama_context_made(state, made)
}

/// Checks that a context and a batch are there.
pub fn llama_context_decode<N>(state: &LlamaState<N>, context: i64, batch: i64) -> (r: VmResult<()>)
    ensures
        match lookup(state@.contexts, "context"@, context) {
            Err(e) => r is Err && r->Err_0@ == e,
            Ok(_) => match lookup(state@.batches, "batch"@, batch) {
                Err(e) => r is Err && r->Err_0@ == e,
                Ok(_) => r is Ok,
            },
        },
{
    match get(&state.contexts, context, "context") {
        Err(e) => Err(e),
        Ok(_) => match get(&state.batches, batch, "batch") {
            Err(e) => Err(e),
            Ok(_) => Ok(()),
        },
    }
}

/// The result of an operation of llama.cpp that answers with success alone.
pub fn llama_done(r: Result<(), String>) -> (v: VmResult<Value>)
    ensures
        runtime::outcome(v) == match r {
            Ok(()) => done(),
            Err(m) => Err(failure(m@)),
        },
{
    match r {
        Ok(()) => Ok(Value::Bool(true)),
        Err(m) => Err(llama_host_error(m.as_str())),
    }
}

/// The result of an operation of llama.cpp that answers with a text.
pub fn llama_text(r: Result<String, String>) -> (v: VmResult<Value>)
    ensures
        runtime::outcome(v) == match r {
            Ok(s) => Ok(ValueView::String(s@)),
            Err(m) => Err(failure(m@)),
        },
{
    match r {
        Ok(s) => Ok(Value::String(s)),
        Err(m) => Err(llama_host_error(m.as_str())),
    }
}

/// The size of a batch, and how many sequences it holds.
pub open spec fn batch_sizes(capacity: i64, n_seq_max: i64) -> Result<(usize, i32), ErrorView> {
    match runtime::index_outcome(capacity, "batch capacity"@) {
        Err(e) => Err(e),
        Ok(n) => match as_i32(n_seq_max, "n_seq_max"@) {
            Err(e) => Err(e),
            Ok(m) => Ok((n as usize, m)),
        },
    }
}

/// Reads the size of a batch, and how many sequences it holds.
pub fn llama_batch_init(capacity: i64, n_seq_max: i64) -> (r: VmResult<(usize, i32)>)
    ensures
        match r {
            Ok(v) => batch_sizes(capacity, n_seq_max) == Ok::<(usize, i32), ErrorView>(v),
            Err(e) => batch_sizes(capacity, n_seq_max) == Err::<(usize, i32), ErrorView>(e@),
        },
{
    match runtime::non_negative_index(capacity, "batch capacity") {
        Err(e) => Err(e),
        Ok(n) => match checked_i32(n_seq_max, "n_seq_max") {
            Err(e) => Err(e),
            Ok(m) => Ok((n, m)),
        },
    }
}

/// A token, its position and its sequence.
#[derive(Clone, Copy, Debug, PartialEq, Eq, Structural)]
pub struct BatchEntry {
    pub token: i32,
    pub position: i32,
    pub sequence: i32,
}

/// The entry that is to be added to a batch.
pub open spec fn entry_outcome<N>(
    s: LlamaView<N>,
    handle: i64,
    token: i64,
    position: i64,
    sequence: i64,
) -> Result<BatchEntry, ErrorView> {
    match lookup(s.batches, "batch"@, handle) {
        Err(e) => Err(e),
        Ok(_) => match as_i32(token, "token"@) {
            Err(e) => Err(e),
            Ok(token) => match as_i32(position, "position"@) {
                Err(e) => Err(e),
                Ok(position) => match as_i32(sequence, "sequence"@) {
                    Err(e) => Err(e),
                    Ok(sequence) => Ok(BatchEntry { token, position, sequence }),
                },
            },
        },
    }
}

/// Reads the entry that is to be added to a batch.
pub fn llama_batch_add<N>(
    state: &LlamaState<N>,
    handle: i64,
    token: i64,
    position: i64,
    sequence: i64,
) -> (r: VmResult<BatchEntry>)
    ensures
        match r {
            Ok(v) => entry_outcome(state@, handle, token, position, sequence) == Ok::<
                BatchEntry,
                ErrorView,
            >(v),
            Err(e) => entry_outcome(state@, handle, token, position, sequence) == Err::<
                BatchEntry,
                ErrorView,
            >(e@),
        },
{
    match get(&state.batches, handle, "batch") {
        Err(e) => Err(e),
        Ok(_) => match checked_i32(token, "token") {
            Err(e) => Err(e),
            Ok(token) => match checked_i32(position, "position") {
                Err(e) => Err(e),
                Ok(position) => match checked_i32(sequence, "sequence") {
                    Err(e) => Err(e),
                    Ok(sequence) => Ok(BatchEntry { token, position, sequence }),
                },
            },
        },
    }
}

/// The sequence that a list of tokens is added to a batch under.
pub fn llama_batch_add_sequence<N>(
    state: &LlamaState<N>,
    batch: i64,
    tokens: i64,
    sequence: i64,
) -> (r: VmResult<i32>)
    ensures
        match lookup(state@.token_lists, "tokens"@, tokens) {
            Err(e) => r is Err && r->Err_0@ == e,
            Ok(_) => match lookup(state@.batches, "batch"@, batch) {
                Err(e) => r is Err && r->Err_0@ == e,
                Ok(_) => match as_i32(sequence, "sequence"@) {
                    Err(e) => r is Err && r->Err_0@ == e,
                    Ok(n) => r is Ok && r->Ok_0 == n,
                },
            },
        },
{
    match get(&state.token_lists, tokens, "tokens") {
        Err(e) => Err(e),
        Ok(_) => match get(&state.batches, batch, "batch") {
            Err(e) => Err(e),
            Ok(_) => checked_i32(sequence, "sequence"),
        },
    }
}

/// Starts a chain of samplers.
pub fn llama_sampler_chain_init<N>(state: &mut LlamaState<N>, no_perf: bool) -> (r: VmResult<Value>)
    requires
        old(state).wf(),
        old(state).next < i64::MAX,
    ensures
        final(state).wf(),
        runtime::outcome(r) == handed(old(state)@),
        final(state)@ == (LlamaView {
            samplers: old(state)@.samplers.insert(
                old(state)@.next,
                (SamplerView { no_perf, pending: Seq::<SamplerPart>::empty(), sampler: None::<N> }),
            ),
            ..moved_on(old(state)@)
        }),
{
    let handle: i64 = registry::next_handle(&mut state.next);
    let resource: SamplerResource<N> = SamplerResource {
        no_perf,
        pending: Vec::new(),
        sampler: None,
    };
    let ghost model = resource@;
    state.samplers.insert(handle, resource);
    assert(state@.samplers =~= old(state)@.samplers.insert(handle, model));
    return_int(handle)
}

/// A chain with one more part, or why it takes none.
pub open spec fn with_part<N>(s: LlamaView<N>, handle: i64, part: SamplerPart) -> Result<
    LlamaView<N>,
    ErrorView,
> {
    match lookup(s.samplers, "sampler"@, handle) {
        Err(e) => Err(e),
        Ok(chain) => if chain.sampler is Some {
            Err(ErrorView::Host("cannot add a component after sampler chain build"@))
        } else {
            Ok(
                LlamaView {
                    samplers: s.samplers.insert(
                        handle,
                        SamplerView { pending: chain.pending.push(part), ..chain },
                    ),
                    ..s
                },
            )
        },
    }
}

/// What adding a part to a chain comes to; a part that cannot be had is reported first.
pub open spec fn part_added<N>(
    before: LlamaView<N>,
    after: LlamaView<N>,
    handle: i64,
    part: Result<SamplerPart, ErrorView>,
    r: VmResult<Value>,
) -> bool {
    match part {
        Err(e) => {
            &&& runtime::outcome(r) == Err::<ValueView, ErrorView>(e)
            &&& after == before
        },
        Ok(part) => match with_part(before, handle, part) {
            Err(e) => {
                &&& runtime::outcome(r) == Err::<ValueView, ErrorView>(e)
                &&& after == before
            },
            Ok(added) => {
                &&& runtime::outcome(r) == done()
                &&& after == added
            },
        },
    }
}

/// Adds a part to a chain of samplers.
pub fn add_sampler<N>(state: &mut LlamaState<N>, handle: i64, part: SamplerPart) -> (r: VmResult<
    Value,
>)
    requires
        old(state).wf(),
    ensures
        final(state).wf(),
        part_added(old(state)@, final(state)@, handle, Ok(part), r),
{
    let mut chain: SamplerResource<N> = match registry::take_in(
        &mut state.samplers,
        "llama",
        "sampler",
        handle,
    ) {
        Err(e) => {
            assert(state@.samplers =~= old(state)@.samplers);
            return Err(e);
        },
        Ok(chain) => chain,
    };
    let ghost before = chain@;
    let built: bool = chain.sampler.is_some();
    if !built {
        chain.pending.push(part);
    }
    let ghost after = chain@;
    state.samplers.insert(handle, chain);
    proof {
        assert(state@.samplers =~= old(state)@.samplers.insert(handle, after));
        assert(old(state)@.samplers.insert(handle, before) =~= old(state)@.samplers);
        assert(old(state)@.samplers.contains_key(handle));
    }
    if built {
        return Err(host_error("cannot add a component after sampler chain build"));
    }
    Ok(Value::Bool(true))
}

/// Adds the choice among the `k` likeliest tokens to a chain.
pub fn llama_sampler_add_top_k<N>(state: &mut LlamaState<N>, handle: i64, k: i64) -> (r: VmResult<
    Value,
>)
    requires
        old(state).wf(),
    ensures
        final(state).wf(),
        part_added(
            old(state)@,
            final(state)@,
            handle,
            match as_i32(k, "top_k"@) {
                Ok(n) => Ok(SamplerPart::TopK(n)),
                Err(e) => Err(e),
            },
            r,
        ),
{
    match checked_i32(k, "top_k") {
        Ok(n) => add_sampler(state, handle, SamplerPart::TopK(n)),
        Err(e) => Err(e),
    }
}

/// Adds the choice among the likeliest tokens of a given weight to a chain.
pub fn llama_sampler_add_top_p<N>(state: &mut LlamaState<N>, handle: i64, p: u64, min_keep: i64) -> (r: VmResult<
    Value,
>)
    requires
        old(state).wf(),
    ensures
        final(state).wf(),
        part_added(
            old(state)@,
            final(state)@,
            handle,
            match as_usize(min_keep, "min_keep"@) {
                Ok(n) => Ok(SamplerPart::TopP(p, n)),
                Err(e) => Err(e),
            },
            r,
        ),
{
    match checked_usize(min_keep, "min_keep") {
        Ok(n) => add_sampler(state, handle, SamplerPart::TopP(p, n)),
        Err(e) => Err(e),
    }
}

/// Adds the choice among the tokens of a least weight to a chain.
pub fn llama_sampler_add_min_p<N>(state: &mut LlamaState<N>, handle: i64, p: u64, min_keep: i64) -> (r: VmResult<
    Value,
>)
    requires
        old(state).wf(),
    ensures
        final(state).wf(),
        part_added(
            old(state)@,
            final(state)@,
            handle,
            match as_usize(min_keep, "min_keep"@) {
                Ok(n) => Ok(SamplerPart::MinP(p, n)),
                Err(e) => Err(e),
            },
            r,
        ),
{
    match checked_usize(min_keep, "min_keep") {
        Ok(n) => add_sampler(state, handle, SamplerPart::MinP(p, n)),
        Err(e) => Err(e),
    }
}

/// Adds the draw by a seed to a chain.
pub fn llama_sampler_add_dist<N>(state: &mut LlamaState<N>, handle: i64, seed: i64) -> (r: VmResult<
    Value,
>)
    requires
        old(state).wf(),
    ensures
        final(state).wf(),
        part_added(
            old(state)@,
            final(state)@,
            handle,
            match as_u32(seed, "seed"@) {
                Ok(n) => Ok(SamplerPart::Dist(n)),
                Err(e) => Err(e),
            },
            r,
        ),
{
    match checked_u32(seed, "seed") {
        Ok(n) => add_sampler(state, handle, SamplerPart::Dist(n)),
        Err(e) => Err(e),
    }
}

/// Why a chain is not built.
pub open spec fn build_refusal<N>(s: LlamaView<N>, handle: i64) -> Option<ErrorView> {
    match lookup(s.samplers, "sampler"@, handle) {
        Err(e) => Some(e),
        Ok(chain) => if chain.sampler is Some {
            Some(ErrorView::Host("sampler chain is already built"@))
        } else if chain.pending.len() == 0 {
            Some(ErrorView::Host("sampler chain has no components"@))
        } else {
            None
        },
    }
}

/// The state after a chain was built.
pub open spec fn with_chain<N>(s: LlamaView<N>, handle: i64, built: N) -> LlamaView<N> {
    LlamaView {
        samplers: s.samplers.insert(
            handle,
            SamplerView {
                no_perf: s.samplers[handle].no_perf,
                pending: Seq::empty(),
                sampler: Some(built),
            },
        ),
        ..s
    }
}

/// Whether `build` can make a chain of these parts.
pub open spec fn builds<N, F: FnOnce(Vec<SamplerPart>, bool) -> N>(
    build: F,
    pending: Seq<SamplerPart>,
    no_perf: bool,
    built: N,
) -> bool {
    exists|parts: Vec<SamplerPart>|
        parts@ == pending && #[trigger] call_ensures(build, (parts, no_perf), built)
}

/// Builds a chain of samplers of its parts.
pub fn llama_sampler_chain_build<N, F: FnOnce(Vec<SamplerPart>, bool) -> N>(
    state: &mut LlamaState<N>,
    handle: i64,
    build: F,
) -> (r: VmResult<Value>)
    requires
        old(state).wf(),
        forall|parts: Vec<SamplerPart>, no_perf: bool| call_requires(build, (parts, no_perf)),
    ensures
        final(state).wf(),
        match build_refusal(old(state)@, handle) {
            Some(e) => {
                &&& runtime::outcome(r) == Err::<ValueView, ErrorView>(e)
                &&& final(state)@ == old(state)@
            },
            None => {
                &&& runtime::outcome(r) == done()
                &&& exists|built: N|
                    final(state)@ == #[trigger] with_chain(old(state)@, handle, built) && builds(
                        build,
                        old(state)@.samplers[handle].pending,
                        old(state)@.samplers[handle].no_perf,
                        built,
                    )
            },
        },
{
    let chain: SamplerResource<N> = match registry::take_in(
        &mut state.samplers,
        "llama",
        "sampler",
        handle,
    ) {
        Err(e) => {
            assert(state@.samplers =~= old(state)@.samplers);
            return Err(e);
        },
        Ok(chain) => chain,
    };
    let ghost before = chain@;
    assert(old(state)@.samplers.contains_key(handle));
    assert(old(state)@.samplers[handle] == before);
    if chain.sampler.is_some() || chain.pending.len() == 0 {
        let message: &str = if chain.sampler.is_some() {
            "sampler chain is already built"
        } else {
            "sampler chain has no components"
        };
        state.samplers.insert(handle, chain);
        assert(state@.samplers =~= old(state)@.samplers);
        return Err(host_error(message));
    }
    let SamplerResource { no_perf, pending, sampler } = chain;
    let ghost parts = pending;
    let built: N = build(pending, no_perf);
    assert(call_ensures(build, (parts, no_perf), built));
    assert(builds(build, before.pending, no_perf, built));
    let fresh: SamplerResource<N> = SamplerResource {
        no_perf,
        pending: Vec::new(),
        sampler: Some(built),
    };
    let ghost model = fresh@;
    state.samplers.insert(handle, fresh);
    proof {
        assert(state@.samplers =~= old(state)@.samplers.insert(handle, model));
        assert(state@ =~= with_chain(old(state)@, handle, built));
    }
    Ok(Value::Bool(true))
}

/// Why a chain cannot be used.
pub open spec fn ready_refusal<N>(s: LlamaView<N>, handle: i64) -> Option<ErrorView> {
    match lookup(s.samplers, "sampler"@, handle) {
        Err(e) => Some(e),
        Ok(chain) => if chain.sampler is Some {
            None
        } else {
            Some(ErrorView::Host("sampler chain has not been built"@))
        },
    }
}

/// Whether a chain is there and built.
pub fn ready_sampler<N>(state: &LlamaState<N>, handle: i64) -> (r: VmResult<()>)
    ensures
        match ready_refusal(state@, handle) {
            Some(e) => r is Err && r->Err_0@ == e,
            None => r is Ok,
        },
{
    match get(&state.samplers, handle, "sampler") {
        Err(e) => Err(e),
        Ok(chain) => {
            assert(state@.samplers[handle] == chain@);
            if chain.sampler.is_some() {
                Ok(())
            } else {
                Err(host_error("sampler chain has not been built"))
            }
        },
    }
}

/// The place that a chain is to sample from in a context.
pub fn llama_sampler_sample<N>(state: &LlamaState<N>, sampler: i64, context: i64, index: i64) -> (r:
    VmResult<i32>)
    ensures
        match lookup(state@.contexts, "context"@, context) {
            Err(e) => r is Err && r->Err_0@ == e,
            Ok(_) => match ready_refusal(state@, sampler) {
                Some(e) => r is Err && r->Err_0@ == e,
                None => match as_i32(index, "index"@) {
                    Err(e) => r is Err && r->Err_0@ == e,
                    Ok(n) => r is Ok && r->Ok_0 == n,
                },
            },
        },
{
    match get(&state.contexts, context, "context") {
        Err(e) => Err(e),
        Ok(_) => match ready_sampler(state, sampler) {
            Err(e) => Err(e),
            Ok(()) => checked_i32(index, "index"),
        },
    }
}

/// The token that a chain is to accept.
pub fn llama_sampler_accept<N>(state: &LlamaState<N>, sampler: i64, token: i64) -> (r: VmResult<
    i32,
>)
    ensures
        match ready_refusal(state@, sampler) {
            Some(e) => r is Err && r->Err_0@ == e,
            None => match as_i32(token, "token"@) {
                Err(e) => r is Err && r->Err_0@ == e,
                Ok(n) => r is Ok && r->Ok_0 == n,
            },
        },
{
    match ready_sampler(state, sampler) {
        Err(e) => Err(e),
        Ok(()) => checked_i32(token, "token"),
    }
}

/// The token that a decoder is to turn into text.
pub fn llama_decoder_push<N>(state: &LlamaState<N>, decoder: i64, model: i64, token: i64) -> (r:
    VmResult<i32>)
    ensures
        match lookup(state@.models, "model"@, model) {
            Err(e) => r is Err && r->Err_0@ == e,
            Ok(_) => match lookup(state@.decoders, "decoder"@, decoder) {
                Err(e) => r is Err && r->Err_0@ == e,
                Ok(_) => match as_i32(token, "token"@) {
                    Err(e) => r is Err && r->Err_0@ == e,
                    Ok(n) => r is Ok && r->Ok_0 == n,
                },
            },
        },
{
    match get(&state.models, model, "model") {
        Err(e) => Err(e),
        Ok(_) => match get(&state.decoders, decoder, "decoder") {
            Err(e) => Err(e),
            Ok(_) => checked_i32(token, "token"),
        },
    }
}

/// A chain that was built takes no more parts, is not built again, and can be used from then on.
pub proof fn law_built_chain_is_closed<N>(
    s: LlamaView<N>,
    handle: i64,
    built: N,
    part: SamplerPart,
)
    requires
        build_refusal(s, handle) is None,
    ensures
        ({
            let after = with_chain(s, handle, built);
            &&& with_part(after, handle, part) == Err::<LlamaView<N>, ErrorView>(
                ErrorView::Host("cannot add a component after sampler chain build"@),
            )
            &&& build_refusal(after, handle) == Some(
                ErrorView::Host("sampler chain is already built"@),
            )
            &&& ready_refusal(after, handle) is None
        }),
{
}

/// A chain that is not built cannot be used.
pub proof fn law_chain_needs_build<N>(s: LlamaView<N>, handle: i64)
    requires
        s.samplers.contains_key(handle),
        s.samplers[handle].sampler is None,
    ensures
        ready_refusal(s, handle) == Some(ErrorView::Host("sampler chain has not been built"@)),
{
}

/// The handle that is given out next names nothing of any kind yet.
pub proof fn law_llama_handles_are_fresh<N>(s: LlamaView<N>)
    requires
        s.wf(),
    ensures
        !s.backends.contains_key(s.next),
        !s.models.contains_key(s.next),
        !s.contexts.contains_key(s.next),
        !s.token_lists.contains_key(s.next),
        !s.samplers.contains_key(s.next),
        !s.chat_templates.contains_key(s.next),
        !s.chat_messages.contains_key(s.next),
{
}

/// The native libraries of llama.cpp on Windows, in the order in which they are loaded.
pub open spec fn preload_order() -> Seq<Seq<char>> {
    seq![
        "cudart64_13.dll"@,
        "cublasLt64_13.dll"@,
        "cublas64_13.dll"@,
        "cudart64_12.dll"@,
        "cublasLt64_12.dll"@,
        "cublas64_12.dll"@,
        "libomp140.x86_64.dll"@,
        "ggml-base.dll"@,
        "ggml.dll"@,
        "ggml-cpu-x64.dll"@,
        "ggml-cuda.dll"@,
        "ggml-vulkan.dll"@,
        "ggml-rpc.dll"@,
        "llama.dll"@,
        "llama-common.dll"@,
        "mtmd.dll"@,
    ]
}

/// The native libraries of llama.cpp on Windows, in the order in which they are loaded.
pub fn llama_preload_order() -> (r: Vec<String>)
    ensures
        text::views(r@) == preload_order(),
{
    let r: Vec<String> = vec![
        "cudart64_13.dll".to_string(),
        "cublasLt64_13.dll".to_string(),
        "cublas64_13.dll".to_string(),
        "cudart64_12.dll".to_string(),
        "cublasLt64_12.dll".to_string(),
        "cublas64_12.dll".to_string(),
        "libomp140.x86_64.dll".to_string(),
        "ggml-base.dll".to_string(),
        "ggml.dll".to_string(),
        "ggml-cpu-x64.dll".to_string(),
        "ggml-cuda.dll".to_string(),
        "ggml-vulkan.dll".to_string(),
        "ggml-rpc.dll".to_string(),
        "llama.dll".to_string(),
        "llama-common.dll".to_string(),
        "mtmd.dll".to_string(),
    ];
    assert(text::views(r@) =~= preload_order());
    r
}

/// A number is taken where it fits the type asked for, and is then handed on as it is.
pub proof fn law_numbers_for_llama(value: i64, name: Seq<char>)
    ensures
        as_i32(value, name) is Ok <==> -0x8000_0000 <= value <= 0x7fff_ffff,
        as_i32(value, name) matches Ok(n) ==> n == value,
        as_u32(value, name) is Ok <==> 0 <= value <= 0xffff_ffff,
        as_u32(value, name) matches Ok(n) ==> n == value,
        as_usize(value, name) is Ok <==> 0 <= value <= usize::MAX,
        as_usize(value, name) matches Ok(n) ==> n == value,
{
}

/// The sizes and the threads of a context, the sizes of a batch and the parts of an entry are held
/// as they were given, each as what it was given for.
pub proof fn law_sizes_are_held<N>(s: LlamaView<N>, handle: i64, a: i64, b: i64, c: i64)
    ensures
        context_sizes(a, b, c) matches Ok(sizes) ==> sizes.0 == a && sizes.1 == b && sizes.2 == c,
        0 <= a <= u32::MAX && 0 <= b <= u32::MAX && 0 <= c <= u32::MAX ==> context_sizes(a, b, c)
            is Ok,
        context_threads(a, b) matches Ok(threads) ==> threads.0 == a && threads.1 == b,
        i32::MIN <= a <= i32::MAX && i32::MIN <= b <= i32::MAX ==> context_threads(a, b) is Ok,
        batch_sizes(a, b) matches Ok(sizes) ==> sizes.0 == a && sizes.1 == b,
        0 <= a <= usize::MAX && i32::MIN <= b <= i32::MAX ==> batch_sizes(a, b) is Ok,
        entry_outcome(s, handle, a, b, c) matches Ok(entry) ==> s.batches.contains_key(handle)
            && entry.token == a && entry.position == b && entry.sequence == c,
        s.batches.contains_key(handle) && i32::MIN <= a <= i32::MAX && i32::MIN <= b <= i32::MAX
            && i32::MIN <= c <= i32::MAX ==> entry_outcome(s, handle, a, b, c) is Ok,
{
}

/// Changing the options of a model changes those of its handle alone.
pub proof fn law_model_options_are_set<N>(
    before: LlamaView<N>,
    after: LlamaView<N>,
    handle: i64,
    changed: ModelParams,
    r: VmResult<Value>,
    other: i64,
)
    requires
        params_changed(before, after, handle, changed, r),
    ensures
        r is Ok <==> before.model_params.contains_key(handle),
        r is Ok ==> after.model_params[handle] == changed,
        r is Err ==> after == before,
        other != handle ==> after.model_params[other] == before.model_params[other]
            && after.model_params.contains_key(other) == before.model_params.contains_key(other),
        after.next == before.next,
        after.models == before.models,
        after.contexts == before.contexts,
        after.context_params == before.context_params,
        before.model_params.contains_key(handle) ==> params_of(before, handle)
            == before.model_params[handle],
{
}

/// A model is loaded by the backend and with the options that were asked for, and is then found
/// under a handle that named none before.
pub proof fn law_model_is_loaded<N, F: FnOnce(&N, ModelParams) -> Result<N, String>>(
    load: F,
    before: LlamaView<N>,
    after: LlamaView<N>,
    backend: N,
    params: ModelParams,
    r: VmResult<Value>,
    other: i64,
)
    requires
        before.wf(),
        before.next < i64::MAX,
        model_loads(load, before, after, backend, params, r),
    ensures
        r is Ok ==> r->Ok_0 is Int && {
            let handle = r->Ok_0->Int_0;
            &&& !before.models.contains_key(handle)
            &&& after.models.contains_key(handle)
            &&& exists|made: Result<N, String>| #[trigger]
                call_ensures(load, (&backend, params), made) && made == Ok::<N, String>(
                    after.models[handle],
                )
            &&& other != handle ==> after.models[other] == before.models[other]
            &&& after.next > handle
        },
        r is Err ==> after == before && exists|made: Result<N, String>| #[trigger]
            call_ensures(load, (&backend, params), made) && made is Err,
{
}

/// A context is made for the model, by the backend and with the options that were asked for, and is
/// then found under a handle that named none before.
pub proof fn law_llama_context_is_made<N, F: FnOnce(&N, &N, ContextParams) -> Result<N, String>>(
    make: F,
    before: LlamaView<N>,
    after: LlamaView<N>,
    model: N,
    backend: N,
    params: ContextParams,
    r: VmResult<Value>,
    other: i64,
)
    requires
        before.wf(),
        before.next < i64::MAX,
        context_makes(make, before, after, model, backend, params, r),
    ensures
        r is Ok ==> r->Ok_0 is Int && {
            let handle = r->Ok_0->Int_0;
            &&& !before.contexts.contains_key(handle)
            &&& after.contexts.contains_key(handle)
            &&& exists|made: Result<N, String>| #[trigger]
                call_ensures(make, (&model, &backend, params), made) && made == Ok::<N, String>(
                    after.contexts[handle],
                )
            &&& other != handle ==> after.contexts[other] == before.contexts[other]
            &&& after.next > handle
        },
        r is Err ==> after == before && exists|made: Result<N, String>| #[trigger]
            call_ensures(make, (&model, &backend, params), made) && made is Err,
{
}

/// A token of a list is the one in the place asked for.
pub proof fn law_token_in_its_place<N>(s: LlamaView<N>, handle: i64, index: i64)
    requires
        s.token_lists.contains_key(handle),
        s.token_lists[handle].len() <= usize::MAX,
    ensures
        token_outcome(s, handle, index) is Ok <==> 0 <= index < s.token_lists[handle].len(),
        token_outcome(s, handle, index) matches Ok(v) ==> v == ValueView::Int(
            s.token_lists[handle][index as int] as i64,
        ),
{
}

/// A part that is added to a sampler chain comes last in it, behind the parts that were there, and
/// no other chain changes; it is added where the chain is not built yet.
pub proof fn law_part_comes_last<N>(
    before: LlamaView<N>,
    after: LlamaView<N>,
    handle: i64,
    part: SamplerPart,
    r: VmResult<Value>,
    other: i64,
)
    requires
        part_added(before, after, handle, Ok(part), r),
    ensures
        r is Ok <==> before.samplers.contains_key(handle) && before.samplers[handle].sampler is None,
        r is Err ==> after == before,
        r is Ok ==> {
            let then = before.samplers[handle].pending;
            let now = after.samplers[handle].pending;
            &&& now.len() == then.len() + 1
            &&& now.last() == part
            &&& forall|i: int| 0 <= i < then.len() ==> #[trigger] now[i] == then[i]
            &&& after.samplers[handle].no_perf == before.samplers[handle].no_perf
            &&& after.samplers[handle].sampler is None
        },
        other != handle ==> after.samplers[other] == before.samplers[other],
        after.next == before.next,
{
}

/// A chain is built of its parts in the order in which they were added, with the setting it was
/// made with; the chain holds what was built, and no part waits any more.
pub proof fn law_chain_is_built_of_its_parts<N, F: FnOnce(Vec<SamplerPart>, bool) -> N>(
    s: LlamaView<N>,
    handle: i64,
    build: F,
    built: N,
    other: i64,
)
    requires
        build_refusal(s, handle) is None,
        builds(build, s.samplers[handle].pending, s.samplers[handle].no_perf, built),
    ensures
        s.samplers.contains_key(handle),
        s.samplers[handle].pending.len() > 0,
        exists|parts: Vec<SamplerPart>|
            {
                &&& #[trigger] call_ensures(build, (parts, s.samplers[handle].no_perf), built)
                &&& parts@.len() == s.samplers[handle].pending.len()
                &&& forall|i: int|
                    0 <= i < parts@.len() ==> #[trigger] parts@[i]
                        == s.samplers[handle].pending[i]
            },
        with_chain(s, handle, built).samplers[handle].sampler == Some(built),
        with_chain(s, handle, built).samplers[handle].pending.len() == 0,
        with_chain(s, handle, built).samplers[handle].no_perf == s.samplers[handle].no_perf,
        other != handle ==> with_chain(s, handle, built).samplers[other] == s.samplers[other],
{
    let parts = choose|parts: Vec<SamplerPart>|
        parts@ == s.samplers[handle].pending && #[trigger] call_ensures(
            build,
            (parts, s.samplers[handle].no_perf),
            built,
        );
    assert(call_ensures(build, (parts, s.samplers[handle].no_perf), built));
}

/// A list of devices has a line for each device, in order, with what is known of it: its number,
/// its name, its backend, what is told of it, and its free memory.
pub proof fn law_devices_are_listed(devices: Seq<DeviceInfo>, device: DeviceInfo)
    ensures
        device_listing(seq![device]) == text::decimal(device.index as int) + "\t"@ + device.name@
            + "\t"@ + device.backend@ + "\t"@ + device.description@ + "\t"@ + text::decimal(
            device.memory_free as int,
        ),
        devices.len() > 0 ==> device_listing(devices.push(device)) == device_listing(devices)
            + "\n"@ + device_listing(seq![device]),
{
    let line = |device: DeviceInfo| device_line(device);
    assert(seq![device].map_values(line) =~= seq![device_line(device)]);
    let all = devices.push(device).map_values(line);
    assert(all.drop_last() =~= devices.map_values(line));
    assert(all.last() == device_line(device));
}

/// A package of llama.cpp is chosen by the name of its backend, in any letter case, for the system
/// it is made for.
pub proof fn law_llama_package(kind: Seq<char>, target: Target)
    ensures
        kind.len() == 0 || text::lower_text(kind) == "auto"@ || text::has_prefix(
            text::lower_text(kind),
            "cuda"@,
        ) ==> package_for(kind, target) == Some(LlamaPackage::Current),
        text::lower_text(kind) == "cpu"@ ==> match package_for(kind, target) {
            Some(p) => (p == LlamaPackage::WindowsX64Cpu && target == (Target {
                os: Os::Windows,
                arch: Arch::X64,
            })) || (p == LlamaPackage::LinuxX64Cpu && target == (Target {
                os: Os::Linux,
                arch: Arch::X64,
            })) || (p == LlamaPackage::LinuxArm64Cpu && target == (Target {
                os: Os::Linux,
                arch: Arch::Arm64,
            })),
            None => !(target.os == Os::Windows && target.arch == Arch::X64) && !(target.os
                == Os::Linux && target.arch != Arch::Other),
        },
        text::has_prefix(text::lower_text(kind), "vulkan"@) ==> match package_for(kind, target) {
            Some(p) => (p == LlamaPackage::WindowsX64Vulkan && target == (Target {
                os: Os::Windows,
                arch: Arch::X64,
            })) || (p == LlamaPackage::LinuxX64Vulkan && target == (Target {
                os: Os::Linux,
                arch: Arch::X64,
            })) || (p == LlamaPackage::LinuxArm64Vulkan && target == (Target {
                os: Os::Linux,
                arch: Arch::Arm64,
            })),
            None => !(target.os == Os::Windows && target.arch == Arch::X64) && !(target.os
                == Os::Linux && target.arch != Arch::Other),
        },
{
    reveal_strlit("auto");
    reveal_strlit("cpu");
    reveal_strlit("cuda");
    reveal_strlit("vulkan");
    let low = text::lower_text(kind);
    assert("auto"@[0] == 'a' && "cpu"@[1] == 'p' && "cpu"@.len() == 3 && "auto"@.len() == 4);
    if text::has_prefix(low, "cuda"@) {
        assert(low.take(4)[0] == 'c' && low.take(4)[1] == 'u');
    }
    if text::has_prefix(low, "vulkan"@) {
        assert(low.take(6)[0] == 'v');
        assert(low != "auto"@ && low != "cpu"@);
        if text::has_prefix(low, "cuda"@) {
            assert(low.take(4)[0] == 'c');
        }
    }
}

} // verus!
