//! The ggml backends that come with stable-diffusion.cpp.
use vstd::prelude::*;
use vstd::string::*;

use crate::native::{join_path, library_path, Arch, Os, Target};
use crate::native;
use crate::runtime;
use crate::text;
use crate::value::{host_error, ErrorView, Value, ValueView, VmError, VmResult};

verus! {

/// The packages of stable-diffusion.cpp.
#[derive(Clone, Copy, Debug, PartialEq, Eq, Structural)]
pub enum SdPackage {
    WindowsX64Cpu,
    WindowsX64Cuda12,
    WindowsX64Vulkan,
    WindowsX64Rocm711,
    WindowsX64Rocm7130,
    LinuxX64Cpu,
    LinuxX64Vulkan,
    LinuxX64Rocm721,
    LinuxX64Rocm7130,
    MacosArm64,
}

/// The package without an accelerator, where the target has one.
pub open spec fn cpu_package(target: Target) -> Option<SdPackage> {
    match (target.os, target.arch) {
        (Os::Windows, Arch::X64) => Some(SdPackage::WindowsX64Cpu),
        (Os::Linux, Arch::X64) => Some(SdPackage::LinuxX64Cpu),
        (Os::Macos, Arch::Arm64) => Some(SdPackage::MacosArm64),
        _ => None,
    }
}

/// The package for CUDA, where the target has one.
pub open spec fn cuda_package(target: Target) -> Option<SdPackage> {
    match (target.os, target.arch) {
        (Os::Windows, Arch::X64) => Some(SdPackage::WindowsX64Cuda12),
        _ => None,
    }
}

/// The package for Vulkan, where the target has one.
pub open spec fn vulkan_package(target: Target) -> Option<SdPackage> {
    match (target.os, target.arch) {
        (Os::Windows, Arch::X64) => Some(SdPackage::WindowsX64Vulkan),
        (Os::Linux, Arch::X64) => Some(SdPackage::LinuxX64Vulkan),
        _ => None,
    }
}

/// The message on a package that the target does not have.
pub open spec fn no_package(name: Seq<char>) -> Seq<char> {
    "unsupported stable-diffusion.cpp "@ + name + " package for this target"@
}

/// A package, or the message that there is none.
pub open spec fn package_or(package: Option<SdPackage>, name: Seq<char>) -> Result<
    SdPackage,
    Seq<char>,
> {
    match package {
        Some(p) => Ok(p),
        None => Err(no_package(name)),
    }
}

/// The package for the CPU.
pub fn stable_diffusion_cpu_package(target: Target) -> (r: Result<SdPackage, String>)
    ensures
        match r {
            Ok(p) => package_or(cpu_package(target), "CPU"@) == Ok::<SdPackage, Seq<char>>(p),
            Err(m) => package_or(cpu_package(target), "CPU"@) == Err::<SdPackage, Seq<char>>(m@),
        },
{
    match (target.os, target.arch) {
        (Os::Windows, Arch::X64) => Ok(SdPackage::WindowsX64Cpu),
        (Os::Linux, Arch::X64) => Ok(SdPackage::LinuxX64Cpu),
        (Os::Macos, Arch::Arm64) => Ok(SdPackage::MacosArm64),
        _ => Err(text::join3("unsupported stable-diffusion.cpp ", "CPU", " package for this target")),
    }
}

/// The package for CUDA.
pub fn stable_diffusion_cuda_package(target: Target) -> (r: Result<SdPackage, String>)
    ensures
        match r {
            Ok(p) => package_or(cuda_package(target), "CUDA"@) == Ok::<SdPackage, Seq<char>>(p),
            Err(m) => package_or(cuda_package(target), "CUDA"@) == Err::<SdPackage, Seq<char>>(
                m@,
            ),
        },
{
    match (target.os, target.arch) {
        (Os::Windows, Arch::X64) => Ok(SdPackage::WindowsX64Cuda12),
        _ => Err(
            text::join3("unsupported stable-diffusion.cpp ", "CUDA", " package for this target"),
        ),
    }
}

/// The package for Vulkan.
pub fn stable_diffusion_vulkan_package(target: Target) -> (r: Result<SdPackage, String>)
    ensures
        match r {
            Ok(p) => package_or(vulkan_package(target), "Vulkan"@) == Ok::<SdPackage, Seq<char>>(
                p,
            ),
            Err(m) => package_or(vulkan_package(target), "Vulkan"@) == Err::<
                SdPackage,
                Seq<char>,
            >(m@),
        },
{
    match (target.os, target.arch) {
        (Os::Windows, Arch::X64) => Ok(SdPackage::WindowsX64Vulkan),
        (Os::Linux, Arch::X64) => Ok(SdPackage::LinuxX64Vulkan),
        _ => Err(
            text::join3("unsupported stable-diffusion.cpp ", "Vulkan", " package for this target"),
        ),
    }
}

/// The package that a backend's name asks for, in any letter case. A name that is not known asks
/// for `current`, the package that suits the target best, or the reason why there is none.
pub open spec fn package_for(
    backend: Option<Seq<char>>,
    target: Target,
    current: Result<SdPackage, Seq<char>>,
) -> Result<SdPackage, Seq<char>> {
    match backend {
        None => current,
        Some(name) => {
            let low = text::lower_text(name);
            if low.len() == 0 || low == "auto"@ {
                current
            } else if low == "cpu"@ {
                package_or(cpu_package(target), "CPU"@)
            } else if text::has_prefix(low, "cuda"@) {
                package_or(cuda_package(target), "CUDA"@)
            } else if text::has_prefix(low, "vulkan"@) {
                package_or(vulkan_package(target), "Vulkan"@)
            } else {
                current
            }
        },
    }
}

/// The model of an optional text.
pub open spec fn opt_view(s: Option<&str>) -> Option<Seq<char>> {
    match s {
        Some(v) => Some(v@),
        None => None,
    }
}

/// The model of a package, or of the reason why there is none.
pub open spec fn package_view(package: Result<SdPackage, String>) -> Result<SdPackage, Seq<char>> {
    match package {
        Ok(p) => Ok(p),
        Err(m) => Err(m@),
    }
}

/// The package that a backend's name asks for.
pub fn select_stable_diffusion_package(
    backend: Option<&str>,
    target: Target,
    current: Result<SdPackage, String>,
) -> (r: Result<SdPackage, String>)
    ensures
        package_view(r) == package_for(opt_view(backend), target, package_view(current)),
{
    let name: &str = match backend {
        None => {
            return current;
        },
        Some(name) => name,
    };
    let low: String = text::to_ascii_lowercase(name);
    if low.as_str().unicode_len() == 0 || text::same_text(low.as_str(), "auto") {
        current
    } else if text::same_text(low.as_str(), "cpu") {
        stable_diffusion_cpu_package(target)
    } else if text::starts_with(low.as_str(), "cuda") {
        stable_diffusion_cuda_package(target)
    } else if text::starts_with(low.as_str(), "vulkan") {
        stable_diffusion_vulkan_package(target)
    } else {
        current
    }
}

/// Whether a package needs the CUDA runtime to be loaded ahead of it.
pub fn preload_package_dependencies(package: SdPackage) -> (r: bool)
    ensures
        r == (package == SdPackage::WindowsX64Cuda12),
{
    match package {
        SdPackage::WindowsX64Cuda12 => true,
        _ => false,
    }
}

/// The directory of a package's files below the store of packages; `package` is the name that the
/// store knows the package by.
pub open spec fn package_dir(os: Os, store: Seq<char>, package: Seq<char>) -> Seq<char> {
    native::entry_path(
        os,
        native::entry_path(
            os,
            native::entry_path(os, store, "stable-diffusion.cpp"@),
            "master-769-cc73429"@,
        ),
        package,
    )
}

/// The directory of a package's files below the store of packages.
pub fn stable_diffusion_package_dir(os: Os, store: &str, package: &str) -> (r: String)
    ensures
        r@ == package_dir(os, store@, package@),
{
    let packages: String = join_path(os, store, "stable-diffusion.cpp");
    let release: String = join_path(os, packages.as_str(), "master-769-cc73429");
    join_path(os, release.as_str(), package)
}

/// The directory that backends are loaded from: the path itself, or the directory that it lies in.
/// `parent` is the path without its last name, where it has one.
pub fn normalize_ggml_dir(path: &str, is_dir: bool, parent: Option<&str>) -> (r: Result<
    String,
    String,
>)
    ensures
        match r {
            Ok(directory) => if is_dir {
                directory@ == path@
            } else {
                opt_view(parent) == Some(directory@)
            },
            Err(m) => !is_dir && parent is None && m@ == path@ + " has no parent directory"@,
        },
{
    if is_dir {
        return Ok(path.to_string());
    }
    match parent {
        Some(directory) => Ok(directory.to_string()),
        None => Err(text::join2(path, " has no parent directory")),
    }
}

/// The ggml library of a directory; `exists` tells whether there is a file of that name.
pub fn ggml_library_path(directory: &str, os: Os, exists: bool) -> (r: Result<String, String>)
    ensures
        ({
            let path = native::entry_path(os, directory@, native::library_name(os, "ggml"@));
            match r {
                Ok(p) => exists && p@ == path,
                Err(m) => !exists && m@ == "ggml library not found: "@ + path,
            }
        }),
{
    let path: String = library_path(directory, "ggml", os);
    if exists {
        Ok(path)
    } else {
        Err(text::join2("ggml library not found: ", path.as_str()))
    }
}

/// What is known of a device; a name or a description that cannot be asked for is not there.
#[derive(Debug)]
pub struct GgmlDevice {
    pub name: Option<String>,
    pub description: Option<String>,
}

/// The line of a device.
pub open spec fn device_line(device: GgmlDevice, index: int) -> Seq<char> {
    let name = match device.name {
        Some(s) => s@,
        None => "device"@ + text::decimal(index),
    };
    let description = match device.description {
        Some(s) => s@,
        None => Seq::empty(),
    };
    name + "\t"@ + description + "\n"@
}

/// The lines of devices, without those that are not there.
pub open spec fn device_lines(devices: Seq<Option<GgmlDevice>>) -> Seq<char>
    decreases devices.len(),
{
    if devices.len() == 0 {
        Seq::empty()
    } else {
        let before = device_lines(devices.drop_last());
        match devices.last() {
            Some(device) => before + device_line(device, devices.len() - 1),
            None => before,
        }
    }
}

/// Lists devices, one line each.
pub fn list_devices(devices: &Vec<Option<GgmlDevice>>) -> (r: String)
    ensures
        r@ == device_lines(devices@),
{
    let mut out: String = String::new();
    let mut i: usize = 0;
    assert(devices@.take(0) =~= Seq::<Option<GgmlDevice>>::empty());
    while i < devices.len()
        invariant
            i <= devices@.len(),
            out@ == device_lines(devices@.take(i as int)),
        decreases devices@.len() - i,
    {
        assert(devices@.take(i + 1).drop_last() =~= devices@.take(i as int));
        match &devices[i] {
            None => {},
            Some(device) => {
                let ghost before = out@;
                match &device.name {
                    Some(name) => out.append(name.as_str()),
                    None => {
                        let number: String = text::decimal_text(i as i128);
                        out.append(text::join2("device", number.as_str()).as_str());
                    },
                }
                out.append("\t");
                match &device.description {
                    Some(description) => out.append(description.as_str()),
                    None => {},
                }
                out.append("\n");
                assert(out@ =~= before + device_line(*device, i as int));
            },
        }
        i = i + 1;
    }
    assert(devices@.take(i as int) =~= devices@);
    out
}

/// The size of the buffer that a list of `required` bytes is fetched into, or `None` where there
/// is nothing to fetch.
pub fn device_list_buffer(required: usize) -> (r: Option<usize>)
    requires
        required < usize::MAX,
    ensures
        r == (if required == 0 {
            None
        } else {
            Some((required + 1) as usize)
        }),
{
    if required == 0 {
        None
    } else {
        Some(required + 1)
    }
}

/// How many bytes of the buffer belong to the list.
pub fn device_list_len(written: usize, required: usize) -> (r: usize)
    ensures
        r == (if written <= required {
            written
        } else {
            required
        }),
{
    if written <= required {
        written
    } else {
        required
    }
}

/// The error on an action with ggml that failed.
pub fn ggml_error(action: &str, reason: &str) -> (r: VmError)
    ensures
        r@ == ErrorView::Host("failed to "@ + action@ + ": "@ + reason@),
{
    let mut message: String = text::join3("failed to ", action, ": ");
    message.append(reason);
    host_error(message.as_str())
}

/// The result of loading backends.
pub fn ggml_load_backends(loaded: Result<(), String>) -> (r: VmResult<Value>)
    ensures
        runtime::outcome(r) == match loaded {
            Ok(()) => Ok(ValueView::Bool(true)),
            Err(m) => Err(ErrorView::Host("failed to "@ + "load ggml backends"@ + ": "@ + m@)),
        },
{
    match loaded {
        Ok(()) => Ok(Value::Bool(true)),
        Err(m) => Err(ggml_error("load ggml backends", m.as_str())),
    }
}

/// The result of listing devices.
pub fn ggml_list_devices(listed: Result<String, String>) -> (r: VmResult<Value>)
    ensures
        runtime::outcome(r) == match listed {
            Ok(s) => Ok(ValueView::String(s@)),
            Err(m) => Err(ErrorView::Host("failed to "@ + "list ggml devices"@ + ": "@ + m@)),
        },
{
    match listed {
        Ok(s) => Ok(Value::String(s)),
        Err(m) => Err(ggml_error("list ggml devices", m.as_str())),
    }
}

/// The package that a script's backend name asks for.
pub fn ggml_package(backend: &str, target: Target, current: Result<SdPackage, String>) -> (r:
    VmResult<SdPackage>)
    ensures
        match package_for(Some(backend@), target, package_view(current)) {
            Ok(p) => r is Ok && r->Ok_0 == p,
            Err(m) => r is Err && r->Err_0@ == ErrorView::Host(
                "failed to "@ + "select ggml package"@ + ": "@ + m,
            ),
        },
{
    match select_stable_diffusion_package(Some(backend), target, current) {
        Ok(p) => Ok(p),
        Err(m) => Err(ggml_error("select ggml package", m.as_str())),
    }
}

/// The backends that were loaded, each under its directory.
pub struct GgmlApis<N> {
    pub directories: Vec<String>,
    pub apis: Vec<N>,
}

/// The first place of a directory among those that are known.
pub open spec fn place_of(directories: Seq<Seq<char>>, directory: Seq<char>) -> Option<int>
    decreases directories.len(),
{
    if directories.len() == 0 {
        None
    } else {
        match place_of(directories.drop_last(), directory) {
            Some(i) => Some(i),
            None => if directories.last() == directory {
                Some(directories.len() - 1)
            } else {
                None
            },
        }
    }
}

proof fn lemma_place_of(directories: Seq<Seq<char>>, directory: Seq<char>)
    ensures
        match place_of(directories, directory) {
            Some(i) => 0 <= i < directories.len() && directories[i] == directory,
            None => forall|i: int| 0 <= i < directories.len() ==> directories[i] != directory,
        },
    decreases directories.len(),
{
    if directories.len() > 0 {
        lemma_place_of(directories.drop_last(), directory);
        assert forall|i: int|
            place_of(directories, directory) is None && 0 <= i
                < directories.len() implies directories[i] != directory by {
            if i < directories.len() - 1 {
                assert(directories.drop_last()[i] == directories[i]);
            }
        }
    }
}

impl<N> GgmlApis<N> {
    /// Every directory has its backends.
    pub open spec fn wf(&self) -> bool {
        self.directories@.len() == self.apis@.len()
    }

    /// The backends of a directory, as a mathematical value.
    pub open spec fn of(&self, directory: Seq<char>) -> Option<N> {
        match place_of(text::views(self.directories@), directory) {
            Some(i) => Some(self.apis@[i]),
            None => None,
        }
    }

    /// No backends at all.
    pub fn new() -> (r: Self)
        ensures
            r.wf(),
            forall|directory: Seq<char>| #[trigger] r.of(directory) is None,
    {
        GgmlApis { directories: Vec::new(), apis: Vec::new() }
    }

    /// The backends of a directory, where they were loaded before.
    pub fn known(&self, directory: &str) -> (r: Option<&N>)
        requires
            self.wf(),
        ensures
            match r {
                Some(api) => self.of(directory@) == Some(*api),
                None => self.of(directory@) is None,
            },
    {
        let mut i: usize = 0;
        let ghost all = text::views(self.directories@);
        assert(all.take(0) =~= Seq::<Seq<char>>::empty());
        while i < self.directories.len()
            invariant
                self.wf(),
                all == text::views(self.directories@),
                i <= self.directories@.len(),
                place_of(all.take(i as int), directory@) is None,
            decreases self.directories@.len() - i,
        {
            assert(all.take(i + 1).drop_last() =~= all.take(i as int));
            if text::same_text(self.directories[i].as_str(), directory) {
                proof {
                    lemma_place_stays(all, directory@, i as int + 1);
                }
                return Some(&self.apis[i]);
            }
            i = i + 1;
        }
        assert(all.take(i as int) =~= all);
        None
    }

    /// Keeps the backends of a directory, once its plugins are loaded; a failure keeps nothing.
    pub fn keep(&mut self, directory: &str, api: N, loaded: Result<(), String>) -> (r: Result<
        (),
        String,
    >)
        requires
            old(self).wf(),
            old(self).of(directory@) is None,
        ensures
            final(self).wf(),
            match loaded {
                Ok(()) => {
                    &&& r is Ok
                    &&& final(self).of(directory@) == Some(api)
                    &&& forall|other: Seq<char>|
                        other != directory@ ==> #[trigger] final(self).of(other) == old(self).of(
                            other,
                        )
                },
                Err(m) => {
                    &&& r is Err
                    &&& r->Err_0@ == m@
                    &&& *final(self) == *old(self)
                },
            },
    {
        match loaded {
            Err(m) => Err(m),
            Ok(()) => {
                let ghost before = text::views(self.directories@);
                self.directories.push(directory.to_string());
                self.apis.push(api);
                proof {
                    let after = text::views(self.directories@);
                    assert(after.drop_last() =~= before);
                    assert(after.last() == directory@);
                    assert forall|other: Seq<char>| other != directory@ implies #[trigger] self.of(
                        other,
                    ) == old(self).of(other) by {
                        lemma_place_of(before, other);
                    }
                }
                Ok(())
            },
        }
    }
}

proof fn lemma_place_stays(directories: Seq<Seq<char>>, directory: Seq<char>, n: int)
    requires
        0 <= n <= directories.len(),
        place_of(directories.take(n), directory) is Some,
    ensures
        place_of(directories, directory) == place_of(directories.take(n), directory),
    decreases directories.len() - n,
{
    if n == directories.len() {
        assert(directories.take(n) =~= directories);
    } else {
        assert(directories.take(n + 1).drop_last() =~= directories.take(n));
        lemma_place_stays(directories, directory, n + 1);
    }
}

/// Where the target's own package is not the one for CUDA, that one is chosen on Windows alone.
pub proof fn law_cuda_needs_windows(
    backend: Option<Seq<char>>,
    target: Target,
    current: Result<SdPackage, Seq<char>>,
)
    requires
        current != Ok::<SdPackage, Seq<char>>(SdPackage::WindowsX64Cuda12),
    ensures
        package_for(backend, target, current) == Ok::<SdPackage, Seq<char>>(
            SdPackage::WindowsX64Cuda12,
        ) ==> target.os == Os::Windows && target.arch == Arch::X64,
{
}

/// A package is chosen by the name of its backend, in any letter case, for the system it is made
/// for; a name that chooses none leaves the one at hand.
pub proof fn law_package_by_backend(
    name: Seq<char>,
    target: Target,
    current: Result<SdPackage, Seq<char>>,
)
    ensures
        package_for(None, target, current) == current,
        name.len() == 0 || text::lower_text(name) == "auto"@ ==> package_for(
            Some(name),
            target,
            current,
        ) == current,
        text::lower_text(name) == "cpu"@ ==> match package_for(Some(name), target, current) {
            Ok(p) => (p == SdPackage::WindowsX64Cpu && target == (Target {
                os: Os::Windows,
                arch: Arch::X64,
            })) || (p == SdPackage::LinuxX64Cpu && target == (Target {
                os: Os::Linux,
                arch: Arch::X64,
            })) || (p == SdPackage::MacosArm64 && target == (Target {
                os: Os::Macos,
                arch: Arch::Arm64,
            })),
            Err(_) => !(target.arch == Arch::X64 && (target.os == Os::Windows || target.os
                == Os::Linux)) && !(target.arch == Arch::Arm64 && target.os == Os::Macos),
        },
        text::has_prefix(text::lower_text(name), "cuda"@) ==> match package_for(
            Some(name),
            target,
            current,
        ) {
            Ok(p) => p == SdPackage::WindowsX64Cuda12 && target == (Target {
                os: Os::Windows,
                arch: Arch::X64,
            }),
            Err(_) => target != (Target { os: Os::Windows, arch: Arch::X64 }),
        },
        text::has_prefix(text::lower_text(name), "vulkan"@) ==> match package_for(
            Some(name),
            target,
            current,
        ) {
            Ok(p) => (p == SdPackage::WindowsX64Vulkan && target == (Target {
                os: Os::Windows,
                arch: Arch::X64,
            })) || (p == SdPackage::LinuxX64Vulkan && target == (Target {
                os: Os::Linux,
                arch: Arch::X64,
            })),
            Err(_) => !(target.arch == Arch::X64 && (target.os == Os::Windows || target.os
                == Os::Linux)),
        },
{
    reveal_strlit("auto");
    reveal_strlit("cpu");
    reveal_strlit("cuda");
    reveal_strlit("vulkan");
    let low = text::lower_text(name);
    assert("auto"@[0] == 'a' && "cpu"@[0] == 'c' && "cuda"@[0] == 'c' && "vulkan"@[0] == 'v');
    assert("cpu"@[1] == 'p' && "cuda"@[1] == 'u');
    if text::has_prefix(low, "cuda"@) {
        assert(low.take(4)[0] == 'c' && low.take(4)[1] == 'u');
        assert(low != "auto"@ && low != "cpu"@);
    }
    if text::has_prefix(low, "vulkan"@) {
        assert(low.take(6)[0] == 'v');
        assert(low != "auto"@ && low != "cpu"@);
        if text::has_prefix(low, "cuda"@) {
            assert(low.take(4)[0] == 'c');
        }
    }
    assert("cpu"@ != "auto"@);
}

/// A list of devices has one line for each device that is there, in order: its name, or its number
/// where it has none, a tabulator and what is told of it.
pub proof fn law_device_has_its_line(devices: Seq<Option<GgmlDevice>>, device: GgmlDevice)
    ensures
        device_lines(Seq::empty()) == Seq::<char>::empty(),
        device_lines(devices.push(None)) == device_lines(devices),
        device.name is Some && device.description is Some ==> device_lines(
            devices.push(Some(device)),
        ) == device_lines(devices) + device.name->0@ + "\t"@ + device.description->0@ + "\n"@,
        device.name is None && device.description is Some ==> device_lines(
            devices.push(Some(device)),
        ) == device_lines(devices) + "device"@ + text::decimal(devices.len() as int) + "\t"@
            + device.description->0@ + "\n"@,
        device.name is Some && device.description is None ==> device_lines(
            devices.push(Some(device)),
        ) == device_lines(devices) + device.name->0@ + "\t"@ + "\n"@,
{
    assert(devices.push(None).drop_last() =~= devices);
    assert(devices.push(Some(device)).drop_last() =~= devices);
    let line = device_line(device, devices.len() as int);
    let all = device_lines(devices.push(Some(device)));
    assert(all == device_lines(devices) + line);
    if device.description is Some {
        let told = device.description->0@;
        if device.name is Some {
            assert(all =~= device_lines(devices) + device.name->0@ + "\t"@ + told + "\n"@);
        } else {
            assert(all =~= device_lines(devices) + "device"@ + text::decimal(devices.len() as int)
                + "\t"@ + told + "\n"@);
        }
    } else if device.name is Some {
        assert(all =~= device_lines(devices) + device.name->0@ + "\t"@ + "\n"@);
    }
}

/// A package stands in the store, in the directory of its library and release, under its own name.
pub proof fn law_package_dir(store: Seq<char>, package: Seq<char>)
    requires
        store.len() > 0,
        store.last() != '/',
    ensures
        package_dir(Os::Linux, store, package) == store
            + "/stable-diffusion.cpp/master-769-cc73429/"@ + package,
{
    reveal_strlit("/stable-diffusion.cpp/master-769-cc73429/");
    reveal_strlit("stable-diffusion.cpp");
    reveal_strlit("master-769-cc73429");
    reveal_strlit("/");
    let one = store + "/"@ + "stable-diffusion.cpp"@;
    assert(one.last() == 'p');
    let two = one + "/"@ + "master-769-cc73429"@;
    assert(two.last() == '9');
    assert("/"@ + "stable-diffusion.cpp"@ + "/"@ + "master-769-cc73429"@ + "/"@
        =~= "/stable-diffusion.cpp/master-769-cc73429/"@);
    assert(package_dir(Os::Linux, store, package) =~= store
        + "/stable-diffusion.cpp/master-769-cc73429/"@ + package);
}

} // verus!
