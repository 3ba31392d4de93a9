use flint_ai::device::{parse_device, prepend_dll_search_path, Device, DeviceError};
use flint_ai::ggml::{
    device_list_buffer, device_list_len, ggml_library_path, ggml_list_devices, ggml_load_backends,
    ggml_package, list_devices, normalize_ggml_dir, preload_package_dependencies,
    select_stable_diffusion_package, stable_diffusion_package_dir, GgmlApis, GgmlDevice, SdPackage,
};
use flint_ai::native::{
    join_path, library_path, load_library, native_library, preload_directory, Arch, Os, Target,
};
use flint_ai::program::{choose_mode, ensure_parent_dir, required_path, token_rates, Mode};
use flint_ai::registry::{
    get_in, get_mut_in, next_handle, registry_error, take_in, unknown_handle_error,
};
use flint_ai::tables::{HandleMap, NameMap};
use flint_ai::value::Value;

const LINUX: Target = Target { os: Os::Linux, arch: Arch::X64 };
const WINDOWS: Target = Target { os: Os::Windows, arch: Arch::X64 };
const MAC: Target = Target { os: Os::Macos, arch: Arch::Arm64 };

fn strings(all: &[&str]) -> Vec<String> {
    all.iter().map(|s| s.to_string()).collect()
}

#[test]
fn devices_are_named() {
    assert_eq!(parse_device("CPU").unwrap(), Device::Cpu);
    assert_eq!(parse_device("cuda").unwrap(), Device::Cuda(0));
    assert_eq!(parse_device("Cuda:12").unwrap(), Device::Cuda(12));
    assert_eq!(parse_device("mps").unwrap(), Device::Mps);
    assert_eq!(parse_device("vulkan").unwrap(), Device::Vulkan);
    let refused = parse_device("gpu").unwrap_err();
    assert!(matches!(refused, DeviceError::Unsupported));
    assert_eq!(refused.message(), "device must be cpu, cuda, cuda:N, mps, or vulkan");
    let refused = parse_device("cuda:x").unwrap_err();
    assert_eq!(refused.message(), "invalid CUDA device index");
    assert!(matches!(
        refused,
        DeviceError::InvalidIndex(reason) if reason == "invalid digit found in string"
    ));
    assert!(matches!(
        parse_device("cuda:"),
        Err(DeviceError::InvalidIndex(reason)) if reason == "cannot parse integer from empty string"
    ));
}

#[test]
fn the_search_path_grows_on_windows() {
    let current = strings(&["a", "b"]);
    assert_eq!(prepend_dll_search_path(true, false, &current, "p").unwrap(), ["p", "a", "b"]);
    assert!(prepend_dll_search_path(true, true, &current, "a").is_none());
    assert!(prepend_dll_search_path(false, false, &current, "p").is_none());
}

#[test]
fn libraries_are_named_by_system() {
    assert_eq!(library_path("/opt/lib", "ggml", Os::Linux), "/opt/lib/libggml.so");
    assert_eq!(library_path("/opt/lib/", "ggml", Os::Macos), "/opt/lib/libggml.dylib");
    assert_eq!(library_path("C:\\lib", "ggml", Os::Windows), "C:\\lib\\ggml.dll");
    assert_eq!(library_path("C:/lib/", "ggml", Os::Windows), "C:/lib/ggml.dll");
    assert_eq!(library_path("", "ggml", Os::Other), "libggml.so");
    assert_eq!(join_path(Os::Windows, "C:", "x"), "C:x");
    assert_eq!(join_path(Os::Linux, "C:", "x"), "C:/x");
    assert_eq!(join_path(Os::Linux, "a\\", "x"), "a\\/x");
    assert_eq!(load_library("p", true).unwrap(), "p");
    assert_eq!(load_library("p", false).unwrap_err(), "dynamic library not found: p");
}

#[test]
fn libraries_are_loaded_in_order() {
    assert!(native_library("libggml.so"));
    assert!(native_library("libggml.dylib"));
    assert!(!native_library("libggml.so.1"));
    assert!(!native_library("ggml.dll"));
    assert!(!native_library("libggml.SO"));
    let order = strings(&["b.dll", "a.dll"]);
    let entries = strings(&["x.so", "note.txt", "y.dylib"]);
    assert_eq!(
        preload_directory(Os::Windows, "d", &order, &entries),
        ["d\\b.dll", "d\\a.dll"]
    );
    assert_eq!(
        preload_directory(Os::Linux, "d", &order, &entries),
        ["d/x.so", "d/y.dylib"]
    );
}

#[test]
fn packages_suit_the_target() {
    let current = || Ok(SdPackage::LinuxX64Rocm721);
    let select = |name: Option<&str>, target| select_stable_diffusion_package(name, target, current());
    assert_eq!(select(None, LINUX), Ok(SdPackage::LinuxX64Rocm721));
    assert_eq!(select(Some(""), LINUX), Ok(SdPackage::LinuxX64Rocm721));
    assert_eq!(select(Some("Auto"), LINUX), Ok(SdPackage::LinuxX64Rocm721));
    assert_eq!(select(Some("metal"), LINUX), Ok(SdPackage::LinuxX64Rocm721));
    assert_eq!(select(Some("cpu"), LINUX), Ok(SdPackage::LinuxX64Cpu));
    assert_eq!(select(Some("cpu"), WINDOWS), Ok(SdPackage::WindowsX64Cpu));
    assert_eq!(select(Some("cpu"), MAC), Ok(SdPackage::MacosArm64));
    assert_eq!(select(Some("CUDA12"), WINDOWS), Ok(SdPackage::WindowsX64Cuda12));
    assert_eq!(select(Some("vulkan0"), LINUX), Ok(SdPackage::LinuxX64Vulkan));
    assert_eq!(select(Some("vulkan"), WINDOWS), Ok(SdPackage::WindowsX64Vulkan));
    assert_eq!(
        select(Some("cuda"), LINUX).unwrap_err(),
        "unsupported stable-diffusion.cpp CUDA package for this target"
    );
    assert_eq!(
        select(Some("vulkan"), MAC).unwrap_err(),
        "unsupported stable-diffusion.cpp Vulkan package for this target"
    );
    let arm = Target { os: Os::Linux, arch: Arch::Arm64 };
    assert_eq!(
        select(Some("cpu"), arm).unwrap_err(),
        "unsupported stable-diffusion.cpp CPU package for this target"
    );
    assert_eq!(
        ggml_package("cuda", LINUX, current()).unwrap_err().text(),
        "failed to select ggml package: unsupported stable-diffusion.cpp CUDA package for this \
         target"
    );
    assert!(preload_package_dependencies(SdPackage::WindowsX64Cuda12));
    assert!(!preload_package_dependencies(SdPackage::WindowsX64Cpu));
}

#[test]
fn backends_have_their_directories() {
    assert_eq!(
        stable_diffusion_package_dir(Os::Linux, "/store", "linux-x64-cpu"),
        "/store/stable-diffusion.cpp/master-769-cc73429/linux-x64-cpu"
    );
    assert_eq!(normalize_ggml_dir("/a/b", true, Some("/a")).unwrap(), "/a/b");
    assert_eq!(normalize_ggml_dir("/a/b.so", false, Some("/a")).unwrap(), "/a");
    assert_eq!(
        normalize_ggml_dir("/", false, None).unwrap_err(),
        "/ has no parent directory"
    );
    assert_eq!(ggml_library_path("/a", Os::Linux, true).unwrap(), "/a/libggml.so");
    assert_eq!(
        ggml_library_path("/a", Os::Linux, false).unwrap_err(),
        "ggml library not found: /a/libggml.so"
    );
}

#[test]
fn ggml_devices_are_listed() {
    let device = |name: Option<&str>, description: Option<&str>| {
        Some(GgmlDevice {
            name: name.map(str::to_string),
            description: description.map(str::to_string),
        })
    };
    let devices = vec![device(Some("CPU"), Some("a chip")), None, device(None, None)];
    assert_eq!(list_devices(&devices), "CPU\ta chip\ndevice2\t\n");
    assert_eq!(device_list_buffer(0), None);
    assert_eq!(device_list_buffer(9), Some(10));
    assert_eq!(device_list_len(12, 9), 9);
    assert_eq!(device_list_len(7, 9), 7);
    assert!(matches!(ggml_load_backends(Ok(())), Ok(Value::Bool(true))));
    assert_eq!(
        ggml_load_backends(Err("x".into())).unwrap_err().text(),
        "failed to load ggml backends: x"
    );
    assert!(matches!(ggml_list_devices(Ok("d".into())), Ok(Value::String(s)) if s == "d"));
    assert_eq!(
        ggml_list_devices(Err("x".into())).unwrap_err().text(),
        "failed to list ggml devices: x"
    );
}

#[test]
fn backends_are_loaded_once() {
    let mut apis: GgmlApis<u8> = GgmlApis::new();
    assert!(apis.known("/a").is_none());
    assert_eq!(apis.keep("/a", 1, Err("plugin".into())).unwrap_err(), "plugin");
    assert!(apis.known("/a").is_none());
    apis.keep("/a", 1, Ok(())).unwrap();
    apis.keep("/b", 2, Ok(())).unwrap();
    assert_eq!(apis.known("/a"), Some(&1));
    assert_eq!(apis.known("/b"), Some(&2));
    assert!(apis.known("/c").is_none());
}

#[test]
fn registries_give_back() {
    let mut counter = 1;
    assert_eq!(next_handle(&mut counter), 1);
    assert_eq!(next_handle(&mut counter), 2);
    let mut map: HandleMap<&'static str> = HandleMap::new();
    map.insert(1, "a");
    assert_eq!(*get_in(&map, "llama", "model", 1).unwrap(), "a");
    *get_mut_in(&mut map, "llama", "model", 1).unwrap() = "b";
    assert_eq!(map.get(1), Some(&"b"));
    assert_eq!(
        get_mut_in(&mut map, "llama", "model", 2).unwrap_err().text(),
        "unknown llama model handle 2"
    );
    assert_eq!(take_in(&mut map, "llama", "model", 1).unwrap(), "b");
    assert!(take_in(&mut map, "llama", "model", 1).is_err());
    assert_eq!(unknown_handle_error("a", "b", -3).text(), "unknown a b handle -3");
    assert_eq!(registry_error("llama", "model").text(), "llama model registry is poisoned");
}

#[test]
fn tables_keep_what_they_are_told_to() {
    let mut map: HandleMap<u8> = HandleMap::new();
    for handle in 1..5 {
        map.insert(handle, handle as u8);
    }
    map.retain_in(&vec![2, 4, 9]);
    assert_eq!(map.len(), 2);
    assert!(map.contains(2) && map.contains(4) && !map.contains(1));
    assert_eq!(map.remove(2), Some(2));
    let mut names = NameMap::new();
    names.insert("a", 4);
    names.insert("b", 2);
    names.insert("a", 5);
    assert_eq!(names.get("a"), Some(5));
    names.insert("a", 4);
    names.retain_in(&map);
    assert_eq!((names.get("a"), names.get("b")), (Some(4), None));
    assert_eq!(names.values(), [4]);
    map.clear();
    names.clear();
    assert!(map.len() == 0 && names.get("a").is_none());
}

#[test]
fn programs_check_their_arguments() {
    assert_eq!(choose_mode(true, false).unwrap(), Mode::Llm);
    assert_eq!(choose_mode(false, true).unwrap(), Mode::Lama);
    for both in [true, false] {
        assert_eq!(choose_mode(both, both).unwrap_err(), "choose one mode: --llm or --lama");
    }
    assert_eq!(required_path(Some("p".into()), "--script").unwrap(), "p");
    assert_eq!(required_path(None, "--script").unwrap_err(), "--script is required");
    assert_eq!(ensure_parent_dir(Some("a")), Some("a"));
    assert_eq!(ensure_parent_dir(Some("")), None);
    assert_eq!(ensure_parent_dir(None), None);
}

#[test]
fn rates_are_shown_where_they_are_known() {
    let shown = |tokens, nanos, decoded, decode_nanos| {
        token_rates(tokens, nanos, decoded, decode_nanos)
            .into_iter()
            .map(|rate| (rate.label, rate.tokens, rate.nanos))
            .collect::<Vec<_>>()
    };
    assert_eq!(shown(Some(4), Some(9), None, None), [("tokens/s".to_string(), 4, 9)]);
    assert_eq!(
        shown(Some(4), Some(9), Some(3), Some(8)),
        [("tokens/s total".to_string(), 4, 9), ("tokens/s decode".to_string(), 3, 8)]
    );
    assert_eq!(
        shown(Some(4), Some(9), Some(0), Some(8)),
        [("tokens/s total".to_string(), 4, 9)]
    );
    assert!(shown(Some(0), Some(9), None, None).is_empty());
    assert!(shown(Some(4), Some(0), None, None).is_empty());
    assert!(shown(None, Some(9), Some(3), None).is_empty());
}
