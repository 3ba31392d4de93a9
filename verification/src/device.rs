//! The devices that models run on.
use vstd::prelude::*;
use vstd::string::*;

use crate::number;
use crate::text;

verus! {

/// A device that tensors can live on.
#[derive(Clone, Copy, Debug, PartialEq, Eq, Structural)]
pub enum Device {
    Cpu,
    Cuda(usize),
    Mps,
    Vulkan,
}

/// Why a text names no device.
#[derive(Debug)]
pub enum DeviceError {
    /// The text has none of the known forms.
    Unsupported,
    /// What stands behind `cuda:` is no index; holds the reason.
    InvalidIndex(String),
}

/// What a text means where a device is asked for; `None` is no device at all, and the inner
/// `None` a CUDA device without a valid index.
pub open spec fn device_named(name: Seq<char>) -> Option<Option<Device>> {
    let low = text::lower_text(name);
    if low == "cpu"@ {
        Some(Some(Device::Cpu))
    } else if low == "cuda"@ {
        Some(Some(Device::Cuda(0)))
    } else if low == "mps"@ {
        Some(Some(Device::Mps))
    } else if low == "vulkan"@ {
        Some(Some(Device::Vulkan))
    } else if text::has_prefix(low, "cuda:"@) {
        match number::usize_literal(low.skip("cuda:"@.len() as int)) {
            Some(n) => Some(Some(Device::Cuda(n as usize))),
            None => Some(None),
        }
    } else {
        None
    }
}

impl DeviceError {
    /// The message of the error.
    pub fn message(&self) -> (r: &'static str)
        ensures
            r@ == (match self {
                DeviceError::Unsupported => "device must be cpu, cuda, cuda:N, mps, or vulkan"@,
                DeviceError::InvalidIndex(_) => "invalid CUDA device index"@,
            }),
    {
        match self {
            DeviceError::Unsupported => "device must be cpu, cuda, cuda:N, mps, or vulkan",
            DeviceError::InvalidIndex(_) => "invalid CUDA device index",
        }
    }
}

/// The device that a text names, in any letter case.
pub fn parse_device(value: &str) -> (r: Result<Device, DeviceError>)
    ensures
        match r {
            Ok(device) => device_named(value@) == Some(Some(device)),
            Err(DeviceError::Unsupported) => device_named(value@) is None,
            Err(DeviceError::InvalidIndex(reason)) => {
                &&& device_named(value@) == Some(None::<Device>)
                &&& reason@ == number::usize_refusal(
                    text::lower_text(value@).skip("cuda:"@.len() as int),
                )
            },
        },
{
    let low: String = text::to_ascii_lowercase(value);
    let name: &str = low.as_str();
    if text::same_text(name, "cpu") {
        Ok(Device::Cpu)
    } else if text::same_text(name, "cuda") {
        Ok(Device::Cuda(0))
    } else if text::same_text(name, "mps") {
        Ok(Device::Mps)
    } else if text::same_text(name, "vulkan") {
        Ok(Device::Vulkan)
    } else {
        match text::strip_prefix(name, "cuda:") {
            None => Err(DeviceError::Unsupported),
            Some(index) => match number::parse_usize(index.as_str()) {
                Ok(n) => Ok(Device::Cuda(n)),
                Err(reason) => Err(DeviceError::InvalidIndex(reason)),
            },
        }
    }
}

/// The search path with `path` in front, where it has to change: on Windows, and where `path` is
/// not on it yet.
pub fn prepend_dll_search_path(
    windows: bool,
    listed: bool,
    current: &Vec<String>,
    path: &str,
) -> (r: Option<Vec<String>>)
    ensures
        match r {
            None => !windows || listed,
            Some(paths) => {
                &&& windows
                &&& !listed
                &&& text::views(paths@) == seq![path@] + text::views(current@)
            },
        },
{
    if !windows || listed {
        return None;
    }
    let mut paths: Vec<String> = Vec::new();
    paths.push(path.to_owned());
    let mut i: usize = 0;
    while i < current.len()
        invariant
            i <= current@.len(),
            paths@.len() == i + 1,
            paths@[0]@ == path@,
            forall|k: int| 0 <= k < i ==> #[trigger] paths@[k + 1]@ == current@[k]@,
        decreases current@.len() - i,
    {
        paths.push(current[i].clone());
        i = i + 1;
    }
    assert(text::views(paths@) =~= seq![path@] + text::views(current@)) by {
        assert forall|k: int| 0 <= k < paths@.len() implies #[trigger] paths@[k]@ == (seq![path@]
            + text::views(current@))[k] by {
            if k > 0 {
                assert(paths@[(k - 1) + 1]@ == current@[k - 1]@);
            }
        }
    }
    Some(paths)
}

/// A device is named in any letter case; `cuda:` and a number name the CUDA device with that
/// number, and `cuda` alone the first.
pub proof fn law_device_names(name: Seq<char>, other: Seq<char>, n: usize)
    ensures
        text::lower_text(name) == text::lower_text(other) ==> device_named(name) == device_named(
            other,
        ),
        text::lower_text(name) == "cpu"@ ==> device_named(name) == Some(Some(Device::Cpu)),
        text::lower_text(name) == "cuda"@ ==> device_named(name) == Some(Some(Device::Cuda(0))),
        text::lower_text(name) == "mps"@ ==> device_named(name) == Some(Some(Device::Mps)),
        text::lower_text(name) == "vulkan"@ ==> device_named(name) == Some(Some(Device::Vulkan)),
        text::lower_text(name) == "cuda:"@ + text::decimal(n as int) ==> device_named(name) == Some(
            Some(Device::Cuda(n)),
        ),
{
    reveal_strlit("cpu");
    reveal_strlit("cuda");
    reveal_strlit("mps");
    reveal_strlit("vulkan");
    reveal_strlit("cuda:");
    assert("cpu"@[0] == 'c' && "mps"@[0] == 'm' && "cpu"@.len() == 3 && "mps"@.len() == 3);
    assert("cpu"@ != "mps"@);
    let low = text::lower_text(name);
    let digits = text::decimal(n as int);
    if low == "cuda:"@ + digits {
        number::law_decimal_reads_back(n as int);
        assert(low.take(5) =~= "cuda:"@);
        assert(low.skip(5) =~= digits);
        assert(low[0] == 'c' && low[4] == ':');
        assert("vulkan"@[0] == 'v');
        assert(low.len() >= 5);
    }
}

} // verus!
