//! What the engine knows of a graphics adapter, and the order in which adapters are preferred.

use crate::text::{comes_before, text_precedes};
use vstd::prelude::*;

verus! {

/// What kind of device an adapter is.
#[derive(Clone, Copy, Debug, PartialEq, Eq, Structural)]
pub enum DeviceType {
    Other,
    IntegratedGpu,
    DiscreteGpu,
    VirtualGpu,
    Cpu,
}

/// The graphics API through which an adapter is reached.
#[derive(Clone, Copy, Debug, PartialEq, Eq, Structural)]
pub enum Backend {
    Noop,
    Vulkan,
    Metal,
    Dx12,
    Gl,
    BrowserWebGpu,
}

/// Description of one adapter, as the graphics library reports it.
#[derive(Debug)]
pub struct AdapterInfo {
    pub name: String,
    pub vendor: u32,
    pub device: u32,
    pub device_type: DeviceType,
    pub backend: Backend,
}

impl Clone for AdapterInfo {
    fn clone(&self) -> (copy: Self)
        ensures
            copy == *self,
    {
        AdapterInfo {
            name: self.name.clone(),
            vendor: self.vendor,
            device: self.device,
            device_type: self.device_type,
            backend: self.backend,
        }
    }
}

/// Preference among device types; lower is better.
pub open spec fn type_rank(t: DeviceType) -> u8 {
    match t {
        DeviceType::DiscreteGpu => 0,
        DeviceType::VirtualGpu => 1,
        DeviceType::IntegratedGpu => 2,
        DeviceType::Other => 3,
        DeviceType::Cpu => 4,
    }
}

/// Preference among backends; lower is better.
pub open spec fn api_rank(b: Backend) -> u8 {
    match b {
        Backend::Metal => 0,
        Backend::Vulkan => 1,
        Backend::Dx12 => 2,
        Backend::Gl => 3,
        Backend::BrowserWebGpu => 4,
        Backend::Noop => 5,
    }
}

/// Rank for a device type. Lower = better.
pub fn device_type_rank(t: DeviceType) -> (rank: u8)
    ensures
        rank == type_rank(t),
{
    match t {
        DeviceType::DiscreteGpu => 0,
        DeviceType::VirtualGpu => 1,
        DeviceType::IntegratedGpu => 2,
        DeviceType::Other => 3,
        DeviceType::Cpu => 4,
    }
}

/// Rank for a backend when the same physical GPU is exposed across multiple backends.
/// Lower = preferred: native APIs come first.
pub fn backend_rank(b: Backend) -> (rank: u8)
    ensures
        rank == api_rank(b),
{
    match b {
        Backend::Metal => 0,
        Backend::Vulkan => 1,
        Backend::Dx12 => 2,
        Backend::Gl => 3,
        Backend::BrowserWebGpu => 4,
        Backend::Noop => 5,
    }
}

/// Adapter `a` is preferred to adapter `b`: by device type, then by backend, then by name.
pub open spec fn preferred(a: AdapterInfo, b: AdapterInfo) -> bool {
    if a.device_type != b.device_type {
        type_rank(a.device_type) < type_rank(b.device_type)
    } else if a.backend != b.backend {
        api_rank(a.backend) < api_rank(b.backend)
    } else {
        text_precedes(a.name@, b.name@)
    }
}

/// Two adapters are the same physical GPU: vendor, device and name agree.
pub open spec fn same_gpu(a: AdapterInfo, b: AdapterInfo) -> bool {
    a.vendor == b.vendor && a.device == b.device && a.name@ == b.name@
}

/// Whether `a` is preferred to `b`.
pub(crate) fn is_preferred(a: &AdapterInfo, b: &AdapterInfo) -> (better: bool)
    ensures
        better == preferred(*a, *b),
{
    let type_a: u8 = device_type_rank(a.device_type);
    let type_b: u8 = device_type_rank(b.device_type);
    let api_a: u8 = backend_rank(a.backend);
    let api_b: u8 = backend_rank(b.backend);
    if type_a != type_b {
        type_a < type_b
    } else if api_a != api_b {
        api_a < api_b
    } else {
        comes_before(a.name.as_str(), b.name.as_str())
    }
}

/// Whether `a` and `b` are the same physical GPU.
pub(crate) fn is_same_gpu(a: &AdapterInfo, b: &AdapterInfo) -> (same: bool)
    ensures
        same == same_gpu(*a, *b),
{
    a.vendor == b.vendor && a.device == b.device && a.name == b.name
}

/// What `device_type_rank` returns: discrete GPUs come first, then virtual ones, integrated ones,
/// other devices, and software renderers last.
pub proof fn law_ranks_of_device_types(t: DeviceType, rank: u8)
    requires
        call_ensures(device_type_rank, (t,), rank),
    ensures
        t is DiscreteGpu <==> rank == 0,
        t is VirtualGpu <==> rank == 1,
        t is IntegratedGpu <==> rank == 2,
        t is Other <==> rank == 3,
        t is Cpu <==> rank == 4,
        rank == type_rank(t),
{
}

/// What `backend_rank` returns: Metal comes first, then Vulkan, DX12, GL, the browser, and no
/// backend at all last.
pub proof fn law_ranks_of_backends(b: Backend, rank: u8)
    requires
        call_ensures(backend_rank, (b,), rank),
    ensures
        b is Metal <==> rank == 0,
        b is Vulkan <==> rank == 1,
        b is Dx12 <==> rank == 2,
        b is Gl <==> rank == 3,
        b is BrowserWebGpu <==> rank == 4,
        b is Noop <==> rank == 5,
        rank == api_rank(b),
{
}

/// Adapters are the same physical GPU exactly if vendor, device and name agree; device type and
/// backend make no difference.
pub proof fn law_what_makes_the_same_gpu(a: AdapterInfo, b: AdapterInfo)
    ensures
        same_gpu(a, b) ==> a.vendor == b.vendor && a.device == b.device && a.name@ == b.name@,
        same_gpu(a, AdapterInfo { device_type: b.device_type, backend: b.backend, ..a }),
        a.vendor == b.vendor && a.device == b.device && a.name@ == b.name@ ==> same_gpu(a, b),
{
}

/// A clone is the same description.
pub proof fn law_clone_is_the_same(info: AdapterInfo, copy: AdapterInfo)
    requires
        call_ensures(AdapterInfo::clone, (&info,), copy),
    ensures
        copy == info,
{
}

} // verus!
