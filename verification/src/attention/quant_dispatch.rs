//! Which storage types a device can multiply with, which products may run there,
//! and when one falls back to the host.
use vstd::prelude::*;
use crate::attention::dsv4_load_vindex::{TYPE_F32, TYPE_Q4_K, TYPE_Q6_K};
use crate::text::same_text;

verus! {

/// Formats that a device backend knows.
#[allow(non_camel_case_types)]
#[derive(Clone, Copy, Debug, PartialEq, Eq, Structural)]
pub enum QuantFormat {
    Q4_K,
    Q5_K,
    Q6_K,
    F32,
}

/// The id of the five-bit storage type.
pub const TYPE_Q5_K: u32 = 13;

/// The format of a storage type, where a device has a kernel for it. The
/// five-bit type has none.
pub open spec fn format_of(t: u32) -> Option<QuantFormat> {
    if t == TYPE_Q4_K {
        Some(QuantFormat::Q4_K)
    } else if t == TYPE_Q6_K {
        Some(QuantFormat::Q6_K)
    } else if t == TYPE_F32 {
        Some(QuantFormat::F32)
    } else {
        None
    }
}

/// The format of a storage type, where a device has a kernel for it.
pub fn ggml_type_to_quant_format(t: u32) -> (r: Option<QuantFormat>)
    ensures
        r == format_of(t),
{
    if t == TYPE_Q4_K {
        Some(QuantFormat::Q4_K)
    } else if t == TYPE_Q6_K {
        Some(QuantFormat::Q6_K)
    } else if t == TYPE_F32 {
        Some(QuantFormat::F32)
    } else {
        None
    }
}

/// What a product is tried with first.
#[derive(Clone, Copy, Debug, PartialEq, Eq, Structural)]
pub enum MatvecRoute {
    /// The device, in a format; the host where it declines.
    Device(QuantFormat),
    /// The host.
    Host,
}

/// What a product with a tensor of a type is tried with first: the device where
/// there is one and it knows the type.
pub fn matvec_route(tensor_type: u32, has_backend: bool) -> (r: MatvecRoute)
    ensures
        r == (match format_of(tensor_type) {
            Some(f) => if has_backend {
                MatvecRoute::Device(f)
            } else {
                MatvecRoute::Host
            },
            None => MatvecRoute::Host,
        }),
{
    if !has_backend {
        return MatvecRoute::Host;
    }
    match ggml_type_to_quant_format(tensor_type) {
        Some(f) => MatvecRoute::Device(f),
        None => MatvecRoute::Host,
    }
}

/// Products that can be kept off the device.
#[derive(Clone, Copy, Debug, PartialEq, Eq, Structural)]
pub enum GpuClass {
    /// The projections of a softmax-attention block.
    AttnProj,
    /// The feed-forward parts, routed experts and their router among them.
    Ffn,
    /// The scores of the vocabulary.
    LmHead,
}

/// The name of the switch that keeps a class off the device.
pub open spec fn switch_of(class: GpuClass) -> Seq<char> {
    match class {
        GpuClass::AttnProj => "LARQL_QWEN35_GPU_NO_ATTN_PROJ"@,
        GpuClass::Ffn => "LARQL_QWEN35_GPU_NO_FFN"@,
        GpuClass::LmHead => "LARQL_QWEN35_GPU_NO_LM_HEAD"@,
    }
}

/// The name of the switch that keeps a class off the device.
pub fn gpu_switch(class: GpuClass) -> (name: &'static str)
    ensures
        name@ == switch_of(class),
{
    match class {
        GpuClass::AttnProj => "LARQL_QWEN35_GPU_NO_ATTN_PROJ",
        GpuClass::Ffn => "LARQL_QWEN35_GPU_NO_FFN",
        GpuClass::LmHead => "LARQL_QWEN35_GPU_NO_LM_HEAD",
    }
}

/// A class may run on the device unless its switch is set to one.
pub fn class_on_device(switch: &Option<String>) -> (r: bool)
    ensures
        r == !(switch matches Some(v) && v@ == "1"@),
{
    match switch {
        Some(v) => !same_text(v, "1"),
        None => true,
    }
}

/// Which storage types a device takes: the four-bit type by its number 12, the
/// six-bit type by 14 and plain single precision by 0, and no other.
pub proof fn law_device_formats(t: u32)
    ensures
        format_of(t) == Some(QuantFormat::Q4_K) <==> t == 12,
        format_of(t) == Some(QuantFormat::Q6_K) <==> t == 14,
        format_of(t) == Some(QuantFormat::F32) <==> t == 0,
        format_of(t) != Some(QuantFormat::Q5_K),
        format_of(t) is None <==> t != 0 && t != 12 && t != 14,
{
}

/// Which switch keeps a class of products off the device.
pub proof fn law_switches(class: GpuClass)
    ensures
        class is AttnProj ==> switch_of(class) == "LARQL_QWEN35_GPU_NO_ATTN_PROJ"@,
        class is Ffn ==> switch_of(class) == "LARQL_QWEN35_GPU_NO_FFN"@,
        class is LmHead ==> switch_of(class) == "LARQL_QWEN35_GPU_NO_LM_HEAD"@,
{
}

} // verus!
