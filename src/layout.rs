use vstd::prelude::*;
use crate::HISTOGRAM_BIN_COUNT;

verus! {

/// Size in bytes of the histogram storage buffer: one 4-byte counter per bucket.
pub const HISTOGRAM_BUFFER_SIZE: u64 = HISTOGRAM_BIN_COUNT * 4;

/// Least size in bytes of the parameter uniform: nine 4-byte values.
pub const PARAMETER_BLOCK_MIN_SIZE: u64 = 36;

/// Size in bytes of the averaged-result storage buffer: one 4-byte value.
pub const RESULT_BUFFER_SIZE: u64 = 4;

/// Dimensionality of a sampled texture binding.
#[derive(PartialEq, Eq, Structural, Clone, Copy, Debug)]
pub enum TextureDimension {
    D1,
    D2,
}

/// What a binding slot holds.  Textures are always sampled as float and
/// non-filterable; sizes are minimum binding sizes in bytes; a buffer with a
/// dynamic offset is bound once and indexed per view.
#[derive(PartialEq, Eq, Structural, Clone, Copy, Debug)]
pub enum BindingKind {
    UniformBuffer { has_dynamic_offset: bool, min_size: u64 },
    Texture { dimension: TextureDimension },
    StorageBuffer { read_only: bool, has_dynamic_offset: bool, min_size: u64 },
}

/// One binding of the layout: its slot index and what it holds.
#[derive(PartialEq, Eq, Structural, Clone, Copy, Debug)]
pub struct LayoutEntry {
    pub binding: u32,
    pub kind: BindingKind,
}

/// The binding kinds of the layout shared by both passes, in slot order.
pub open spec fn layout_kinds(parameters_size: u64, curve_size: u64, view_size: u64) -> Seq<
    BindingKind,
> {
    seq![
        BindingKind::UniformBuffer { has_dynamic_offset: false, min_size: parameters_size },
        BindingKind::Texture { dimension: TextureDimension::D2 },
        BindingKind::Texture { dimension: TextureDimension::D2 },
        BindingKind::Texture { dimension: TextureDimension::D1 },
        BindingKind::UniformBuffer { has_dynamic_offset: false, min_size: curve_size },
        BindingKind::StorageBuffer {
            read_only: false,
            has_dynamic_offset: false,
            min_size: HISTOGRAM_BUFFER_SIZE },
        BindingKind::StorageBuffer {
            read_only: false,
            has_dynamic_offset: false,
            min_size: RESULT_BUFFER_SIZE },
        BindingKind::StorageBuffer { read_only: true, has_dynamic_offset: true, min_size: view_size },
    ]
}

/// Numbers the given kinds with consecutive slot indices starting at zero.
pub fn sequential(kinds: &Vec<BindingKind>) -> (r: Vec<LayoutEntry>)
    requires
        kinds@.len() <= u32::MAX,
    ensures
        r@.len() == kinds@.len(),
        forall|i: int|
            0 <= i < r@.len() ==> r@[i] == (LayoutEntry { binding: i as u32, kind: kinds@[i] }),
{
    let mut r: Vec<LayoutEntry> = Vec::new();
    let mut i: usize = 0;
    while i < kinds.len()
        invariant
            i <= kinds@.len() <= u32::MAX,
            r@.len() == i,
            forall|j: int|
                0 <= j < i ==> r@[j] == (LayoutEntry { binding: j as u32, kind: kinds@[j] }),
        decreases kinds@.len() - i,
    {
        r.push(LayoutEntry { binding: i as u32, kind: kinds[i] });
        i = i + 1;
    }
    r
}

/// The binding layout shared by the histogram and average passes: parameter
/// uniform, scene color, metering mask, auxiliary 1-D texture, compensation
/// curve uniform, histogram buffer, result buffer and per-view uniforms, at
/// slots 0 to 7.  Only the per-view uniforms are read-only and dynamically
/// offset.  The three sizes are the minimum sizes of the parameter
/// block, the compensation-curve uniform and one view uniform.
pub fn histogram_layout_entries(parameters_size: u64, curve_size: u64, view_size: u64) -> (r: Vec<
    LayoutEntry,
>)
    requires
        parameters_size >= PARAMETER_BLOCK_MIN_SIZE,
        curve_size > 0,
        view_size > 0,
    ensures
        r@.len() == 8,
        forall|i: int|
            0 <= i < 8 ==> r@[i] == (LayoutEntry {
                binding: i as u32,
                kind: layout_kinds(parameters_size, curve_size, view_size)[i],
            }),
{
    let kinds = vec![
        BindingKind::UniformBuffer { has_dynamic_offset: false, min_size: parameters_size },
        BindingKind::Texture { dimension: TextureDimension::D2 },
        BindingKind::Texture { dimension: TextureDimension::D2 },
        BindingKind::Texture { dimension: TextureDimension::D1 },
        BindingKind::UniformBuffer { has_dynamic_offset: false, min_size: curve_size },
        BindingKind::StorageBuffer {
            read_only: false,
            has_dynamic_offset: false,
            min_size: HISTOGRAM_BUFFER_SIZE },
        BindingKind::StorageBuffer {
            read_only: false,
            has_dynamic_offset: false,
            min_size: RESULT_BUFFER_SIZE },
        BindingKind::StorageBuffer { read_only: true, has_dynamic_offset: true, min_size: view_size },
    ];
    assert(kinds@ =~= layout_kinds(parameters_size, curve_size, view_size));
    sequential(&kinds)
}

} // verus!
