//! Choices made while the device is set up: queue families, the physical
//! device, the swapchain's format, extent and present mode, memory types
//! and layout transitions.
use vstd::prelude::*;
use crate::compute::Access;
use crate::utils::list_without_element;
use crate::utils::list_without_elements;
use crate::utils::differs_from;
use crate::utils::none_of;
use crate::utils::to_i32;
use crate::utils::to_u32;

verus! {

/// The queue family chosen for each purpose.
#[derive(Clone, Copy, Debug, PartialEq, Eq, Structural)]
pub struct QueueFamilyIndices {
    pub graphics: u32,
    pub compute: u32,
    pub present: u32,
    pub transfer: u32,
}

/// What a queue family can do.
#[derive(Clone, Copy, Debug, PartialEq, Eq, Structural)]
pub struct QueueFamilyData {
    pub graphics: bool,
    pub compute: bool,
    pub present: bool,
    pub transfer: bool,
}

/// A purpose a queue family is chosen for.
#[derive(Clone, Copy, Debug, PartialEq, Eq, Structural)]
pub enum Purpose {
    Graphics,
    Compute,
    Present,
    Transfer,
}

impl QueueFamilyData {
    pub open spec fn serves(self, purpose: Purpose) -> bool {
        match purpose {
            Purpose::Graphics => self.graphics,
            Purpose::Compute => self.compute,
            Purpose::Present => self.present,
            Purpose::Transfer => self.transfer,
        }
    }
}

/// Some family serves the purpose.
pub open spec fn some_serves(data: Seq<QueueFamilyData>, purpose: Purpose) -> bool {
    exists|i: int| 0 <= i < data.len() && (#[trigger] data[i]).serves(purpose)
}

/// The indices, in increasing order, of the first `n` families that serve
/// the purpose.
pub open spec fn serving(data: Seq<QueueFamilyData>, purpose: Purpose, n: int) -> Seq<u32>
    decreases n,
{
    if n <= 0 {
        Seq::empty()
    } else if data[n - 1].serves(purpose) {
        serving(data, purpose, n - 1).push((n - 1) as u32)
    } else {
        serving(data, purpose, n - 1)
    }
}

/// What `serving` lists: exactly the indices below `n` of families that
/// serve the purpose, and none if none does.
pub proof fn lemma_serving(data: Seq<QueueFamilyData>, purpose: Purpose, n: int)
    requires
        0 <= n <= data.len() <= u32::MAX,
    ensures
        forall|k: int|
            0 <= k < serving(data, purpose, n).len() ==> 0 <= (#[trigger] serving(data, purpose, n)[k])
                < n && data[serving(data, purpose, n)[k] as int].serves(purpose),
        forall|i: int|
            0 <= i < n && (#[trigger] data[i]).serves(purpose) ==> serving(data, purpose, n).contains(
                i as u32,
            ),
    decreases n,
{
    if n > 0 {
        lemma_serving(data, purpose, n - 1);
        let prev = serving(data, purpose, n - 1);
        let cur = serving(data, purpose, n);
        if data[n - 1].serves(purpose) {
            assert(cur[prev.len() as int] == (n - 1) as u32);
            assert forall|i: int| 0 <= i < n && (#[trigger] data[i]).serves(purpose) implies cur.contains(
                i as u32,
            ) by {
                if i < n - 1 {
                    let k = choose|k: int| 0 <= k < prev.len() && prev[k] == i as u32;
                    assert(cur[k] == i as u32);
                }
            }
        }
    }
}

/// Whether the families together serve graphics, present and compute.
pub fn supports_required_queues(data: &[QueueFamilyData]) -> (r: bool)
    ensures
        r == (some_serves(data@, Purpose::Graphics) && some_serves(data@, Purpose::Present)
            && some_serves(data@, Purpose::Compute)),
{
    let mut graphics = false;
    let mut present = false;
    let mut compute = false;
    let mut i: usize = 0;
    while i < data.len()
        invariant
            0 <= i <= data.len(),
            graphics == some_serves(data@.take(i as int), Purpose::Graphics),
            present == some_serves(data@.take(i as int), Purpose::Present),
            compute == some_serves(data@.take(i as int), Purpose::Compute),
        decreases data.len() - i,
    {
        proof {
            lemma_some_serves_step(data@, Purpose::Graphics, i as int);
            lemma_some_serves_step(data@, Purpose::Present, i as int);
            lemma_some_serves_step(data@, Purpose::Compute, i as int);
        }
        let d = data[i];
        graphics = graphics || d.graphics;
        present = present || d.present;
        compute = compute || d.compute;
        i += 1;
    }
    proof {
        assert(data@.take(i as int) =~= data@);
    }
    graphics && present && compute
}

proof fn lemma_some_serves_step(data: Seq<QueueFamilyData>, purpose: Purpose, i: int)
    requires
        0 <= i < data.len(),
    ensures
        some_serves(data.take(i + 1), purpose) <==> some_serves(data.take(i), purpose)
            || data[i].serves(purpose),
{
    let short = data.take(i);
    let long = data.take(i + 1);
    if some_serves(short, purpose) {
        let k = choose|k: int| 0 <= k < short.len() && (#[trigger] short[k]).serves(purpose);
        assert(long[k].serves(purpose));
    }
    if data[i].serves(purpose) {
        assert(long[i].serves(purpose));
    }
    if some_serves(long, purpose) {
        let k = choose|k: int| 0 <= k < long.len() && (#[trigger] long[k]).serves(purpose);
        if k < i {
            assert(short[k].serves(purpose));
        }
    }
}

/// For each purpose, the indices of the families that serve it, in
/// increasing order.
pub fn bools_to_indices(data: &[QueueFamilyData]) -> (r: (Vec<u32>, Vec<u32>, Vec<u32>, Vec<u32>))
    requires
        data.len() <= u32::MAX,
    ensures
        r.0@ == serving(data@, Purpose::Graphics, data.len() as int),
        r.1@ == serving(data@, Purpose::Compute, data.len() as int),
        r.2@ == serving(data@, Purpose::Present, data.len() as int),
        r.3@ == serving(data@, Purpose::Transfer, data.len() as int),
{
    let mut graphics: Vec<u32> = Vec::new();
    let mut compute: Vec<u32> = Vec::new();
    let mut present: Vec<u32> = Vec::new();
    let mut transfer: Vec<u32> = Vec::new();
    let mut i: usize = 0;
    while i < data.len()
        invariant
            data.len() <= u32::MAX,
            0 <= i <= data.len(),
            graphics@ == serving(data@, Purpose::Graphics, i as int),
            compute@ == serving(data@, Purpose::Compute, i as int),
            present@ == serving(data@, Purpose::Present, i as int),
            transfer@ == serving(data@, Purpose::Transfer, i as int),
        decreases data.len() - i,
    {
        let d = data[i];
        let index = to_u32(i);
        if d.graphics {
            graphics.push(index);
        }
        if d.compute {
            compute.push(index);
        }
        if d.present {
            present.push(index);
        }
        if d.transfer {
            transfer.push(index);
        }
        i += 1;
    }
    (graphics, compute, present, transfer)
}

/// The first of `preferred` if there is one, else the first of `all`.
pub open spec fn first_or(preferred: Seq<u32>, all: Seq<u32>) -> u32 {
    if preferred.len() > 0 {
        preferred[0]
    } else {
        all[0]
    }
}

/// The families chosen from the lists of those that serve each purpose:
/// the first graphics family; a compute family other than that, if there
/// is one; a present family other than both, else other than the compute
/// family, else other than the graphics family; a transfer family other
/// than all three. Where no such family exists, the first that serves.
pub open spec fn chosen_families(
    graphics: Seq<u32>,
    compute: Seq<u32>,
    present: Seq<u32>,
    transfer: Seq<u32>,
) -> QueueFamilyIndices {
    let g = graphics[0];
    let c = first_or(compute.filter(differs_from(g)), compute);
    let p = if present.filter(none_of(seq![g, c])).len() > 0 {
        present.filter(none_of(seq![g, c]))[0]
    } else if present.filter(differs_from(c)).len() > 0 {
        present.filter(differs_from(c))[0]
    } else {
        first_or(present.filter(differs_from(g)), present)
    };
    let t = first_or(transfer.filter(none_of(seq![g, c, p])), transfer);
    QueueFamilyIndices { graphics: g, compute: c, present: p, transfer: t }
}

fn pick(preferred: &Vec<u32>, all: &Vec<u32>) -> (r: u32)
    requires
        all.len() > 0,
    ensures
        r == first_or(preferred@, all@),
{
    if preferred.len() > 0 {
        preferred[0]
    } else {
        all[0]
    }
}

fn pair(a: u32, b: u32) -> (r: Vec<u32>)
    ensures
        r@ == seq![a, b],
{
    let mut r: Vec<u32> = Vec::new();
    r.push(a);
    r.push(b);
    proof {
        assert(r@ =~= seq![a, b]);
    }
    r
}

/// Chooses a queue family for each purpose, separate families where the
/// device has them.
pub fn get_queue_family_indices(data: &[QueueFamilyData]) -> (r: QueueFamilyIndices)
    requires
        data.len() <= u32::MAX,
        some_serves(data@, Purpose::Graphics),
        some_serves(data@, Purpose::Compute),
        some_serves(data@, Purpose::Present),
        some_serves(data@, Purpose::Transfer),
    ensures
        r == chosen_families(
            serving(data@, Purpose::Graphics, data.len() as int),
            serving(data@, Purpose::Compute, data.len() as int),
            serving(data@, Purpose::Present, data.len() as int),
            serving(data@, Purpose::Transfer, data.len() as int),
        ),
        r.graphics < data.len() && data[r.graphics as int].graphics,
        r.compute < data.len() && data[r.compute as int].compute,
        r.present < data.len() && data[r.present as int].present,
        r.transfer < data.len() && data[r.transfer as int].transfer,
{
    let (graphics, compute, present, transfer) = bools_to_indices(data);
    proof {
        let n = data.len() as int;
        lemma_serving(data@, Purpose::Graphics, n);
        lemma_serving(data@, Purpose::Compute, n);
        lemma_serving(data@, Purpose::Present, n);
        lemma_serving(data@, Purpose::Transfer, n);
        assert(graphics.len() > 0 && compute.len() > 0 && present.len() > 0 && transfer.len() > 0);
    }
    let g = graphics[0];
    let sep_compute = list_without_element(&compute, g);
    let c = pick(&sep_compute, &compute);
    let gc = pair(g, c);
    let sep_present = list_without_elements(&present, &gc);
    let p = if sep_present.len() > 0 {
        sep_present[0]
    } else {
        let sep_present = list_without_element(&present, c);
        if sep_present.len() > 0 {
            sep_present[0]
        } else {
            let sep_present = list_without_element(&present, g);
            pick(&sep_present, &present)
        }
    };
    let mut gcp = pair(g, c);
    gcp.push(p);
    proof {
        assert(gcp@ =~= seq![g, c, p]);
    }
    let sep_transfer = list_without_elements(&transfer, &gcp);
    let t = pick(&sep_transfer, &transfer);
    proof {
        lemma_filtered_first(compute@, differs_from(g));
        lemma_filtered_first(present@, none_of(seq![g, c]));
        lemma_filtered_first(present@, differs_from(c));
        lemma_filtered_first(present@, differs_from(g));
        lemma_filtered_first(transfer@, none_of(seq![g, c, p]));
    }
    QueueFamilyIndices { graphics: g, compute: c, present: p, transfer: t }
}

/// Whatever a filter keeps is an element of the list and passes the test.
proof fn lemma_filter_keeps_elements(s: Seq<u32>, pred: spec_fn(u32) -> bool)
    ensures
        forall|i: int|
            0 <= i < s.filter(pred).len() ==> s.contains(#[trigger] s.filter(pred)[i]) && pred(
                s.filter(pred)[i],
            ),
    decreases s.len(),
{
    reveal(Seq::filter);
    if s.len() > 0 {
        let head = s.drop_last();
        lemma_filter_keeps_elements(head, pred);
        let out = s.filter(pred);
        assert forall|i: int| 0 <= i < out.len() implies s.contains(#[trigger] out[i]) && pred(
            out[i],
        ) by {
            if i < head.filter(pred).len() {
                let k = choose|k: int| 0 <= k < head.len() && head[k] == head.filter(pred)[i];
                assert(s[k] == out[i]);
            } else {
                assert(s[s.len() - 1] == out[i]);
            }
        }
    }
}

/// The first element of a filtered list is an element of the list.
proof fn lemma_filtered_first(s: Seq<u32>, pred: spec_fn(u32) -> bool)
    ensures
        s.filter(pred).len() > 0 ==> s.contains(s.filter(pred)[0]) && pred(s.filter(pred)[0]),
{
    lemma_filter_keeps_elements(s, pred);
}

/// The kind of a physical device.
#[derive(Clone, Copy, Debug, PartialEq, Eq, Structural)]
pub enum DeviceType {
    DiscreteGpu,
    IntegratedGpu,
    VirtualGpu,
    Cpu,
    Other,
}

/// How much a kind of device is wanted; less is better.
pub open spec fn device_priority(type_: DeviceType) -> int {
    match type_ {
        DeviceType::DiscreteGpu => 1,
        DeviceType::IntegratedGpu => 2,
        DeviceType::VirtualGpu => 3,
        DeviceType::Cpu => 4,
        DeviceType::Other => 5,
    }
}

pub fn device_type_to_priority(type_: DeviceType) -> (r: i32)
    ensures
        r == device_priority(type_),
{
    match type_ {
        DeviceType::DiscreteGpu => 1,
        DeviceType::IntegratedGpu => 2,
        DeviceType::VirtualGpu => 3,
        DeviceType::Cpu => 4,
        DeviceType::Other => 5,
    }
}

/// `best` is the first position of `ranks` that holds its least value.
pub open spec fn first_least(ranks: Seq<int>, best: int) -> bool {
    &&& 0 <= best < ranks.len()
    &&& forall|j: int| 0 <= j < ranks.len() ==> ranks[best] <= #[trigger] ranks[j]
    &&& forall|j: int| 0 <= j < best ==> ranks[best] < #[trigger] ranks[j]
}

/// The position of the most wanted of the suitable devices; among equally
/// wanted ones, the first.
pub fn pick_phys_device(types: &[DeviceType]) -> (best: usize)
    requires
        types.len() > 0,
    ensures
        first_least(types@.map_values(|t: DeviceType| device_priority(t)), best as int),
{
    let ghost ranks = types@.map_values(|t: DeviceType| device_priority(t));
    let mut best: usize = 0;
    let mut i: usize = 1;
    while i < types.len()
        invariant
            1 <= i <= types.len(),
            ranks == types@.map_values(|t: DeviceType| device_priority(t)),
            0 <= best < i,
            forall|j: int| 0 <= j < i ==> ranks[best as int] <= #[trigger] ranks[j],
            forall|j: int| 0 <= j < best ==> ranks[best as int] < #[trigger] ranks[j],
        decreases types.len() - i,
    {
        if device_type_to_priority(types[i]) < device_type_to_priority(types[best]) {
            best = i;
        }
        i += 1;
    }
    best
}

/// A way of handing images to the screen.
#[derive(Clone, Copy, Debug, PartialEq, Eq, Structural)]
pub enum PresentMode {
    Immediate,
    FifoRelaxed,
    Mailbox,
    Fifo,
    Other,
}

/// How much a present mode is wanted; less is better.
pub open spec fn present_priority(mode: PresentMode) -> int {
    match mode {
        PresentMode::Immediate => 1,
        PresentMode::FifoRelaxed => 2,
        PresentMode::Mailbox => 3,
        PresentMode::Fifo => 4,
        PresentMode::Other => 5,
    }
}

pub fn present_mode_to_priority(mode: PresentMode) -> (r: u32)
    ensures
        r == present_priority(mode),
{
    match mode {
        PresentMode::Immediate => 1,
        PresentMode::FifoRelaxed => 2,
        PresentMode::Mailbox => 3,
        PresentMode::Fifo => 4,
        PresentMode::Other => 5,
    }
}

/// The position of the most wanted of the supported present modes; among
/// equally wanted ones, the first.
pub fn choose_swapchain_present_mode(modes: &[PresentMode]) -> (best: usize)
    requires
        modes.len() > 0,
    ensures
        first_least(modes@.map_values(|m: PresentMode| present_priority(m)), best as int),
{
    let ghost ranks = modes@.map_values(|m: PresentMode| present_priority(m));
    let mut best: usize = 0;
    let mut i: usize = 1;
    while i < modes.len()
        invariant
            1 <= i <= modes.len(),
            ranks == modes@.map_values(|m: PresentMode| present_priority(m)),
            0 <= best < i,
            forall|j: int| 0 <= j < i ==> ranks[best as int] <= #[trigger] ranks[j],
            forall|j: int| 0 <= j < best ==> ranks[best as int] < #[trigger] ranks[j],
        decreases modes.len() - i,
    {
        if present_mode_to_priority(modes[i]) < present_mode_to_priority(modes[best]) {
            best = i;
        }
        i += 1;
    }
    best
}

/// The code of the 8-bit BGRA sRGB format.
pub const FORMAT_B8G8R8A8_SRGB: i32 = 50;

/// The code of the non-linear sRGB color space.
pub const COLOR_SPACE_SRGB_NONLINEAR: i32 = 0;

/// A surface format, by the codes of its pixel format and color space.
#[derive(Clone, Copy, Debug, PartialEq, Eq, Structural)]
pub struct SurfaceFormat {
    pub format: i32,
    pub color_space: i32,
}

impl SurfaceFormat {
    /// The format the renderer likes best.
    pub open spec fn preferred(self) -> bool {
        self.format == FORMAT_B8G8R8A8_SRGB && self.color_space == COLOR_SPACE_SRGB_NONLINEAR
    }
}

/// The position of the first preferred format, or 0 if none is preferred.
pub fn choose_swapchain_format(formats: &[SurfaceFormat]) -> (r: usize)
    requires
        formats.len() > 0,
    ensures
        r < formats.len(),
        forall|j: int| 0 <= j < r ==> !(#[trigger] formats[j]).preferred(),
        formats[r as int].preferred() || (r == 0 && forall|j: int|
            0 <= j < formats.len() ==> !(#[trigger] formats[j]).preferred()),
{
    let mut i: usize = 0;
    while i < formats.len()
        invariant
            0 <= i <= formats.len(),
            forall|j: int| 0 <= j < i ==> !(#[trigger] formats[j]).preferred(),
        decreases formats.len() - i,
    {
        let f = formats[i];
        if f.format == FORMAT_B8G8R8A8_SRGB && f.color_space == COLOR_SPACE_SRGB_NONLINEAR {
            return i;
        }
        i += 1;
    }
    0
}

/// A width and a height in pixels.
#[derive(Clone, Copy, Debug, PartialEq, Eq, Structural)]
pub struct Extent2D {
    pub width: u32,
    pub height: u32,
}

/// What a surface allows for the extent of a swapchain.
#[derive(Clone, Copy, Debug, PartialEq, Eq, Structural)]
pub struct SurfaceCapabilities {
    pub current_extent: Extent2D,
    pub min_image_extent: Extent2D,
    pub max_image_extent: Extent2D,
}

/// `v`, moved into the range from `min` to `max`.
pub open spec fn clamped(v: u32, min: u32, max: u32) -> u32 {
    if v < min {
        min
    } else if v > max {
        max
    } else {
        v
    }
}

fn clamp(v: u32, min: u32, max: u32) -> (r: u32)
    ensures
        r == clamped(v, min, max),
{
    if v < min {
        min
    } else if v > max {
        max
    } else {
        v
    }
}

/// The extent of the swapchain: the surface's own extent where it has
/// one, else the window's, moved into the range the surface allows.
pub fn choose_swapchain_extent(
    win_width: u32,
    win_height: u32,
    capabilities: &SurfaceCapabilities,
) -> (r: Extent2D)
    requires
        capabilities.min_image_extent.width <= capabilities.max_image_extent.width,
        capabilities.min_image_extent.height <= capabilities.max_image_extent.height,
    ensures
        capabilities.current_extent.width != u32::MAX ==> r == capabilities.current_extent,
        capabilities.current_extent.width == u32::MAX ==> r == (Extent2D {
            width: clamped(
                win_width,
                capabilities.min_image_extent.width,
                capabilities.max_image_extent.width,
            ),
            height: clamped(
                win_height,
                capabilities.min_image_extent.height,
                capabilities.max_image_extent.height,
            ),
        }),
{
    if capabilities.current_extent.width != u32::MAX {
        return capabilities.current_extent;
    }
    let min = capabilities.min_image_extent;
    let max = capabilities.max_image_extent;
    Extent2D {
        width: clamp(win_width, min.width, max.width),
        height: clamp(win_height, min.height, max.height),
    }
}

/// Memory type `i` with the given property flags is allowed by the mask
/// `req_type` and has all of the properties `req_properties`.
pub open spec fn memory_type_fits(req_type: u32, req_properties: u32, i: int, flags: u32) -> bool {
    req_type & (1u32 << (i as u32)) != 0 && flags & req_properties == req_properties
}

/// The first memory type that the mask allows and that has the required
/// properties.
pub fn find_memory_type(req_type: u32, req_properties: u32, memory_types: &[u32]) -> (r: Option<
    u32,
>)
    requires
        memory_types.len() <= 32,
    ensures
        match r {
            Some(i) => i < memory_types.len() && memory_type_fits(
                req_type,
                req_properties,
                i as int,
                memory_types[i as int],
            ) && forall|j: int|
                0 <= j < i ==> !memory_type_fits(
                    req_type,
                    req_properties,
                    j,
                    #[trigger] memory_types[j],
                ),
            None => forall|j: int|
                0 <= j < memory_types.len() ==> !memory_type_fits(
                    req_type,
                    req_properties,
                    j,
                    #[trigger] memory_types[j],
                ),
        },
{
    let mut i: usize = 0;
    while i < memory_types.len()
        invariant
            memory_types.len() <= 32,
            0 <= i <= memory_types.len(),
            forall|j: int|
                0 <= j < i ==> !memory_type_fits(req_type, req_properties, j, #[trigger] memory_types[j]),
        decreases memory_types.len() - i,
    {
        let bit = 1u32 << (i as u32);
        if req_type & bit != 0 && memory_types[i] & req_properties == req_properties {
            return Some(to_u32(i));
        }
        i += 1;
    }
    None
}

/// The first candidate whose features include all required ones.
pub fn find_supported_format(candidate_features: &[u32], features: u32) -> (r: Option<usize>)
    ensures
        match r {
            Some(i) => i < candidate_features.len() && candidate_features[i as int] & features
                == features && forall|j: int|
                0 <= j < i ==> (#[trigger] candidate_features[j]) & features != features,
            None => forall|j: int|
                0 <= j < candidate_features.len() ==> (#[trigger] candidate_features[j]) & features
                    != features,
        },
{
    let mut i: usize = 0;
    while i < candidate_features.len()
        invariant
            0 <= i <= candidate_features.len(),
            forall|j: int| 0 <= j < i ==> (#[trigger] candidate_features[j]) & features != features,
        decreases candidate_features.len() - i,
    {
        if candidate_features[i] & features == features {
            return Some(i);
        }
        i += 1;
    }
    None
}

/// The layout of an image.
#[derive(Clone, Copy, Debug, PartialEq, Eq, Structural)]
pub enum ImageLayout {
    Undefined,
    General,
    TransferDstOptimal,
    ShaderReadOnlyOptimal,
}

/// A pipeline stage a layout transition waits for or blocks.
#[derive(Clone, Copy, Debug, PartialEq, Eq, Structural)]
pub enum TransitionStage {
    TopOfPipe,
    Transfer,
    FragmentShader,
    ComputeShader,
}

/// The accesses and stages on both sides of a layout transition.
#[derive(Clone, Copy, Debug, PartialEq, Eq, Structural)]
pub struct TransitionFlags {
    pub src_access: Access,
    pub dst_access: Access,
    pub src_stage: TransitionStage,
    pub dst_stage: TransitionStage,
}

/// Whether the renderer ever makes this transition.
pub open spec fn transition_known(old_layout: ImageLayout, new_layout: ImageLayout) -> bool {
    ||| old_layout is Undefined && new_layout is TransferDstOptimal
    ||| old_layout is TransferDstOptimal && new_layout is ShaderReadOnlyOptimal
    ||| old_layout is Undefined && new_layout is General
}

/// The flags of each known transition.
pub open spec fn transition_flags(old_layout: ImageLayout, new_layout: ImageLayout) -> TransitionFlags {
    if old_layout is Undefined && new_layout is TransferDstOptimal {
        TransitionFlags {
            src_access: Access::Nothing,
            dst_access: Access::TransferWrite,
            src_stage: TransitionStage::TopOfPipe,
            dst_stage: TransitionStage::Transfer,
        }
    } else if old_layout is TransferDstOptimal {
        TransitionFlags {
            src_access: Access::TransferWrite,
            dst_access: Access::ShaderRead,
            src_stage: TransitionStage::Transfer,
            dst_stage: TransitionStage::FragmentShader,
        }
    } else {
        TransitionFlags {
            src_access: Access::Nothing,
            dst_access: Access::ShaderRead,
            src_stage: TransitionStage::TopOfPipe,
            dst_stage: TransitionStage::ComputeShader,
        }
    }
}

pub fn image_layout_transition_flags(old_layout: ImageLayout, new_layout: ImageLayout) -> (r:
    TransitionFlags)
    requires
        transition_known(old_layout, new_layout),
    ensures
        r == transition_flags(old_layout, new_layout),
{
    match (old_layout, new_layout) {
        (ImageLayout::Undefined, ImageLayout::TransferDstOptimal) => TransitionFlags {
            src_access: Access::Nothing,
            dst_access: Access::TransferWrite,
            src_stage: TransitionStage::TopOfPipe,
            dst_stage: TransitionStage::Transfer,
        },
        (ImageLayout::TransferDstOptimal, _) => TransitionFlags {
            src_access: Access::TransferWrite,
            dst_access: Access::ShaderRead,
            src_stage: TransitionStage::Transfer,
            dst_stage: TransitionStage::FragmentShader,
        },
        _ => TransitionFlags {
            src_access: Access::Nothing,
            dst_access: Access::ShaderRead,
            src_stage: TransitionStage::TopOfPipe,
            dst_stage: TransitionStage::ComputeShader,
        },
    }
}

/// How the window is shown.
#[derive(Clone, Copy, Debug, PartialEq, Eq, Structural)]
pub enum Resolution {
    Windowed(u32, u32),
    BorderlessFullscreen,
    Fullscreen,
    FullscreenWithRes(u32, u32),
}

/// Where the window's corner goes so that a windowed window sits in the
/// middle of a screen of the given size; nothing for the other modes.
pub fn center_window(res: Resolution, screen_width: u32, screen_height: u32) -> (r: Option<
    (i32, i32),
>)
    ensures
        r == match res {
            Resolution::Windowed(w, h) => Some(
                (
                    ((screen_width % 0x8000_0000) / 2 - (w % 0x8000_0000) / 2) as i32,
                    ((screen_height % 0x8000_0000) / 2 - (h % 0x8000_0000) / 2) as i32,
                ),
            ),
            _ => None,
        },
{
    if let Resolution::Windowed(win_sx, win_sy) = res {
        let scr_hx = to_i32(screen_width) / 2;
        let scr_hy = to_i32(screen_height) / 2;
        let win_hx = to_i32(win_sx) / 2;
        let win_hy = to_i32(win_sy) / 2;
        Some((scr_hx - win_hx, scr_hy - win_hy))
    } else {
        None
    }
}

/// Whether one of the available names is `name`.
pub open spec fn offers(available: Seq<String>, name: Seq<char>) -> bool {
    exists|j: int| 0 <= j < available.len() && (#[trigger] available[j])@ == name
}

fn is_offered(available: &[String], name: &String) -> (r: bool)
    ensures
        r == offers(available@, name@),
{
    let mut j: usize = 0;
    while j < available.len()
        invariant
            0 <= j <= available.len(),
            forall|k: int| 0 <= k < j ==> (#[trigger] available[k])@ != name@,
        decreases available.len() - j,
    {
        if available[j] == *name {
            return true;
        }
        j += 1;
    }
    false
}

/// Whether the device offers every required extension.
pub fn supports_required_extensions(available: &[String], required: &[String]) -> (r: bool)
    ensures
        r == forall|i: int| 0 <= i < required.len() ==> offers(available@, (#[trigger] required[i])@),
{
    let mut i: usize = 0;
    while i < required.len()
        invariant
            0 <= i <= required.len(),
            forall|k: int| 0 <= k < i ==> offers(available@, (#[trigger] required[k])@),
        decreases required.len() - i,
    {
        if !is_offered(available, &required[i]) {
            return false;
        }
        i += 1;
    }
    true
}

/// The number of images to ask for: one more than the surface's minimum,
/// but no more than its maximum where it has one (a maximum of 0 means
/// that it has none).
pub fn swapchain_image_count(min_image_count: u32, max_image_count: u32) -> (r: u32)
    requires
        min_image_count < u32::MAX,
    ensures
        r == if max_image_count != 0 && min_image_count + 1 > max_image_count {
            max_image_count
        } else {
            (min_image_count + 1) as u32
        },
{
    let mut image_count = min_image_count + 1;
    if image_count > max_image_count && max_image_count != 0 {
        image_count = max_image_count;
    }
    image_count
}

/// The queue families that share the swapchain's images: none where one
/// family both draws and presents, else the graphics and the present
/// family.
pub fn swapchain_sharing(indices: &QueueFamilyIndices) -> (r: Vec<u32>)
    ensures
        r@ == if indices.graphics == indices.present {
            Seq::<u32>::empty()
        } else {
            seq![indices.graphics, indices.present]
        },
{
    if indices.graphics == indices.present {
        Vec::new()
    } else {
        pair(indices.graphics, indices.present)
    }
}

} // verus!
