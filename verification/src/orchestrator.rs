//! Frame orchestration policies.
//!
//! Each tick the renderer re-records its command buffer from scratch: one
//! instanced draw per registered model, reading the vertex and instance
//! buffers from offset zero and drawing exactly the visible prefix of the
//! instance sequence.  `draw_plan` computes that recording plan from the
//! registries.  `choose_image_count` fixes how many presentation images the
//! swapchain is asked for, and `teardown_order` fixes the one legal order in
//! which the device resources may be destroyed.

use vstd::prelude::*;

use crate::model::Model;

verus! {

/// One instanced draw: which model, how much geometry, and how many
/// instances -- exactly the model's visible prefix.
#[derive(Clone, Copy, PartialEq, Eq, Structural, Debug)]
pub struct DrawCall {
    /// Position of the model in the registry list.
    pub model_index: usize,
    /// Number of vertices of the model's geometry.
    pub vertex_count: usize,
    /// Number of indices of the model's geometry; zero for a non-indexed draw.
    pub index_count: usize,
    /// Number of instances to draw: the model's visible count, so invisible
    /// instances are never read by the GPU.
    pub instance_count: usize,
}

/// The one instanced draw for `model`, standing at `model_index` in the
/// registry list: all of its geometry, and exactly as many instances as are
/// visible.
pub fn draw_call<V, I>(model: &Model<V, I>, model_index: usize) -> (r: DrawCall)
    ensures
        r.model_index == model_index,
        r.vertex_count == model.spec_vertex_data().len(),
        r.index_count == model.spec_index_data().len(),
        r.instance_count == model.spec_first_invisible(),
{
    DrawCall {
        model_index,
        vertex_count: model.vertex_data().len(),
        index_count: model.index_data().len(),
        instance_count: model.first_invisible(),
    }
}

/// The plan for one recording pass: exactly one instanced draw per model, in
/// registry order, each drawing only that model's visible instances.
pub fn draw_plan<V, I>(models: &Vec<Model<V, I>>) -> (r: Vec<DrawCall>)
    ensures
        r@.len() == models@.len(),
        forall|k: int|
            0 <= k < models@.len() ==> {
                &&& (#[trigger] r@[k]).model_index == k
                &&& r@[k].vertex_count == models@[k].spec_vertex_data().len()
                &&& r@[k].index_count == models@[k].spec_index_data().len()
                &&& r@[k].instance_count == models@[k].spec_first_invisible()
            },
{
    let mut r: Vec<DrawCall> = Vec::new();
    let mut k: usize = 0;
    while k < models.len()
        invariant
            k <= models@.len(),
            r@.len() == k,
            forall|j: int|
                0 <= j < k ==> {
                    &&& (#[trigger] r@[j]).model_index == j
                    &&& r@[j].vertex_count == models@[j].spec_vertex_data().len()
                    &&& r@[j].index_count == models@[j].spec_index_data().len()
                    &&& r@[j].instance_count == models@[j].spec_first_invisible()
                },
        decreases models@.len() - k,
    {
        let m = &models[k];
        r.push(draw_call(m, k));
        k = k + 1;
    }
    r
}

/// How many presentation images to ask the swapchain for: three where the
/// surface allows it, clamped into the surface's reported bounds.
pub open spec fn spec_image_count(min_count: u32, max_count: u32) -> u32 {
    let lower = if min_count < 3 {
        3u32
    } else {
        min_count
    };
    if lower < max_count {
        lower
    } else {
        max_count
    }
}

/// Pick the number of swapchain images from the surface's reported bounds:
/// at least three for smooth pipelining, but never below the surface's
/// minimum nor above its maximum.
pub fn choose_image_count(min_count: u32, max_count: u32) -> (r: u32)
    ensures
        r == spec_image_count(min_count, max_count),
{
    let lower = if min_count < 3 {
        3
    } else {
        min_count
    };
    if lower < max_count {
        lower
    } else {
        max_count
    }
}

/// One stage of the teardown routine.
#[derive(Clone, Copy, PartialEq, Eq, Structural, Debug)]
pub enum TeardownStage {
    /// Block until the device has retired all submitted work.
    WaitDeviceIdle,
    /// Destroy the uniform buffer and every model's vertex, index and
    /// instance buffers.
    DestroyBuffers,
    /// Destroy the graphics pipeline and its layouts.
    DestroyPipeline,
    /// Destroy the render pass.
    DestroyRenderPass,
    /// Destroy the swapchain with its images, framebuffers and the per-slot
    /// semaphores and fences.
    DestroySwapchain,
    /// Destroy the memory allocator.
    DestroyAllocator,
    /// Destroy the logical device.
    DestroyDevice,
    /// Destroy the presentation surface.
    DestroySurface,
    /// Destroy the debug hooks.
    DestroyDebugHooks,
    /// Destroy the instance itself, last of all.
    DestroyInstance,
}

/// The one legal teardown order: resources are destroyed strictly in reverse
/// dependency order, after a device-idle wait and before the instance goes.
/// Callers walk this list instead of relying on implicit destructor order.
pub fn teardown_order() -> (r: Vec<TeardownStage>)
    ensures
        r@ =~= seq![
            TeardownStage::WaitDeviceIdle,
            TeardownStage::DestroyBuffers,
            TeardownStage::DestroyPipeline,
            TeardownStage::DestroyRenderPass,
            TeardownStage::DestroySwapchain,
            TeardownStage::DestroyAllocator,
            TeardownStage::DestroyDevice,
            TeardownStage::DestroySurface,
            TeardownStage::DestroyDebugHooks,
            TeardownStage::DestroyInstance,
        ],
{
    let mut r: Vec<TeardownStage> = Vec::new();
    r.push(TeardownStage::WaitDeviceIdle);
    r.push(TeardownStage::DestroyBuffers);
    r.push(TeardownStage::DestroyPipeline);
    r.push(TeardownStage::DestroyRenderPass);
    r.push(TeardownStage::DestroySwapchain);
    r.push(TeardownStage::DestroyAllocator);
    r.push(TeardownStage::DestroyDevice);
    r.push(TeardownStage::DestroySurface);
    r.push(TeardownStage::DestroyDebugHooks);
    r.push(TeardownStage::DestroyInstance);
    r
}

} // verus!
