//! Runtime core of a real-time renderer: a handle-indexed, visibility-partitioned
//! object registry, a growable byte-mirror of GPU-resident buffers, and the
//! per-frame synchronization protocol that rotates through the presentation slots.
//!
//! Everything that talks to a device (window creation, instance and device
//! bootstrap, command recording, queue submission) lives outside this library
//! and drives it through the contracts stated here.

use vstd::prelude::*;

mod buffer;
mod frame_sync;
mod model;
mod orchestrator;
mod queues;

pub use buffer::Buffer;
pub use buffer::BufferUsage;
pub use buffer::MemoryClass;
pub use frame_sync::FrameSync;
pub use frame_sync::SlotState;
pub use frame_sync::lemma_recording_means_fence_retired;
pub use model::InvalidHandle;
pub use model::Model;
pub use model::lemma_partition;
pub use model::lemma_index_map_bijection;
pub use model::lemma_visibility_round_trip;
pub use orchestrator::DrawCall;
pub use orchestrator::TeardownStage;
pub use orchestrator::choose_image_count;
pub use orchestrator::draw_call;
pub use orchestrator::draw_plan;
pub use orchestrator::spec_image_count;
pub use orchestrator::teardown_order;
pub use queues::QueueFamilies;
pub use queues::graphics_candidate;
pub use queues::transfer_candidate;
pub use queues::pick_graphics;
pub use queues::pick_transfer;
pub use queues::lemma_pick_graphics_characterization;
pub use queues::lemma_pick_transfer_characterization;
pub use queues::QueueFamilyInfo;

verus! {

/// Size in bytes of the per-frame uniform buffer: two 4x4 matrices of
/// 4-byte scalars (view and projection), column-major, row-packed.
pub const UNIFORM_BYTES: usize = 128;

} // verus!
