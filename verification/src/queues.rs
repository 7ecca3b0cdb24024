//! Queue family selection.
//!
//! The device reports one descriptor per queue family; the caller queries them
//! (together with per-family surface support) and hands the plain facts to
//! `QueueFamilies::select`, which applies the selection policy: take a
//! graphics-capable family that can present, and prefer a transfer family
//! that is not also a graphics family.

use vstd::prelude::*;

verus! {

/// The facts about one queue family that the selection policy reads.
#[derive(Clone, Copy, PartialEq, Eq, Structural, Debug)]
pub struct QueueFamilyInfo {
    /// How many queues the family offers.
    pub queue_count: u32,
    /// Whether the family supports graphics work.
    pub supports_graphics: bool,
    /// Whether the family supports transfer work.
    pub supports_transfer: bool,
    /// Whether the family can present to the target surface.
    pub surface_support: bool,
}

/// The chosen queue family indices.
pub struct QueueFamilies {
    pub graphics_q_index: Option<u32>,
    pub transfer_q_index: Option<u32>,
}

/// A family usable for graphics: non-empty, graphics-capable, able to present.
pub open spec fn graphics_candidate(f: QueueFamilyInfo) -> bool {
    f.queue_count > 0 && f.supports_graphics && f.surface_support
}

/// A family usable for transfer: non-empty and transfer-capable.
pub open spec fn transfer_candidate(f: QueueFamilyInfo) -> bool {
    f.queue_count > 0 && f.supports_transfer
}

/// The graphics choice over a prefix of the family list: the last graphics
/// candidate seen so far, if any.
pub open spec fn pick_graphics(fams: Seq<QueueFamilyInfo>) -> Option<u32>
    decreases fams.len(),
{
    if fams.len() == 0 {
        None
    } else if graphics_candidate(fams.last()) {
        Some((fams.len() - 1) as u32)
    } else {
        pick_graphics(fams.drop_last())
    }
}

/// The transfer choice over a prefix of the family list: a later transfer
/// candidate replaces an earlier choice only when the later family is not
/// also a graphics family, so a dedicated transfer family wins when one
/// exists.
pub open spec fn pick_transfer(fams: Seq<QueueFamilyInfo>) -> Option<u32>
    decreases fams.len(),
{
    if fams.len() == 0 {
        None
    } else if transfer_candidate(fams.last()) && (pick_transfer(fams.drop_last()) is None
        || !fams.last().supports_graphics) {
        Some((fams.len() - 1) as u32)
    } else {
        pick_transfer(fams.drop_last())
    }
}

impl QueueFamilies {
    /// Apply the selection policy to the reported families.
    pub fn select(families: &Vec<QueueFamilyInfo>) -> (r: QueueFamilies)
        requires
            families@.len() <= u32::MAX,
        ensures
            r.graphics_q_index == pick_graphics(families@),
            r.transfer_q_index == pick_transfer(families@),
    {
        let mut graphics: Option<u32> = None;
        let mut transfer: Option<u32> = None;
        let mut i: usize = 0;
        while i < families.len()
            invariant
                i <= families@.len(),
                families@.len() <= u32::MAX,
                graphics == pick_graphics(families@.subrange(0, i as int)),
                transfer == pick_transfer(families@.subrange(0, i as int)),
            decreases families@.len() - i,
        {
            let f = families[i];
            proof {
                let pre = families@.subrange(0, i as int + 1);
                assert(pre.drop_last() =~= families@.subrange(0, i as int));
                assert(pre.last() == families@[i as int]);
            }
            if f.queue_count > 0 && f.supports_graphics && f.surface_support {
                graphics = Some(i as u32);
            }
            if f.queue_count > 0 && f.supports_transfer {
                if transfer.is_none() || !f.supports_graphics {
                    transfer = Some(i as u32);
                }
            }
            i = i + 1;
        }
        proof {
            assert(families@.subrange(0, families@.len() as int) =~= families@);
        }
        QueueFamilies { graphics_q_index: graphics, transfer_q_index: transfer }
    }
}

/// What the graphics policy picks: the last graphics candidate when one
/// exists, and nothing exactly when no family qualifies.
pub proof fn lemma_pick_graphics_characterization(fams: Seq<QueueFamilyInfo>)
    requires
        fams.len() <= u32::MAX,
    ensures
        match pick_graphics(fams) {
            Some(i) => (i as int) < fams.len() && graphics_candidate(fams[i as int]) && (forall|
                j: int,
            |
                i < j < fams.len() ==> !graphics_candidate(#[trigger] fams[j])),
            None => forall|j: int| 0 <= j < fams.len() ==> !graphics_candidate(#[trigger] fams[j]),
        },
    decreases fams.len(),
{
    if fams.len() > 0 {
        lemma_pick_graphics_characterization(fams.drop_last());
        assert(forall|j: int|
            0 <= j < fams.len() - 1 ==> #[trigger] fams[j] == fams.drop_last()[j]);
    }
}

/// What the transfer policy picks: a dedicated (non-graphics) transfer family
/// when one exists -- the last of them; otherwise the first transfer family
/// of any kind; and nothing exactly when no family can transfer.
pub proof fn lemma_pick_transfer_characterization(fams: Seq<QueueFamilyInfo>)
    requires
        fams.len() <= u32::MAX,
    ensures
        match pick_transfer(fams) {
            Some(i) => {
                &&& (i as int) < fams.len()
                &&& transfer_candidate(fams[i as int])
                &&& (!fams[i as int].supports_graphics ==> (forall|j: int|
                    i < j < fams.len() ==> !(transfer_candidate(#[trigger] fams[j])
                        && !fams[j].supports_graphics)))
                &&& (fams[i as int].supports_graphics ==> (forall|j: int|
                    0 <= j < fams.len() ==> !(transfer_candidate(#[trigger] fams[j])
                        && !fams[j].supports_graphics)) && (forall|j: int|
                    0 <= j < i ==> !transfer_candidate(#[trigger] fams[j])))
            },
            None => forall|j: int| 0 <= j < fams.len() ==> !transfer_candidate(#[trigger] fams[j]),
        },
    decreases fams.len(),
{
    if fams.len() > 0 {
        lemma_pick_transfer_characterization(fams.drop_last());
        assert(forall|j: int|
            0 <= j < fams.len() - 1 ==> #[trigger] fams[j] == fams.drop_last()[j]);
    }
}

} // verus!
