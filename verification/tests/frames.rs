use fae::DrawCall;
use fae::FrameSync;
use fae::Model;
use fae::QueueFamilies;
use fae::QueueFamilyInfo;
use fae::SlotState;
use fae::TeardownStage;
use fae::choose_image_count;
use fae::draw_plan;
use fae::teardown_order;

fn run_tick(fs: &mut FrameSync) {
    fs.acquire();
    fs.wait_and_reset_fence();
    assert!(fs.may_write_buffers());
    fs.submit();
    fs.advance();
}

#[test]
fn five_ticks_over_three_slots_rotate_and_wait_once_per_use() {
    let mut fs = FrameSync::new(3);
    let mut seen: Vec<usize> = Vec::new();
    for _ in 0..5 {
        seen.push(fs.current_slot());
        run_tick(&mut fs);
    }
    assert_eq!(seen.as_slice(), &[0, 1, 2, 0, 1]);
    assert_eq!(fs.tick_count(), 5);
    // each slot's fence was waited on and reset exactly once per use
    assert_eq!(fs.use_count(0), 2);
    assert_eq!(fs.use_count(1), 2);
    assert_eq!(fs.use_count(2), 1);
    for s in 0..3 {
        assert_eq!(fs.fence_wait_count(s), fs.use_count(s));
    }
}

#[test]
fn buffers_are_writable_only_after_the_fence_wait() {
    let mut fs = FrameSync::new(2);
    assert!(!fs.may_write_buffers());
    fs.acquire();
    assert!(!fs.may_write_buffers());
    assert_eq!(fs.slot_state(0), SlotState::Acquiring);
    fs.wait_and_reset_fence();
    assert!(fs.may_write_buffers());
    assert_eq!(fs.slot_state(0), SlotState::Recording);
    fs.submit();
    assert!(!fs.may_write_buffers());
    assert_eq!(fs.slot_state(0), SlotState::Submitted);
    fs.advance();
    assert_eq!(fs.current_slot(), 1);
    assert_eq!(fs.slot_state(1), SlotState::Idle);
}

#[test]
fn a_single_slot_cycles_on_itself() {
    let mut fs = FrameSync::new(1);
    for _ in 0..3 {
        assert_eq!(fs.current_slot(), 0);
        run_tick(&mut fs);
    }
    assert_eq!(fs.tick_count(), 3);
    assert_eq!(fs.use_count(0), 3);
    assert_eq!(fs.fence_wait_count(0), 3);
}

#[test]
fn draw_plan_draws_each_model_once_with_its_visible_count() {
    let mut sphere: Model<u32, u64> = Model::new(vec![1, 2, 3, 4], vec![0, 1, 2]);
    sphere.insert_visibly(7);
    sphere.insert_visibly(8);
    sphere.insert(9);
    let mut cube: Model<u32, u64> = Model::new(vec![5, 6], Vec::new());
    cube.insert(1);
    let models = vec![sphere, cube];

    let plan = draw_plan(&models);
    assert_eq!(plan.len(), 2);
    assert_eq!(
        plan[0],
        DrawCall { model_index: 0, vertex_count: 4, index_count: 3, instance_count: 2 },
    );
    assert_eq!(
        plan[1],
        DrawCall { model_index: 1, vertex_count: 2, index_count: 0, instance_count: 0 },
    );
}

#[test]
fn teardown_runs_in_reverse_construction_order() {
    let order = teardown_order();
    assert_eq!(
        order.as_slice(),
        &[
            TeardownStage::WaitDeviceIdle,
            TeardownStage::DestroyBuffers,
            TeardownStage::DestroyPipeline,
            TeardownStage::DestroyRenderPass,
            TeardownStage::DestroySwapchain,
            TeardownStage::DestroyAllocator,
            TeardownStage::DestroyDevice,
            TeardownStage::DestroySurface,
            TeardownStage::DestroyDebugHooks,
            TeardownStage::DestroyInstance,
        ],
    );
}

#[test]
fn image_count_is_three_clamped_into_the_surface_bounds() {
    assert_eq!(choose_image_count(2, 10), 3);
    assert_eq!(choose_image_count(5, 10), 5);
    assert_eq!(choose_image_count(1, 2), 2);
    assert_eq!(choose_image_count(3, 3), 3);
}

fn family(
    queue_count: u32,
    supports_graphics: bool,
    supports_transfer: bool,
    surface_support: bool,
) -> QueueFamilyInfo {
    QueueFamilyInfo { queue_count, supports_graphics, supports_transfer, surface_support }
}

#[test]
fn queue_selection_prefers_a_dedicated_transfer_family() {
    let families = vec![
        family(4, true, true, true),
        family(2, false, true, false),
    ];
    let picked = QueueFamilies::select(&families);
    assert_eq!(picked.graphics_q_index, Some(0));
    assert_eq!(picked.transfer_q_index, Some(1));
}

#[test]
fn queue_selection_falls_back_to_a_graphics_family_for_transfer() {
    let families = vec![family(4, true, true, true)];
    let picked = QueueFamilies::select(&families);
    assert_eq!(picked.graphics_q_index, Some(0));
    assert_eq!(picked.transfer_q_index, Some(0));
}

#[test]
fn queue_selection_skips_empty_and_unsupported_families() {
    let families = vec![
        family(0, true, true, true),
        family(1, true, false, false),
        family(1, false, true, false),
        family(1, false, true, false),
    ];
    let picked = QueueFamilies::select(&families);
    assert_eq!(picked.graphics_q_index, None);
    // the last dedicated transfer family wins
    assert_eq!(picked.transfer_q_index, Some(3));
}

#[test]
fn queue_selection_reports_nothing_when_no_family_fits() {
    let families: Vec<QueueFamilyInfo> = Vec::new();
    let picked = QueueFamilies::select(&families);
    assert_eq!(picked.graphics_q_index, None);
    assert_eq!(picked.transfer_q_index, None);
}
