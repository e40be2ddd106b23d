use dash_viewer::viewer::{
    choose_surface_format, dash_model_arg, dropped_file_action, frame_count_matches,
    is_time_dependent, key_event, radix_pass_buffers, resize_needed, should_request_redraw,
    surface_action, tile_clear_workgroups, CameraKeys, CameraState, DropAction, FormatInfo, FormatKind, KeyInput,
    KeyOutcome, ModelDirArg, PairBuffer, RadixBuffers, SceneType, SurfaceAction, SurfaceStatus,
    ViewState,
};

#[test]
fn scene_type_dynamic() {
    assert!(SceneType::Gaussian4d.is_dynamic());
    assert!(!SceneType::Gaussian3d.is_dynamic());
}

#[test]
fn camera_keys_track_presses() {
    let mut k = CameraKeys::new();
    assert!(k.handle_key(KeyInput::KeyA, true));
    assert!(!k.handle_key(KeyInput::ArrowLeft, true));
    assert!(k.handle_key(KeyInput::KeyW, true));
    assert!(k.handle_key(KeyInput::KeyE, true));
    assert!(k.handle_key(KeyInput::KeyC, true));
    let i = k.inputs();
    assert_eq!((i.yaw, i.pitch, i.roll, i.zoom), (-1, 1, 1, 1));
    assert!(k.handle_key(KeyInput::KeyD, true));
    assert_eq!(k.inputs().yaw, 0);
    assert!(k.handle_key(KeyInput::ArrowLeft, false));
    assert_eq!(k.inputs().yaw, 1);
    assert!(!k.handle_key(KeyInput::Other, true));
    assert!(k.handle_key(KeyInput::KeyQ, true));
    assert!(k.handle_key(KeyInput::KeyS, true));
    assert!(k.handle_key(KeyInput::KeyZ, true));
    let i = k.inputs();
    assert_eq!((i.pitch, i.roll, i.zoom), (0, 0, 0));
}

#[test]
fn repeated_key_event_is_no_change() {
    let mut k = CameraKeys::new();
    for code in [KeyInput::KeyA, KeyInput::ArrowDown, KeyInput::KeyQ] {
        assert!(k.handle_key(code, true));
        let before = k;
        assert!(!k.handle_key(code, true));
        assert_eq!(k, before);
    }
}

#[test]
fn redraw_decisions() {
    assert!(!is_time_dependent(SceneType::Gaussian3d, false));
    assert!(is_time_dependent(SceneType::Gaussian3d, true));
    assert!(is_time_dependent(SceneType::Gaussian4d, false));
    assert!(!should_request_redraw(false, CameraState::Idle, SceneType::Gaussian3d, false));
    assert!(should_request_redraw(true, CameraState::Idle, SceneType::Gaussian3d, false));
    assert!(should_request_redraw(false, CameraState::Active, SceneType::Gaussian3d, false));
    assert!(should_request_redraw(false, CameraState::Idle, SceneType::Gaussian4d, false));
    assert!(should_request_redraw(false, CameraState::Idle, SceneType::Gaussian3d, true));
}

#[test]
fn resize_decisions() {
    assert!(!resize_needed(800, 600, 0, 600));
    assert!(!resize_needed(800, 600, 800, 0));
    assert!(!resize_needed(800, 600, 800, 600));
    assert!(resize_needed(800, 600, 1024, 600));
}

#[test]
fn frame_count_check_truncates_like_u32() {
    assert!(frame_count_matches(41333, 41333));
    assert!(!frame_count_matches(41334, 41333));
    assert!(frame_count_matches((1usize << 32) + 5, 5));
}

fn args(v: &[&str]) -> Vec<String> {
    v.iter().map(|s| s.to_string()).collect()
}

fn given(a: ModelDirArg) -> String {
    match a {
        ModelDirArg::Given(v) => v.into_iter().collect(),
        other => panic!("unexpected {other:?}"),
    }
}

#[test]
fn model_dir_from_arguments() {
    assert_eq!(given(dash_model_arg(&args(&["--dash-model", "/m"]))), "/m");
    assert_eq!(given(dash_model_arg(&args(&["-v", "--dash-model=/x/y", "--dash-model", "/z"]))), "/x/y");
    assert_eq!(dash_model_arg(&args(&["--dash-model"])), ModelDirArg::MissingValue);
    assert_eq!(dash_model_arg(&args(&["--other", "x"])), ModelDirArg::Absent);
    assert_eq!(dash_model_arg(&args(&[])), ModelDirArg::Absent);
    assert_eq!(given(dash_model_arg(&args(&["--dash-model="]))), "");
}

#[test]
fn view_state_lifecycle() {
    let mut v = ViewState::new(0, 720);
    assert_eq!((v.width, v.height), (1, 720));
    assert!(v.scene_dirty && v.needs_passes() && v.wants_redraw() && v.can_draw());
    v.passes_encoded();
    assert!(!v.needs_passes());
    assert!(!v.wants_redraw());
    assert!(!v.resize(1, 720));
    assert!(v.resize(1280, 720));
    assert!(v.scene_dirty);
    v.passes_encoded();
    v.camera_updated(CameraState::Active);
    assert!(v.scene_dirty && v.wants_redraw());
    v.passes_encoded();
    v.camera_updated(CameraState::Idle);
    assert!(!v.wants_redraw());
    v.start_streaming();
    assert!(v.streaming && v.scene_type == SceneType::Gaussian3d);
    v.passes_encoded();
    assert!(v.needs_passes() && v.wants_redraw());
    v.frame_streamed(false);
    assert!(!v.streaming);
    v.replace_scene(SceneType::Gaussian4d);
    v.passes_encoded();
    assert!(v.wants_redraw());
    v.set_occluded(true);
    assert!(!v.can_draw());
    v.set_occluded(false);
    v.set_focused(false);
    assert!(!v.can_draw());
}

#[test]
fn key_event_escape_exits_and_motion_redraws() {
    let mut k = CameraKeys::new();
    assert_eq!(key_event(&mut k, KeyInput::Escape, true), KeyOutcome::Exit);
    assert_eq!(key_event(&mut k, KeyInput::Escape, false), KeyOutcome::Nothing);
    assert_eq!(
        key_event(&mut k, KeyInput::KeyA, true),
        KeyOutcome::Redraw { restart_clock: true }
    );
    assert_eq!(k.inputs().yaw, -1);
    assert_eq!(key_event(&mut k, KeyInput::KeyA, true), KeyOutcome::Nothing);
    assert_eq!(
        key_event(&mut k, KeyInput::KeyA, false),
        KeyOutcome::Redraw { restart_clock: false }
    );
    assert_eq!(k.inputs().yaw, 0);
    assert_eq!(key_event(&mut k, KeyInput::Other, true), KeyOutcome::Nothing);
}

#[test]
fn dropped_files_are_routed() {
    assert_eq!(dropped_file_action(true, None), DropAction::LoadDashModel);
    assert_eq!(dropped_file_action(true, Some("ply")), DropAction::LoadDashModel);
    assert_eq!(dropped_file_action(false, Some("ply")), DropAction::LoadPly);
    assert_eq!(dropped_file_action(false, Some("PLY")), DropAction::Ignore);
    assert_eq!(dropped_file_action(false, Some("splat")), DropAction::Ignore);
    assert_eq!(dropped_file_action(false, None), DropAction::Ignore);
}

#[test]
fn surface_status_actions() {
    assert_eq!(surface_action(SurfaceStatus::Success), SurfaceAction::Draw);
    assert_eq!(surface_action(SurfaceStatus::Suboptimal), SurfaceAction::ReconfigureAndDraw);
    assert_eq!(surface_action(SurfaceStatus::Timeout), SurfaceAction::Skip);
    assert_eq!(surface_action(SurfaceStatus::Occluded), SurfaceAction::Skip);
    assert_eq!(surface_action(SurfaceStatus::Validation), SurfaceAction::Skip);
    assert_eq!(surface_action(SurfaceStatus::Outdated), SurfaceAction::ReconfigureAndSkip);
    assert_eq!(surface_action(SurfaceStatus::Lost), SurfaceAction::Lost);
}

fn fmt(kind: FormatKind, srgb: bool) -> FormatInfo {
    FormatInfo { kind, srgb }
}

#[test]
fn surface_format_preference() {
    let other_srgb = fmt(FormatKind::Other, true);
    let other_linear = fmt(FormatKind::Other, false);
    let bgra = fmt(FormatKind::Bgra8Unorm, false);
    let rgba = fmt(FormatKind::Rgba8Unorm, false);
    assert_eq!(choose_surface_format(&vec![other_srgb, bgra, rgba]), 2);
    assert_eq!(choose_surface_format(&vec![other_srgb, other_linear, bgra]), 2);
    assert_eq!(choose_surface_format(&vec![other_srgb, other_linear, other_srgb]), 1);
    assert_eq!(choose_surface_format(&vec![other_srgb, other_srgb]), 0);
    assert_eq!(choose_surface_format(&vec![rgba]), 0);
}

#[test]
fn radix_passes_alternate() {
    let even = RadixBuffers { input: PairBuffer::Primary, output: PairBuffer::Scratch };
    let odd = RadixBuffers { input: PairBuffer::Scratch, output: PairBuffer::Primary };
    assert_eq!(radix_pass_buffers(0), even);
    assert_eq!(radix_pass_buffers(1), odd);
    assert_eq!(radix_pass_buffers(2), even);
    assert_eq!(radix_pass_buffers(3), odd);
}

#[test]
fn tile_clear_covers_every_tile() {
    assert_eq!(tile_clear_workgroups(0), 0);
    assert_eq!(tile_clear_workgroups(1), 1);
    assert_eq!(tile_clear_workgroups(256), 1);
    assert_eq!(tile_clear_workgroups(257), 2);
    assert_eq!(tile_clear_workgroups(3600), 15);
    assert_eq!(tile_clear_workgroups(u32::MAX), 16_777_216);
}
