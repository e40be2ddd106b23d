//! The viewer's decisions that do not depend on the GPU or on floating point:
//! which keys steer the orbit camera, when to redraw, and where the model to
//! load comes from.
use crate::text::{chars_eq_str, copy_range, range_starts_with, starts_with, str_chars};
use vstd::prelude::*;

verus! {

/// What kind of scene is loaded.
#[derive(Debug, Clone, Copy, PartialEq, Eq, Structural)]
pub enum SceneType {
    Gaussian3d,
    Gaussian4d,
}

impl SceneType {
    /// A 4D scene changes with time.
    pub fn is_dynamic(self) -> (r: bool)
        ensures
            r == (self == SceneType::Gaussian4d),
    {
        match self {
            SceneType::Gaussian3d => false,
            SceneType::Gaussian4d => true,
        }
    }
}

/// Whether the camera moved in the last update.
#[derive(Debug, Clone, Copy, PartialEq, Eq, Structural)]
pub enum CameraState {
    Idle,
    Active,
}

/// The keys the orbit camera listens to; every other key is `Other`.
#[derive(Debug, Clone, Copy, PartialEq, Eq, Structural)]
pub enum KeyInput {
    KeyA,
    ArrowLeft,
    KeyD,
    ArrowRight,
    KeyW,
    ArrowUp,
    KeyS,
    ArrowDown,
    KeyQ,
    KeyE,
    KeyZ,
    KeyC,
    Escape,
    Other,
}

/// A motion of the orbit camera.
#[derive(Debug, Clone, Copy, PartialEq, Eq, Structural)]
pub enum CameraAction {
    YawLeft,
    YawRight,
    PitchUp,
    PitchDown,
    ZoomIn,
    ZoomOut,
    RollLeft,
    RollRight,
}

/// Which motion a key drives: A/← and D/→ yaw, W/↑ and S/↓ pitch, Q and E
/// zoom in and out, Z and C roll.
pub open spec fn action_of(k: KeyInput) -> Option<CameraAction> {
    match k {
        KeyInput::KeyA | KeyInput::ArrowLeft => Some(CameraAction::YawLeft),
        KeyInput::KeyD | KeyInput::ArrowRight => Some(CameraAction::YawRight),
        KeyInput::KeyW | KeyInput::ArrowUp => Some(CameraAction::PitchUp),
        KeyInput::KeyS | KeyInput::ArrowDown => Some(CameraAction::PitchDown),
        KeyInput::KeyQ => Some(CameraAction::ZoomIn),
        KeyInput::KeyE => Some(CameraAction::ZoomOut),
        KeyInput::KeyZ => Some(CameraAction::RollLeft),
        KeyInput::KeyC => Some(CameraAction::RollRight),
        KeyInput::Escape | KeyInput::Other => None,
    }
}

/// Which camera motions are held down.
#[derive(Debug, Clone, Copy, PartialEq, Eq)]
pub struct CameraKeys {
    pub yaw_left: bool,
    pub yaw_right: bool,
    pub pitch_up: bool,
    pub pitch_down: bool,
    pub roll_left: bool,
    pub roll_right: bool,
    pub zoom_in: bool,
    pub zoom_out: bool,
}

/// Whether motion `a` is held in `k`.
pub open spec fn held(k: CameraKeys, a: CameraAction) -> bool {
    match a {
        CameraAction::YawLeft => k.yaw_left,
        CameraAction::YawRight => k.yaw_right,
        CameraAction::PitchUp => k.pitch_up,
        CameraAction::PitchDown => k.pitch_down,
        CameraAction::ZoomIn => k.zoom_in,
        CameraAction::ZoomOut => k.zoom_out,
        CameraAction::RollLeft => k.roll_left,
        CameraAction::RollRight => k.roll_right,
    }
}

/// `k` with motion `a` held or released.
pub open spec fn with_held(k: CameraKeys, a: CameraAction, p: bool) -> CameraKeys {
    match a {
        CameraAction::YawLeft => CameraKeys { yaw_left: p, ..k },
        CameraAction::YawRight => CameraKeys { yaw_right: p, ..k },
        CameraAction::PitchUp => CameraKeys { pitch_up: p, ..k },
        CameraAction::PitchDown => CameraKeys { pitch_down: p, ..k },
        CameraAction::ZoomIn => CameraKeys { zoom_in: p, ..k },
        CameraAction::ZoomOut => CameraKeys { zoom_out: p, ..k },
        CameraAction::RollLeft => CameraKeys { roll_left: p, ..k },
        CameraAction::RollRight => CameraKeys { roll_right: p, ..k },
    }
}

/// The held motions as four axes, each -1, 0 or 1.
#[derive(Debug, Clone, Copy, PartialEq, Eq)]
pub struct AxisInputs {
    pub yaw: i32,
    pub pitch: i32,
    pub roll: i32,
    pub zoom: i32,
}

pub open spec fn axis(pos: bool, neg: bool) -> int {
    (if pos {
        1int
    } else {
        0int
    }) - (if neg {
        1int
    } else {
        0int
    })
}

impl CameraKeys {
    /// Nothing held.
    pub fn new() -> (r: Self)
        ensures
            r == (CameraKeys {
                yaw_left: false,
                yaw_right: false,
                pitch_up: false,
                pitch_down: false,
                roll_left: false,
                roll_right: false,
                zoom_in: false,
                zoom_out: false,
            }),
            forall|a: CameraAction| !held(r, a),
    {
        CameraKeys {
            yaw_left: false,
            yaw_right: false,
            pitch_up: false,
            pitch_down: false,
            roll_left: false,
            roll_right: false,
            zoom_in: false,
            zoom_out: false,
        }
    }

    /// Records a key press or release; says whether a held motion changed.
    /// Other keys change nothing.
    pub fn handle_key(&mut self, code: KeyInput, is_pressed: bool) -> (changed: bool)
        ensures
            match action_of(code) {
                Some(a) => *final(self) == with_held(*old(self), a, is_pressed) && changed == (held(
                    *old(self),
                    a,
                ) != is_pressed),
                None => *final(self) == *old(self) && !changed,
            },
            *final(self) == key_effect(*old(self), code, is_pressed),
    {
        match code {
            KeyInput::KeyA | KeyInput::ArrowLeft => {
                let changed = self.yaw_left != is_pressed;
                self.yaw_left = is_pressed;
                changed
            },
            KeyInput::KeyD | KeyInput::ArrowRight => {
                let changed = self.yaw_right != is_pressed;
                self.yaw_right = is_pressed;
                changed
            },
            KeyInput::KeyW | KeyInput::ArrowUp => {
                let changed = self.pitch_up != is_pressed;
                self.pitch_up = is_pressed;
                changed
            },
            KeyInput::KeyS | KeyInput::ArrowDown => {
                let changed = self.pitch_down != is_pressed;
                self.pitch_down = is_pressed;
                changed
            },
            KeyInput::KeyQ => {
                let changed = self.zoom_in != is_pressed;
                self.zoom_in = is_pressed;
                changed
            },
            KeyInput::KeyE => {
                let changed = self.zoom_out != is_pressed;
                self.zoom_out = is_pressed;
                changed
            },
            KeyInput::KeyZ => {
                let changed = self.roll_left != is_pressed;
                self.roll_left = is_pressed;
                changed
            },
            KeyInput::KeyC => {
                let changed = self.roll_right != is_pressed;
                self.roll_right = is_pressed;
                changed
            },
            KeyInput::Escape | KeyInput::Other => false,
        }
    }

    /// Yaw is right minus left, pitch up minus down, roll right minus left,
    /// zoom out minus in.
    pub fn inputs(&self) -> (r: AxisInputs)
        ensures
            r.yaw == axis(self.yaw_right, self.yaw_left),
            r.pitch == axis(self.pitch_up, self.pitch_down),
            r.roll == axis(self.roll_right, self.roll_left),
            r.zoom == axis(self.zoom_out, self.zoom_in),
            (r.yaw as int, r.pitch as int, r.roll as int, r.zoom as int) == axes(*self),
    {
        AxisInputs {
            yaw: bool_axis(self.yaw_right, self.yaw_left),
            pitch: bool_axis(self.pitch_up, self.pitch_down),
            roll: bool_axis(self.roll_right, self.roll_left),
            zoom: bool_axis(self.zoom_out, self.zoom_in),
        }
    }
}

fn bool_axis(pos: bool, neg: bool) -> (r: i32)
    ensures
        r == axis(pos, neg),
{
    let p: i32 = if pos {
        1
    } else {
        0
    };
    let n: i32 = if neg {
        1
    } else {
        0
    };
    p - n
}

/// The held motions after the key event `code` (pressed or released).
pub open spec fn key_effect(k: CameraKeys, code: KeyInput, is_pressed: bool) -> CameraKeys {
    match action_of(code) {
        Some(a) => with_held(k, a, is_pressed),
        None => k,
    }
}

/// The four axes the held motions give, as [`CameraKeys::inputs`] reports
/// them: yaw, pitch, roll and zoom.
pub open spec fn axes(k: CameraKeys) -> (int, int, int, int) {
    (
        axis(k.yaw_right, k.yaw_left),
        axis(k.pitch_up, k.pitch_down),
        axis(k.roll_right, k.roll_left),
        axis(k.zoom_out, k.zoom_in),
    )
}

/// Each arrow key does what its letter key does: ← as A, → as D, ↑ as W and
/// ↓ as S, pressed or released, whatever else is held; Escape and other keys
/// hold nothing.
pub proof fn lemma_arrow_keys_match_letters(k: CameraKeys, is_pressed: bool)
    ensures
        key_effect(k, KeyInput::ArrowLeft, is_pressed) == key_effect(k, KeyInput::KeyA, is_pressed),
        key_effect(k, KeyInput::ArrowRight, is_pressed) == key_effect(k, KeyInput::KeyD, is_pressed),
        key_effect(k, KeyInput::ArrowUp, is_pressed) == key_effect(k, KeyInput::KeyW, is_pressed),
        key_effect(k, KeyInput::ArrowDown, is_pressed) == key_effect(k, KeyInput::KeyS, is_pressed),
        key_effect(k, KeyInput::Escape, is_pressed) == k,
        key_effect(k, KeyInput::Other, is_pressed) == k,
{
}

/// Holding a key while its opposite is up drives its axis fully one way and
/// leaves the other three axes as they were: D and → yaw right (+1), A and ←
/// yaw left (-1), W and ↑ pitch up (+1), S and ↓ pitch down (-1), C rolls
/// right (+1), Z rolls left (-1), E zooms out (+1), Q zooms in (-1). With
/// both keys of an axis up, the axis is still.
pub proof fn lemma_key_motions(k: CameraKeys)
    ensures
        ({
            let y = |c: KeyInput, opp: KeyInput| axes(key_effect(key_effect(k, opp, false), c, true));
            &&& y(KeyInput::KeyD, KeyInput::KeyA) == (1int, axes(k).1, axes(k).2, axes(k).3)
            &&& y(KeyInput::ArrowRight, KeyInput::ArrowLeft) == (1int, axes(k).1, axes(k).2, axes(k).3)
            &&& y(KeyInput::KeyA, KeyInput::KeyD) == (-1int, axes(k).1, axes(k).2, axes(k).3)
            &&& y(KeyInput::ArrowLeft, KeyInput::ArrowRight) == (-1int, axes(k).1, axes(k).2, axes(k).3)
            &&& y(KeyInput::KeyW, KeyInput::KeyS) == (axes(k).0, 1int, axes(k).2, axes(k).3)
            &&& y(KeyInput::ArrowUp, KeyInput::ArrowDown) == (axes(k).0, 1int, axes(k).2, axes(k).3)
            &&& y(KeyInput::KeyS, KeyInput::KeyW) == (axes(k).0, -1int, axes(k).2, axes(k).3)
            &&& y(KeyInput::ArrowDown, KeyInput::ArrowUp) == (axes(k).0, -1int, axes(k).2, axes(k).3)
            &&& y(KeyInput::KeyC, KeyInput::KeyZ) == (axes(k).0, axes(k).1, 1int, axes(k).3)
            &&& y(KeyInput::KeyZ, KeyInput::KeyC) == (axes(k).0, axes(k).1, -1int, axes(k).3)
            &&& y(KeyInput::KeyE, KeyInput::KeyQ) == (axes(k).0, axes(k).1, axes(k).2, 1int)
            &&& y(KeyInput::KeyQ, KeyInput::KeyE) == (axes(k).0, axes(k).1, axes(k).2, -1int)
        }),
        axes(key_effect(key_effect(k, KeyInput::KeyA, false), KeyInput::KeyD, false)).0 == 0,
        axes(key_effect(key_effect(k, KeyInput::KeyW, false), KeyInput::KeyS, false)).1 == 0,
        axes(key_effect(key_effect(k, KeyInput::KeyZ, false), KeyInput::KeyC, false)).2 == 0,
        axes(key_effect(key_effect(k, KeyInput::KeyQ, false), KeyInput::KeyE, false)).3 == 0,
{
}

/// After a key event the key's motion is held exactly when the key is down,
/// and every other motion is as it was.
pub proof fn lemma_handle_key_sets(k: CameraKeys, code: KeyInput, is_pressed: bool, b: CameraAction)
    requires
        action_of(code) is Some,
    ensures
        held(with_held(k, action_of(code)->Some_0, is_pressed), action_of(code)->Some_0) == is_pressed,
        b != action_of(code)->Some_0 ==> held(with_held(k, action_of(code)->Some_0, is_pressed), b)
            == held(k, b),
{
}

/// Repeating a key event changes nothing and reports no change.
pub proof fn lemma_handle_key_idempotent(k: CameraKeys, code: KeyInput, is_pressed: bool)
    requires
        action_of(code) is Some,
    ensures
        with_held(with_held(k, action_of(code)->Some_0, is_pressed), action_of(code)->Some_0, is_pressed)
            == with_held(k, action_of(code)->Some_0, is_pressed),
        held(with_held(k, action_of(code)->Some_0, is_pressed), action_of(code)->Some_0) == is_pressed,
{
}

/// A scene is redrawn continuously when it is intrinsically dynamic (4D) or
/// when a DASH session streams time-varying frames into it.
pub fn is_time_dependent(scene_type: SceneType, streaming: bool) -> (r: bool)
    ensures
        r == (scene_type == SceneType::Gaussian4d || streaming),
{
    scene_type.is_dynamic() || streaming
}

/// Another frame is requested after a redraw while the scene is dirty, the
/// camera moves, or the scene depends on time.
pub fn should_request_redraw(
    scene_dirty: bool,
    camera_state: CameraState,
    scene_type: SceneType,
    streaming: bool,
) -> (r: bool)
    ensures
        r == (scene_dirty || camera_state == CameraState::Active || scene_type
            == SceneType::Gaussian4d || streaming),
{
    scene_dirty || camera_state == CameraState::Active || is_time_dependent(scene_type, streaming)
}

/// A resize is applied only to a non-empty size that differs from the current one.
pub fn resize_needed(current_width: u32, current_height: u32, width: u32, height: u32) -> (r: bool)
    ensures
        r == (width != 0 && height != 0 && !(current_width == width && current_height == height)),
{
    if width == 0 || height == 0 {
        return false;
    }
    if current_width == width && current_height == height {
        return false;
    }
    true
}

/// A streamed frame fits the GPU buffer when its count, taken as a `u32`,
/// equals the loaded count.
pub fn frame_count_matches(frame_count: usize, loaded_count: u32) -> (r: bool)
    ensures
        r == (frame_count as u32 == loaded_count),
{
    frame_count as u32 == loaded_count
}

/// The viewer's drawing state, apart from the GPU objects it drives: the
/// surface size, what is loaded, whether the camera moves, whether the tile
/// pipeline must run again, and whether the window can be drawn to.
#[derive(Debug, Clone, Copy, PartialEq, Eq)]
pub struct ViewState {
    pub width: u32,
    pub height: u32,
    pub scene_type: SceneType,
    pub camera_state: CameraState,
    pub scene_dirty: bool,
    /// A DASH session streams time-varying frames into the scene.
    pub streaming: bool,
    pub is_focused: bool,
    pub is_occluded: bool,
}

impl ViewState {
    /// A fresh viewer: an empty 3DGS scene still to be drawn, on a surface of
    /// at least 1x1.
    pub fn new(width: u32, height: u32) -> (r: Self)
        ensures
            r.width == (if width == 0 {
                1
            } else {
                width
            }),
            r.height == (if height == 0 {
                1
            } else {
                height
            }),
            r.scene_type == SceneType::Gaussian3d,
            r.camera_state == CameraState::Idle,
            r.scene_dirty,
            !r.streaming,
            r.is_focused,
            !r.is_occluded,
    {
        ViewState {
            width: if width == 0 {
                1
            } else {
                width
            },
            height: if height == 0 {
                1
            } else {
                height
            },
            scene_type: SceneType::Gaussian3d,
            camera_state: CameraState::Idle,
            scene_dirty: true,
            streaming: false,
            is_focused: true,
            is_occluded: false,
        }
    }

    /// A window resize: a non-empty new size is taken and the scene redrawn;
    /// anything else changes nothing. Says whether the surface must be
    /// reconfigured.
    pub fn resize(&mut self, width: u32, height: u32) -> (applied: bool)
        ensures
            applied == (width != 0 && height != 0 && !(old(self).width == width && old(self).height
                == height)),
            applied ==> *final(self) == (ViewState {
                width,
                height,
                scene_dirty: true,
                ..*old(self)
            }),
            !applied ==> *final(self) == *old(self),
    {
        if !resize_needed(self.width, self.height, width, height) {
            return false;
        }
        self.width = width;
        self.height = height;
        self.scene_dirty = true;
        true
    }

    /// The camera's state after an update; a moving camera dirties the scene.
    pub fn camera_updated(&mut self, state: CameraState)
        ensures
            *final(self) == (ViewState {
                camera_state: state,
                scene_dirty: old(self).scene_dirty || state == CameraState::Active,
                ..*old(self)
            }),
    {
        self.camera_state = state;
        if state == CameraState::Active {
            self.scene_dirty = true;
        }
    }

    /// Whether this frame runs the tile pipeline: when the scene is dirty or
    /// changes with time.
    pub fn needs_passes(&self) -> (r: bool)
        ensures
            r == (self.scene_dirty || self.scene_type == SceneType::Gaussian4d || self.streaming),
    {
        self.scene_dirty || is_time_dependent(self.scene_type, self.streaming)
    }

    /// The tile pipeline ran: the scene is clean.
    pub fn passes_encoded(&mut self)
        ensures
            *final(self) == (ViewState { scene_dirty: false, ..*old(self) }),
    {
        self.scene_dirty = false;
    }

    /// A redraw is skipped while the window is hidden or unfocused.
    pub fn can_draw(&self) -> (r: bool)
        ensures
            r == (!self.is_occluded && self.is_focused),
    {
        !self.is_occluded && self.is_focused
    }

    /// Whether to ask for another frame after drawing.
    pub fn wants_redraw(&self) -> (r: bool)
        ensures
            r == redraw_wanted(*self),
    {
        should_request_redraw(self.scene_dirty, self.camera_state, self.scene_type, self.streaming)
    }

    /// A point cloud was loaded: it replaces the scene and ends any DASH
    /// streaming.
    pub fn replace_scene(&mut self, scene_type: SceneType)
        ensures
            *final(self) == (ViewState {
                scene_type,
                streaming: false,
                scene_dirty: true,
                ..*old(self)
            }),
    {
        self.streaming = false;
        self.scene_type = scene_type;
        self.scene_dirty = true;
    }

    /// A DASH model was loaded: its first frame is a 3DGS scene, and frames
    /// stream from now on.
    pub fn start_streaming(&mut self)
        ensures
            *final(self) == (ViewState {
                scene_type: SceneType::Gaussian3d,
                streaming: true,
                scene_dirty: true,
                ..*old(self)
            }),
    {
        self.replace_scene(SceneType::Gaussian3d);
        self.streaming = true;
    }

    /// A streamed frame arrived (`Ok`) or streaming failed and stops (`Err`).
    pub fn frame_streamed(&mut self, ok: bool)
        ensures
            ok ==> *final(self) == (ViewState { scene_dirty: true, ..*old(self) }),
            !ok ==> *final(self) == (ViewState { streaming: false, ..*old(self) }),
    {
        if ok {
            self.scene_dirty = true;
        } else {
            self.streaming = false;
        }
    }

    pub fn set_focused(&mut self, focused: bool)
        ensures
            *final(self) == (ViewState { is_focused: focused, ..*old(self) }),
    {
        self.is_focused = focused;
    }

    pub fn set_occluded(&mut self, occluded: bool)
        ensures
            *final(self) == (ViewState { is_occluded: occluded, ..*old(self) }),
    {
        self.is_occluded = occluded;
    }
}

/// Whether the viewer asks for another frame after drawing.
pub open spec fn redraw_wanted(s: ViewState) -> bool {
    s.scene_dirty || s.camera_state == CameraState::Active || s.scene_type == SceneType::Gaussian4d
        || s.streaming
}

/// A scene that changes with time is drawn continuously, and a static scene
/// with an idle camera stops asking for frames once the pipeline has run.
pub proof fn lemma_redraw_settles(s: ViewState)
    ensures
        s.scene_type == SceneType::Gaussian4d || s.streaming ==> redraw_wanted(s),
        s.scene_type == SceneType::Gaussian3d && !s.streaming && s.camera_state == CameraState::Idle
            ==> !redraw_wanted(ViewState { scene_dirty: false, ..s }),
{
}

/// What a key event does to the viewer.
#[derive(Debug, Clone, Copy, PartialEq, Eq, Structural)]
pub enum KeyOutcome {
    /// Escape was pressed: the viewer closes.
    Exit,
    /// A camera motion started or stopped: redraw, and when a key went down,
    /// restart the frame clock so the first step is not a long one.
    Redraw { restart_clock: bool },
    /// Nothing changed.
    Nothing,
}

/// Whether the key event changes which motions are held.
pub open spec fn key_changes(k: CameraKeys, code: KeyInput, is_pressed: bool) -> bool {
    match action_of(code) {
        Some(a) => held(k, a) != is_pressed,
        None => false,
    }
}

/// A key event: pressing Escape closes the viewer; any other event goes to the
/// camera keys and asks for a redraw when it changed them.
pub fn key_event(keys: &mut CameraKeys, code: KeyInput, is_pressed: bool) -> (r: KeyOutcome)
    ensures
        code == KeyInput::Escape && is_pressed ==> r == KeyOutcome::Exit && *final(keys) == *old(keys),
        !(code == KeyInput::Escape && is_pressed) ==> {
            &&& *final(keys) == (match action_of(code) {
                Some(a) => with_held(*old(keys), a, is_pressed),
                None => *old(keys),
            })
            &&& r == (if key_changes(*old(keys), code, is_pressed) {
                KeyOutcome::Redraw { restart_clock: is_pressed }
            } else {
                KeyOutcome::Nothing
            })
        },
{
    if code == KeyInput::Escape && is_pressed {
        return KeyOutcome::Exit;
    }
    let changed = keys.handle_key(code, is_pressed);
    if changed {
        KeyOutcome::Redraw { restart_clock: is_pressed }
    } else {
        KeyOutcome::Nothing
    }
}

/// What a dropped file is taken for.
#[derive(Debug, Clone, Copy, PartialEq, Eq, Structural)]
pub enum DropAction {
    /// A directory: a DASH model output directory.
    LoadDashModel,
    /// A `.ply` file.
    LoadPly,
    /// Anything else is ignored.
    Ignore,
}

/// A dropped directory is a DASH model; a dropped file whose extension is
/// `ply` is loaded; anything else is ignored. `extension` is the file
/// name's extension when it has one that is text.
pub fn dropped_file_action(is_dir: bool, extension: Option<&str>) -> (r: DropAction)
    ensures
        r == (if is_dir {
            DropAction::LoadDashModel
        } else if extension matches Some(e) && e@ == "ply"@ {
            DropAction::LoadPly
        } else {
            DropAction::Ignore
        }),
{
    if is_dir {
        return DropAction::LoadDashModel;
    }
    match extension {
        Some(e) => {
            let c = str_chars(e);
            if chars_eq_str(&c, "ply") {
                DropAction::LoadPly
            } else {
                DropAction::Ignore
            }
        },
        None => DropAction::Ignore,
    }
}

/// What acquiring the next surface texture reported.
#[derive(Debug, Clone, Copy, PartialEq, Eq, Structural)]
pub enum SurfaceStatus {
    Success,
    Suboptimal,
    Timeout,
    Occluded,
    Validation,
    Outdated,
    Lost,
}

/// What to do with the surface before drawing a frame.
#[derive(Debug, Clone, Copy, PartialEq, Eq, Structural)]
pub enum SurfaceAction {
    Draw,
    ReconfigureAndDraw,
    Skip,
    ReconfigureAndSkip,
    /// The device is lost: rendering fails.
    Lost,
}

/// A suboptimal surface is reconfigured and still drawn to; an outdated one
/// is reconfigured and the frame skipped; a timeout, occlusion or validation
/// failure skips the frame; a lost surface is an error.
pub open spec fn surface_action_spec(status: SurfaceStatus) -> SurfaceAction {
    match status {
        SurfaceStatus::Success => SurfaceAction::Draw,
        SurfaceStatus::Suboptimal => SurfaceAction::ReconfigureAndDraw,
        SurfaceStatus::Timeout | SurfaceStatus::Occluded | SurfaceStatus::Validation => SurfaceAction::Skip,
        SurfaceStatus::Outdated => SurfaceAction::ReconfigureAndSkip,
        SurfaceStatus::Lost => SurfaceAction::Lost,
    }
}

/// What to do with the surface (see [`surface_action_spec`]).
pub fn surface_action(status: SurfaceStatus) -> (r: SurfaceAction)
    ensures
        r == surface_action_spec(status),
{
    match status {
        SurfaceStatus::Success => SurfaceAction::Draw,
        SurfaceStatus::Suboptimal => SurfaceAction::ReconfigureAndDraw,
        SurfaceStatus::Timeout | SurfaceStatus::Occluded | SurfaceStatus::Validation => SurfaceAction::Skip,
        SurfaceStatus::Outdated => SurfaceAction::ReconfigureAndSkip,
        SurfaceStatus::Lost => SurfaceAction::Lost,
    }
}

/// The kind of a surface texture format, as far as the viewer cares.
#[derive(Debug, Clone, Copy, PartialEq, Eq, Structural)]
pub enum FormatKind {
    Rgba8Unorm,
    Bgra8Unorm,
    Other,
}

/// A surface texture format the adapter offers.
#[derive(Debug, Clone, Copy, PartialEq, Eq, Structural)]
pub struct FormatInfo {
    pub kind: FormatKind,
    pub srgb: bool,
}

/// The first of `f[i..]` of kind `k`.
pub open spec fn first_of_kind(f: Seq<FormatInfo>, k: FormatKind, i: int) -> Option<int>
    decreases f.len() - i,
{
    if i < 0 || i >= f.len() {
        None
    } else if f[i].kind == k {
        Some(i)
    } else {
        first_of_kind(f, k, i + 1)
    }
}

/// The first of `f[i..]` that is not sRGB.
pub open spec fn first_linear(f: Seq<FormatInfo>, i: int) -> Option<int>
    decreases f.len() - i,
{
    if i < 0 || i >= f.len() {
        None
    } else if !f[i].srgb {
        Some(i)
    } else {
        first_linear(f, i + 1)
    }
}

/// The surface format the viewer renders to: `Rgba8Unorm` if offered, else
/// `Bgra8Unorm`, else the first format that is not sRGB, else the first.
pub open spec fn surface_format_spec(f: Seq<FormatInfo>) -> int {
    match first_of_kind(f, FormatKind::Rgba8Unorm, 0) {
        Some(i) => i,
        None => match first_of_kind(f, FormatKind::Bgra8Unorm, 0) {
            Some(i) => i,
            None => match first_linear(f, 0) {
                Some(i) => i,
                None => 0,
            },
        },
    }
}

fn find_kind(f: &Vec<FormatInfo>, k: FormatKind) -> (r: Option<usize>)
    ensures
        match r {
            Some(i) => first_of_kind(f@, k, 0) == Some(i as int),
            None => first_of_kind(f@, k, 0) is None,
        },
{
    let mut i: usize = 0;
    while i < f.len()
        invariant
            i <= f@.len(),
            first_of_kind(f@, k, 0) == first_of_kind(f@, k, i as int),
        decreases f@.len() - i,
    {
        if f[i].kind == k {
            return Some(i);
        }
        i = i + 1;
    }
    None
}

/// Which of the offered formats the surface uses (see [`surface_format_spec`]).
pub fn choose_surface_format(formats: &Vec<FormatInfo>) -> (r: usize)
    requires
        formats@.len() > 0,
    ensures
        r == surface_format_spec(formats@),
        r < formats@.len(),
{
    proof {
        lemma_first_of_kind_in(formats@, FormatKind::Rgba8Unorm, 0);
        lemma_first_of_kind_in(formats@, FormatKind::Bgra8Unorm, 0);
    }
    if let Some(i) = find_kind(formats, FormatKind::Rgba8Unorm) {
        return i;
    }
    if let Some(i) = find_kind(formats, FormatKind::Bgra8Unorm) {
        return i;
    }
    let mut i: usize = 0;
    while i < formats.len()
        invariant
            i <= formats@.len(),
            first_of_kind(formats@, FormatKind::Rgba8Unorm, 0) is None,
            first_of_kind(formats@, FormatKind::Bgra8Unorm, 0) is None,
            first_linear(formats@, 0) == first_linear(formats@, i as int),
        decreases formats@.len() - i,
    {
        if !formats[i].srgb {
            return i;
        }
        i = i + 1;
    }
    0
}

proof fn lemma_first_of_kind_in(f: Seq<FormatInfo>, k: FormatKind, i: int)
    ensures
        first_of_kind(f, k, i) matches Some(j) ==> 0 <= j < f.len(),
    decreases f.len() - i,
{
    if !(i < 0 || i >= f.len()) && f[i].kind != k {
        lemma_first_of_kind_in(f, k, i + 1);
    }
}

/// One of the two buffers the radix sort alternates between.
#[derive(Debug, Clone, Copy, PartialEq, Eq, Structural)]
pub enum PairBuffer {
    Primary,
    Scratch,
}

/// The buffers a radix pass reads from and writes to (for keys and values
/// alike).
#[derive(Debug, Clone, Copy, PartialEq, Eq, Structural)]
pub struct RadixBuffers {
    pub input: PairBuffer,
    pub output: PairBuffer,
}

/// Even passes read the primary buffers and write the scratch ones; odd
/// passes go back.
pub open spec fn radix_buffers_spec(pass: int) -> RadixBuffers {
    if pass % 2 == 0 {
        RadixBuffers { input: PairBuffer::Primary, output: PairBuffer::Scratch }
    } else {
        RadixBuffers { input: PairBuffer::Scratch, output: PairBuffer::Primary }
    }
}

/// The buffers radix pass `pass` reads and writes (see [`radix_buffers_spec`]).
pub fn radix_pass_buffers(pass: usize) -> (r: RadixBuffers)
    ensures
        r == radix_buffers_spec(pass as int),
{
    if pass % 2 == 0 {
        RadixBuffers { input: PairBuffer::Primary, output: PairBuffer::Scratch }
    } else {
        RadixBuffers { input: PairBuffer::Scratch, output: PairBuffer::Primary }
    }
}

/// Each radix pass reads what the previous one wrote, never writes what it
/// reads, and an even number of passes leaves the result in the primary
/// buffers.
pub proof fn lemma_radix_chain(pass: nat)
    ensures
        radix_buffers_spec(pass as int).input != radix_buffers_spec(pass as int).output,
        radix_buffers_spec(pass + 1int).input == radix_buffers_spec(pass as int).output,
        pass % 2 == 1 ==> radix_buffers_spec(pass as int).output == PairBuffer::Primary,
{
}

/// Workgroups of 256 invocations that clear every tile's range once: the
/// tile count divided by 256, rounded up.
pub fn tile_clear_workgroups(tile_count: u32) -> (r: u32)
    ensures
        r as int * 256 >= tile_count,
        r == 0 || (r as int - 1) * 256 < tile_count,
        r as int == (tile_count as int + 255) / 256,
{
    let q = tile_count / 256;
    if tile_count % 256 == 0 {
        q
    } else {
        q + 1
    }
}

/// What the command line says about the DASH model directory.
#[derive(Debug, Clone, PartialEq, Eq)]
pub enum ModelDirArg {
    /// `--dash-model <dir>` or `--dash-model=<dir>`.
    Given(Vec<char>),
    /// `--dash-model` was the last argument.
    MissingValue,
    /// No `--dash-model`: the environment decides.
    Absent,
}

/// What the first `--dash-model` among `args` says: `None` when there is
/// none, `Some(None)` when it is the last argument without a value, else the
/// directory it names.
pub open spec fn model_dir_arg_spec(args: Seq<Seq<char>>) -> Option<Option<Seq<char>>>
    decreases args.len(),
{
    if args.len() == 0 {
        None
    } else if args[0] == "--dash-model"@ {
        if args.len() >= 2 {
            Some(Some(args[1]))
        } else {
            Some(None)
        }
    } else if starts_with(args[0], "--dash-model="@) {
        Some(Some(args[0].skip("--dash-model="@.len() as int)))
    } else {
        model_dir_arg_spec(args.drop_first())
    }
}

pub open spec fn strings_view(v: Seq<String>) -> Seq<Seq<char>> {
    v.map_values(|s: String| s@)
}

/// What the command line (the arguments after the program name) says about
/// the DASH model directory.
pub fn dash_model_arg(args: &Vec<String>) -> (r: ModelDirArg)
    ensures
        match model_dir_arg_spec(strings_view(args@)) {
            None => r == ModelDirArg::Absent,
            Some(None) => r == ModelDirArg::MissingValue,
            Some(Some(d)) => r matches ModelDirArg::Given(v) && v@ == d,
        },
{
    let ghost all = strings_view(args@);
    let flag = str_chars("--dash-model=");
    let mut i: usize = 0;
    assert(all.skip(0) =~= all);
    while i < args.len()
        invariant
            i <= args@.len(),
            all == strings_view(args@),
            flag@ == "--dash-model="@,
            model_dir_arg_spec(all) == model_dir_arg_spec(all.skip(i as int)),
        decreases args@.len() - i,
    {
        let a = str_chars(args[i].as_str());
        proof {
            let rest = all.skip(i as int);
            assert(rest[0] == a@);
            assert(rest.drop_first() =~= all.skip(i + 1));
        }
        if chars_eq_str(&a, "--dash-model") {
            if i + 1 < args.len() {
                let d = str_chars(args[i + 1].as_str());
                proof {
                    assert(all.skip(i as int)[1] == d@);
                }
                return ModelDirArg::Given(d);
            }
            return ModelDirArg::MissingValue;
        }
        let n: usize = a.len();
        if range_starts_with(&a, 0, n, &flag) {
            let d = copy_range(&a, flag.len(), n);
            proof {
                assert(a@.subrange(0, n as int) =~= a@);
                assert(d@ =~= a@.skip(flag@.len() as int));
            }
            return ModelDirArg::Given(d);
        }
        proof {
            assert(a@.subrange(0, n as int) =~= a@);
        }
        i = i + 1;
    }
    ModelDirArg::Absent
}

} // verus!
