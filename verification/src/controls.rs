//! What the keys and the mouse do.

use crate::floats;
use crate::floats::{ONE_BITS, ZERO_BITS};
use crate::presets::Preset;
use crate::renderer;
use crate::renderer::{RendererModel, VulkanRenderer};
use crate::waves;
use crate::waves::Triple;
use crate::win32;
use crate::win32::{MouseState, Window, KEY_COUNT, WPARAM};
use vstd::prelude::*;

verus! {

// Virtual key codes.
pub const VK_1: WPARAM = 0x31;

pub const VK_OEM_PLUS: WPARAM = 0xBB;

pub const VK_OEM_MINUS: WPARAM = 0xBD;

pub const VK_SPACE: WPARAM = 0x20;

pub const VK_V: WPARAM = 0x56;

pub const VK_S: WPARAM = 0x53;

pub const VK_C: WPARAM = 0x43;

pub const VK_X: WPARAM = 0x58;

pub const VK_P: WPARAM = 0x50;

pub const VK_W: WPARAM = 0x57;

pub const VK_B: WPARAM = 0x42;

pub const VK_E: WPARAM = 0x45;

pub const VK_LEFT_KEY: WPARAM = 0x25;

pub const VK_RIGHT_KEY: WPARAM = 0x27;

/// How many presets have a key.
pub const PRESET_KEYS: usize = 9;

// Bit patterns of the floats that an emitted shell starts with.
/// 0.2
pub const FIFTH_BITS: u32 = 0x3E4C_CCCD;

/// 30.0, in Bohr radii
pub const EMITTED_RADIUS_BITS: u32 = 0x41F0_0000;

/// 1.0, one Bohr radius per second
pub const EMITTED_SPEED_BITS: u32 = ONE_BITS;

/// What a key does.
#[derive(Clone, Copy, PartialEq, Eq, Debug, Structural)]
pub enum Action {
    /// Shows a preset.
    Preset(usize),
    /// Lets time pass faster.
    Faster,
    /// Lets time pass slower.
    Slower,
    ToggleOrbit,
    ToggleView,
    CycleAxis,
    CycleColor,
    ToggleContour,
    ToggleParticles,
    ToggleWaves,
    ToggleVolume,
    /// Starts a yellow shell at the nucleus.
    EmitWave,
    /// Moves the slice back.
    SliceBack,
    /// Moves the slice forward.
    SliceForward,
}

/// A key and what it does.
#[derive(Clone, Copy, PartialEq, Eq, Debug, Structural)]
pub struct KeyBinding {
    pub key: WPARAM,
    pub action: Action,
}

/// The number keys, as far as there are presets.
pub open spec fn preset_bindings(presets: nat) -> Seq<KeyBinding> {
    Seq::new(
        if presets <= PRESET_KEYS {
            presets
        } else {
            PRESET_KEYS as nat
        },
        |i: int| KeyBinding { key: (VK_1 + i) as usize, action: Action::Preset(i as usize) },
    )
}

/// The other keys.
pub open spec fn fixed_bindings() -> Seq<KeyBinding> {
    seq![
        KeyBinding { key: VK_OEM_PLUS, action: Action::Faster },
        KeyBinding { key: VK_OEM_MINUS, action: Action::Slower },
        KeyBinding { key: VK_SPACE, action: Action::ToggleOrbit },
        KeyBinding { key: VK_V, action: Action::ToggleView },
        KeyBinding { key: VK_S, action: Action::CycleAxis },
        KeyBinding { key: VK_C, action: Action::CycleColor },
        KeyBinding { key: VK_X, action: Action::ToggleContour },
        KeyBinding { key: VK_P, action: Action::ToggleParticles },
        KeyBinding { key: VK_W, action: Action::ToggleWaves },
        KeyBinding { key: VK_B, action: Action::ToggleVolume },
        KeyBinding { key: VK_E, action: Action::EmitWave },
        KeyBinding { key: VK_LEFT_KEY, action: Action::SliceBack },
        KeyBinding { key: VK_RIGHT_KEY, action: Action::SliceForward },
    ]
}

/// All keys, in the order in which they are asked for.
pub open spec fn bindings_for(presets: nat) -> Seq<KeyBinding> {
    preset_bindings(presets) + fixed_bindings()
}

/// Tells the bindings whose key was pressed.
pub open spec fn was_pressed(waiting: Seq<u64>) -> spec_fn(KeyBinding) -> bool {
    |b: KeyBinding| win32::key_waits(waiting, b.key)
}

/// What a binding does.
pub open spec fn action_of() -> spec_fn(KeyBinding) -> Action {
    |b: KeyBinding| b.action
}

/// What the waiting keys do, in the order of the bindings.
pub open spec fn actions_for(waiting: Seq<u64>, bindings: Seq<KeyBinding>) -> Seq<Action> {
    bindings.filter(was_pressed(waiting)).map_values(action_of())
}

/// Whether one of the bindings is for key `k`.
pub open spec fn is_bound(bindings: Seq<KeyBinding>, k: int) -> bool {
    exists|j: int| 0 <= j < bindings.len() && (#[trigger] bindings[j]).key == k
}

/// The presses that still wait once each bound key was asked for once.
pub open spec fn still_waiting(waiting: Seq<u64>, bindings: Seq<KeyBinding>) -> Seq<u64> {
    Seq::new(
        waiting.len(),
        |k: int|
            if is_bound(bindings, k) && waiting[k] > 0 {
                (waiting[k] - 1) as u64
            } else {
                waiting[k]
            },
    )
}

/// Whether no key is bound twice.
pub open spec fn keys_differ(bindings: Seq<KeyBinding>) -> bool {
    forall|i: int, j: int|
        0 <= i < j < bindings.len() ==> (#[trigger] bindings[i]).key != (#[trigger] bindings[j]).key
}

/// No key is bound twice.
pub proof fn law_keys_differ(presets: nat)
    ensures
        keys_differ(bindings_for(presets)),
{
    let all = bindings_for(presets);
    let n = preset_bindings(presets).len();
    assert forall|i: int, j: int| 0 <= i < j < all.len() implies (#[trigger] all[i]).key != (
    #[trigger] all[j]).key by {
        let k = j - n;
        if j >= n {
            assert(all[j] == fixed_bindings()[k]);
            assert(k == 0 || k == 1 || k == 2 || k == 3 || k == 4 || k == 5 || k == 6 || k == 7
                || k == 8 || k == 9 || k == 10 || k == 11 || k == 12);
            if i >= n {
                let h = i - n;
                assert(all[i] == fixed_bindings()[h]);
                assert(h == 0 || h == 1 || h == 2 || h == 3 || h == 4 || h == 5 || h == 6 || h == 7
                    || h == 8 || h == 9 || h == 10 || h == 11 || h == 12);
            }
        }
    }
}

/// All keys, in the order in which they are asked for.
pub fn key_bindings(presets: usize) -> (out: Vec<KeyBinding>)
    ensures
        out@ == bindings_for(presets as nat),
{
    let count: usize = if presets <= PRESET_KEYS {
        presets
    } else {
        PRESET_KEYS
    };
    let mut out: Vec<KeyBinding> = Vec::new();
    for i in 0..count
        invariant
            count == preset_bindings(presets as nat).len(),
            count <= PRESET_KEYS,
            out@ == preset_bindings(presets as nat).take(i as int),
    {
        out.push(KeyBinding { key: VK_1 + i, action: Action::Preset(i) });
        assert(out@ =~= preset_bindings(presets as nat).take(i + 1));
    }
    assert(out@ =~= preset_bindings(presets as nat));
    let mut fixed = vec![
        KeyBinding { key: VK_OEM_PLUS, action: Action::Faster },
        KeyBinding { key: VK_OEM_MINUS, action: Action::Slower },
        KeyBinding { key: VK_SPACE, action: Action::ToggleOrbit },
        KeyBinding { key: VK_V, action: Action::ToggleView },
        KeyBinding { key: VK_S, action: Action::CycleAxis },
        KeyBinding { key: VK_C, action: Action::CycleColor },
        KeyBinding { key: VK_X, action: Action::ToggleContour },
        KeyBinding { key: VK_P, action: Action::ToggleParticles },
        KeyBinding { key: VK_W, action: Action::ToggleWaves },
        KeyBinding { key: VK_B, action: Action::ToggleVolume },
        KeyBinding { key: VK_E, action: Action::EmitWave },
        KeyBinding { key: VK_LEFT_KEY, action: Action::SliceBack },
        KeyBinding { key: VK_RIGHT_KEY, action: Action::SliceForward },
    ];
    assert(fixed@ =~= fixed_bindings());
    out.append(&mut fixed);
    out
}

/// Takes one press of each bound key that waits and says what they ask for.
pub fn take_actions(window: &mut Window, presets: usize) -> (actions: Vec<Action>)
    requires
        old(window).wf(),
    ensures
        final(window).wf(),
        final(window).width == old(window).width,
        final(window).height == old(window).height,
        final(window).quit_requested == old(window).quit_requested,
        final(window).mouse == old(window).mouse,
        actions@ == actions_for(old(window).keys@, bindings_for(presets as nat)),
        final(window).keys@ == still_waiting(old(window).keys@, bindings_for(presets as nat)),
{
    let bindings = key_bindings(presets);
    let ghost waiting = window.keys@;
    let mut actions: Vec<Action> = Vec::new();
    proof {
        law_keys_differ(presets as nat);
        assert(still_waiting(waiting, bindings@.take(0)) =~= waiting);
        reveal(Seq::filter);
        assert(actions@ =~= actions_for(waiting, bindings@.take(0)));
    }
    for i in 0..bindings.len()
        invariant
            window.wf(),
            window.width == old(window).width,
            window.height == old(window).height,
            window.quit_requested == old(window).quit_requested,
            window.mouse == old(window).mouse,
            keys_differ(bindings@),
            waiting.len() == KEY_COUNT,
            window.keys@ == still_waiting(waiting, bindings@.take(i as int)),
            actions@ == actions_for(waiting, bindings@.take(i as int)),
    {
        let b: KeyBinding = bindings[i];
        let ghost before = bindings@.take(i as int);
        let ghost after = bindings@.take(i + 1);
        proof {
            assert(after =~= before.push(b));
            assert(!is_bound(before, b.key as int)) by {
                if is_bound(before, b.key as int) {
                    let j = choose|j: int|
                        0 <= j < before.len() && (#[trigger] before[j]).key == b.key as int;
                    assert(bindings@[j].key == bindings@[i as int].key);
                }
            }
            assert forall|k: int| is_bound(after, k) <==> is_bound(before, k) || k == b.key by {
                if is_bound(before, k) {
                    let j = choose|j: int| 0 <= j < before.len() && (#[trigger] before[j]).key == k;
                    assert(after[j].key == k);
                }
                if k == b.key {
                    assert(after[i as int].key == k);
                }
                if is_bound(after, k) && k != b.key {
                    let j = choose|j: int| 0 <= j < after.len() && (#[trigger] after[j]).key == k;
                    assert(before[j].key == k);
                }
            }
        }
        let taken: bool = window.consume_key(b.key);
        if taken {
            actions.push(b.action);
        }
        proof {
            reveal(Seq::filter);
            assert(after.drop_last() =~= before);
            assert(was_pressed(waiting)(b) == taken);
            assert(window.keys@ =~= still_waiting(waiting, after));
            assert(actions@ =~= actions_for(waiting, after));
        }
    }
    assert(bindings@.take(bindings.len() as int) =~= bindings@);
    actions
}

/// The shell that a key press starts: yellow, from the nucleus, one Bohr radius per second
/// up to thirty.
pub open spec fn emitted_wave() -> waves::Wave {
    waves::fresh_wave(
        Triple { x: ZERO_BITS, y: ZERO_BITS, z: ZERO_BITS },
        Triple { x: ONE_BITS, y: ONE_BITS, z: FIFTH_BITS },
        EMITTED_RADIUS_BITS,
        EMITTED_SPEED_BITS,
    )
}

/// The state after a key did its work. Keys that change the pace of time or the depth of
/// the slice leave it as it is.
pub open spec fn acted(r: RendererModel, action: Action, presets: Seq<Preset>) -> RendererModel {
    match action {
        Action::Preset(i) => renderer::preset_applied(r, presets[i as int]@),
        Action::Faster => r,
        Action::Slower => r,
        Action::ToggleOrbit => RendererModel { auto_orbit: !r.auto_orbit, ..r },
        Action::ToggleView => RendererModel { view_mode: renderer::other_view(r.view_mode), ..r },
        Action::CycleAxis => RendererModel { slice_axis: renderer::next_axis(r.slice_axis), ..r },
        Action::CycleColor => RendererModel { color_mode: renderer::next_color(r.color_mode), ..r },
        Action::ToggleContour => RendererModel { show_contour: !r.show_contour, ..r },
        Action::ToggleParticles => RendererModel {
            show_particles: !r.show_particles,
            needs_particle_init: r.needs_particle_init || !r.show_particles,
            ..r
        },
        Action::ToggleWaves => RendererModel { show_waves: !r.show_waves, ..r },
        Action::ToggleVolume => RendererModel { show_volume: !r.show_volume, ..r },
        Action::EmitWave => renderer::wave_emitted(r, emitted_wave()),
        Action::SliceBack => r,
        Action::SliceForward => r,
    }
}

/// Does what a key asks for.
pub fn perform(r: &mut VulkanRenderer, action: Action, presets: &Vec<Preset>)
    requires
        action matches Action::Preset(i) ==> i < presets@.len(),
    ensures
        final(r)@ == acted(old(r)@, action, presets@),
{
    match action {
        Action::Preset(i) => r.apply_preset(&presets[i]),
        Action::ToggleOrbit => {
            r.auto_orbit = !r.auto_orbit;
        },
        Action::ToggleView => r.toggle_view_mode(),
        Action::CycleAxis => r.cycle_slice_axis(),
        Action::CycleColor => r.cycle_color_mode(),
        Action::ToggleContour => {
            r.show_contour = !r.show_contour;
        },
        Action::ToggleParticles => {
            r.show_particles = !r.show_particles;
            if r.show_particles {
                r.request_particle_reseed();
            }
        },
        Action::ToggleWaves => {
            r.show_waves = !r.show_waves;
        },
        Action::ToggleVolume => {
            r.show_volume = !r.show_volume;
        },
        Action::EmitWave => r.emit_wave(
            Triple { x: ZERO_BITS, y: ZERO_BITS, z: ZERO_BITS },
            Triple { x: ONE_BITS, y: ONE_BITS, z: FIFTH_BITS },
            EMITTED_RADIUS_BITS,
            EMITTED_SPEED_BITS,
        ),
        Action::Faster | Action::Slower | Action::SliceBack | Action::SliceForward => {},
    }
}

/// Whether the mouse turns the camera: it moved with its left button down.
pub open spec fn is_drag(dx: i32, dy: i32, left: bool) -> bool {
    left && (dx != 0 || dy != 0)
}

/// Has the camera stay where the mouse turns it. Says whether the mouse turns it.
pub fn mouse_drags(r: &mut VulkanRenderer, mouse: &MouseState) -> (drags: bool)
    ensures
        drags == is_drag(mouse.dx, mouse.dy, mouse.left),
        drags <==> mouse.left && !(mouse.dx == 0 && mouse.dy == 0),
        final(r)@ == (RendererModel {
            auto_orbit: old(r)@.auto_orbit && !drags,
            ..old(r)@
        }),
{
    let drags: bool = mouse.left && (mouse.dx != 0 || mouse.dy != 0);
    if drags {
        r.auto_orbit = false;
    }
    drags
}

/// A preset key asks for a preset that there is.
pub proof fn law_preset_keys_find_presets(waiting: Seq<u64>, presets: nat, k: int, i: usize)
    requires
        0 <= k < actions_for(waiting, bindings_for(presets)).len(),
        actions_for(waiting, bindings_for(presets))[k] == Action::Preset(i),
    ensures
        i < presets,
{
    let all = bindings_for(presets);
    let pressed = all.filter(was_pressed(waiting));
    let b = pressed[k];
    assert(b.action == Action::Preset(i));
    assert(pressed.contains(b));
    all.lemma_filter_contains_rev(was_pressed(waiting), b);
    let j = choose|j: int| 0 <= j < all.len() && all[j] == b;
    let n = preset_bindings(presets).len();
    if j >= n {
        let h = j - n;
        assert(all[j] == fixed_bindings()[h]);
        assert(h == 0 || h == 1 || h == 2 || h == 3 || h == 4 || h == 5 || h == 6 || h == 7 || h
            == 8 || h == 9 || h == 10 || h == 11 || h == 12);
    }
}

/// Keys never touch what the frames keep account of: the slots, the images, the
/// counters, and the adapter.
pub proof fn law_keys_leave_frames_alone(r: RendererModel, action: Action, presets: Seq<Preset>)
    ensures
        acted(r, action, presets).initialized == r.initialized,
        acted(r, action, presets).frame_index == r.frame_index,
        acted(r, action, presets).timeline_value == r.timeline_value,
        acted(r, action, presets).frame_counter == r.frame_counter,
        acted(r, action, presets).caps == r.caps,
        acted(r, action, presets).perf_async == r.perf_async,
{
}

/// The key that asks for an action, by the character that is printed on it, or by its
/// virtual code where there is none.
pub open spec fn key_for(action: Action) -> int {
    match action {
        Action::Preset(i) => '1' as int + i,
        Action::Faster => 0xBB,
        Action::Slower => 0xBD,
        Action::ToggleOrbit => ' ' as int,
        Action::ToggleView => 'V' as int,
        Action::CycleAxis => 'S' as int,
        Action::CycleColor => 'C' as int,
        Action::ToggleContour => 'X' as int,
        Action::ToggleParticles => 'P' as int,
        Action::ToggleWaves => 'W' as int,
        Action::ToggleVolume => 'B' as int,
        Action::EmitWave => 'E' as int,
        Action::SliceBack => 0x25,
        Action::SliceForward => 0x27,
    }
}

/// Every action has its key: the digits from one on show the presets, as far as there are
/// both, and each of the other actions has one key.
pub proof fn law_every_action_has_its_key(presets: nat, action: Action)
    ensures
        ({
            let all = bindings_for(presets);
            &&& all.len() == (if presets < 9 {
                presets
            } else {
                9
            }) + 13
            &&& forall|j: int|
                0 <= j < all.len() ==> (#[trigger] all[j]).key == key_for(all[j].action)
            &&& (action matches Action::Preset(i) ==> i < presets && i < 9) <==> exists|j: int|
                0 <= j < all.len() && (#[trigger] all[j]).action == action
        }),
{
    let all = bindings_for(presets);
    let n = preset_bindings(presets).len() as int;
    assert forall|j: int| 0 <= j < all.len() implies (#[trigger] all[j]).key == key_for(
        all[j].action,
    ) by {
        if j >= n {
            let h = j - n;
            assert(all[j] == fixed_bindings()[h]);
            assert(h == 0 || h == 1 || h == 2 || h == 3 || h == 4 || h == 5 || h == 6 || h == 7
                || h == 8 || h == 9 || h == 10 || h == 11 || h == 12);
        }
    }
    match action {
        Action::Preset(i) => {
            if i < presets && i < 9 {
                assert(all[i as int].action == action);
            }
            assert forall|j: int| 0 <= j < all.len() && (#[trigger] all[j]).action
                == action implies i < presets && i < 9 by {
                if j >= n {
                    let h = j - n;
                    assert(all[j] == fixed_bindings()[h]);
                    assert(h == 0 || h == 1 || h == 2 || h == 3 || h == 4 || h == 5 || h == 6 || h
                        == 7 || h == 8 || h == 9 || h == 10 || h == 11 || h == 12);
                }
            }
        },
        Action::Faster => assert(all[n + 0].action == action),
        Action::Slower => assert(all[n + 1].action == action),
        Action::ToggleOrbit => assert(all[n + 2].action == action),
        Action::ToggleView => assert(all[n + 3].action == action),
        Action::CycleAxis => assert(all[n + 4].action == action),
        Action::CycleColor => assert(all[n + 5].action == action),
        Action::ToggleContour => assert(all[n + 6].action == action),
        Action::ToggleParticles => assert(all[n + 7].action == action),
        Action::ToggleWaves => assert(all[n + 8].action == action),
        Action::ToggleVolume => assert(all[n + 9].action == action),
        Action::EmitWave => assert(all[n + 10].action == action),
        Action::SliceBack => assert(all[n + 11].action == action),
        Action::SliceForward => assert(all[n + 12].action == action),
    }
}

/// Keys are asked for in turn: first the presets in their order, then pace, orbit, view,
/// plane, colors, contours, particles, shells, volume, the new shell, and the slice.
pub proof fn law_keys_come_in_order(presets: nat)
    ensures
        ({
            let all = bindings_for(presets);
            let n = if presets < 9 {
                presets as int
            } else {
                9
            };
            &&& forall|i: int|
                0 <= i < n ==> (#[trigger] all[i]).action == Action::Preset(i as usize)
            &&& all[n].action is Faster && all[n + 1].action is Slower
            &&& all[n + 2].action is ToggleOrbit && all[n + 3].action is ToggleView
            &&& all[n + 4].action is CycleAxis && all[n + 5].action is CycleColor
            &&& all[n + 6].action is ToggleContour && all[n + 7].action is ToggleParticles
            &&& all[n + 8].action is ToggleWaves && all[n + 9].action is ToggleVolume
            &&& all[n + 10].action is EmitWave && all[n + 11].action is SliceBack
            &&& all[n + 12].action is SliceForward
        }),
{
}

/// Each bound key that waits brings its action once, and one that does not wait brings
/// none, whatever the other keys do.
pub proof fn law_pressed_keys_act(waiting: Seq<u64>, bindings: Seq<KeyBinding>, b: KeyBinding)
    requires
        waiting.len() == KEY_COUNT,
        b.key < KEY_COUNT,
    ensures
        bindings.len() == 0 ==> actions_for(waiting, bindings).len() == 0,
        waiting[b.key as int] > 0 ==> actions_for(waiting, bindings.push(b)) == actions_for(
            waiting,
            bindings,
        ).push(b.action),
        waiting[b.key as int] == 0 ==> actions_for(waiting, bindings.push(b)) == actions_for(
            waiting,
            bindings,
        ),
{
    reveal(Seq::filter);
    let more = bindings.push(b);
    assert(more.drop_last() =~= bindings);
    let pressed = bindings.filter(was_pressed(waiting));
    assert(pressed.push(b).map_values(action_of()) =~= pressed.map_values(action_of()).push(
        b.action,
    ));
    if bindings.len() == 0 {
        assert(bindings =~= Seq::<KeyBinding>::empty());
    }
}

/// Of each bound key one press is taken, of any other none.
pub proof fn law_one_press_is_taken(waiting: Seq<u64>, presets: nat, action: Action, k: int)
    requires
        action matches Action::Preset(i) ==> i < presets && i < 9,
        key_for(action) < waiting.len(),
        0 <= k < waiting.len(),
    ensures
        ({
            let left = still_waiting(waiting, bindings_for(presets));
            &&& left.len() == waiting.len()
            &&& left[k] <= waiting[k] <= left[k] + 1
            &&& waiting[key_for(action)] > 0 ==> left[key_for(action)] == waiting[key_for(action)]
                - 1
            &&& left[k] != waiting[k] ==> exists|j: int|
                0 <= j < bindings_for(presets).len() && k == (#[trigger] bindings_for(
                    presets,
                )[j]).key
        }),
{
    let all = bindings_for(presets);
    law_every_action_has_its_key(presets, action);
    let j = choose|j: int| 0 <= j < all.len() && (#[trigger] all[j]).action == action;
    assert(all[j].key == key_for(action));
    assert(is_bound(all, key_for(action)));
}

/// A switch turns over what it is for and nothing else, so that turning it twice changes
/// nothing at all.
pub proof fn law_switches_turn_over(r: RendererModel, presets: Seq<Preset>)
    ensures
        ({
            let orbit = acted(r, Action::ToggleOrbit, presets);
            let view = acted(r, Action::ToggleView, presets);
            let contour = acted(r, Action::ToggleContour, presets);
            let shells = acted(r, Action::ToggleWaves, presets);
            let volume = acted(r, Action::ToggleVolume, presets);
            &&& orbit.auto_orbit != r.auto_orbit
            &&& (RendererModel { auto_orbit: r.auto_orbit, ..orbit }) == r
            &&& acted(orbit, Action::ToggleOrbit, presets) == r
            &&& view.view_mode != r.view_mode
            &&& (RendererModel { view_mode: r.view_mode, ..view }) == r
            &&& acted(view, Action::ToggleView, presets) == r
            &&& contour.show_contour != r.show_contour
            &&& (RendererModel { show_contour: r.show_contour, ..contour }) == r
            &&& acted(contour, Action::ToggleContour, presets) == r
            &&& shells.show_waves != r.show_waves
            &&& (RendererModel { show_waves: r.show_waves, ..shells }) == r
            &&& acted(shells, Action::ToggleWaves, presets) == r
            &&& volume.show_volume != r.show_volume
            &&& (RendererModel { show_volume: r.show_volume, ..volume }) == r
            &&& acted(volume, Action::ToggleVolume, presets) == r
        }),
{
}

/// Plane and colors come round after three presses, and change at each of them; they
/// change nothing else. Particles that are shown again are placed anew.
pub proof fn law_cycles_and_particles(r: RendererModel, presets: Seq<Preset>)
    ensures
        ({
            let plane = acted(r, Action::CycleAxis, presets);
            let color = acted(r, Action::CycleColor, presets);
            let dots = acted(r, Action::ToggleParticles, presets);
            &&& plane.slice_axis != r.slice_axis
            &&& (RendererModel { slice_axis: r.slice_axis, ..plane }) == r
            &&& acted(
                acted(plane, Action::CycleAxis, presets),
                Action::CycleAxis,
                presets,
            ) == r
            &&& color.color_mode != r.color_mode
            &&& (RendererModel { color_mode: r.color_mode, ..color }) == r
            &&& acted(
                acted(color, Action::CycleColor, presets),
                Action::CycleColor,
                presets,
            ) == r
            &&& dots.show_particles != r.show_particles
            &&& dots.show_particles ==> dots.needs_particle_init
            &&& r.show_particles ==> dots.needs_particle_init == r.needs_particle_init
            &&& (RendererModel {
                show_particles: r.show_particles,
                needs_particle_init: r.needs_particle_init,
                ..dots
            }) == r
        }),
{
}

/// The keys for the pace of time and for the slice leave the viewer's state alone; a digit
/// shows its preset; and the key for a shell starts one at the nucleus, bright red and
/// green with a fifth of blue, which grows by one Bohr radius a second up to thirty.
pub proof fn law_other_keys_act(r: RendererModel, presets: Seq<Preset>, i: usize)
    requires
        i < presets.len(),
    ensures
        acted(r, Action::Faster, presets) == r,
        acted(r, Action::Slower, presets) == r,
        acted(r, Action::SliceBack, presets) == r,
        acted(r, Action::SliceForward, presets) == r,
        acted(r, Action::Preset(i), presets).components == presets[i as int].components@,
        acted(r, Action::Preset(i), presets).max_density == presets[i as int].max_density,
        acted(r, Action::Preset(i), presets).needs_particle_init,
        ({
            let after = acted(r, Action::EmitWave, presets);
            let w = after.waves.last();
            &&& (RendererModel { waves: r.waves, ..after }) == r
            &&& r.waves.len() < 64 ==> after.waves.len() == r.waves.len() + 1
            &&& w.origin.x == 0 && w.origin.y == 0 && w.origin.z == 0
            &&& floats::is_next_to(w.color.x, 1, 1, 23)
            &&& floats::is_next_to(w.color.y, 1, 1, 23)
            &&& floats::is_next_to(w.color.z, 2, 10, 26)
            &&& floats::is_next_to(w.max_radius, 30, 1, 19)
            &&& floats::is_next_to(w.speed, 1, 1, 23)
            &&& w.radius == 0 && w.age == 0 && w.alive
        }),
{
    floats::lemma_powers();
}

} // verus!
