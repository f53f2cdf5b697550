use quantum_atom_viz::controls::{
    key_bindings, mouse_drags, perform, take_actions, Action, KeyBinding, EMITTED_RADIUS_BITS,
    EMITTED_SPEED_BITS, FIFTH_BITS, VK_1, VK_B, VK_C, VK_E, VK_LEFT_KEY, VK_OEM_MINUS, VK_OEM_PLUS,
    VK_P, VK_RIGHT_KEY, VK_S, VK_SPACE, VK_V, VK_W, VK_X,
};
use quantum_atom_viz::device::DeviceCaps;
use quantum_atom_viz::floats::{ONE_BITS, ZERO_BITS};
use quantum_atom_viz::presets::presets;
use quantum_atom_viz::renderer::{ColorMode, SliceAxis, ViewMode, VulkanRenderer};
use quantum_atom_viz::swapchain::Extent;
use quantum_atom_viz::waves::Triple;
use quantum_atom_viz::win32::{
    hiword_i16, loword_i16, wstr, MouseState, PumpStep, Reaction, Window, IDC_ARROW, VK_ESCAPE,
    WM_CLOSE, WM_DESTROY, WM_KEYDOWN, WM_LBUTTONDOWN, WM_LBUTTONUP, WM_MOUSEMOVE, WM_MOUSEWHEEL,
    WM_QUIT, WM_RBUTTONDOWN, WM_RBUTTONUP, WM_SIZE,
};

fn window() -> Window {
    Window::new(1280, 720)
}

fn press(w: &mut Window, vk: usize) {
    assert_eq!(w.window_proc(WM_KEYDOWN, vk, 0), Reaction::Answer(0));
}

fn at(x: i16, y: i16) -> isize {
    ((x as u16 as u32) | ((y as u16 as u32) << 16)) as isize
}

fn viewer() -> VulkanRenderer {
    let caps = DeviceCaps {
        vendor_id: 0x10DE,
        device_id: 1,
        device_name: "Test adapter".to_string(),
        driver_version: 2,
        api_version: 3,
        graphics_family: 0,
        async_compute_family: Some(2),
        subgroup_size: 32,
        device_type: 2,
        device_memory_mb: 4096,
    };
    VulkanRenderer::new(caps, Extent { width: 1280, height: 720 }, 3)
}

#[test]
fn wide_strings_end_in_null() {
    assert_eq!(wstr(""), vec![0]);
    assert_eq!(wstr("Qz"), vec![0x51, 0x7A, 0]);
    assert_eq!(wstr("\u{e9}"), vec![0xE9, 0]);
    assert_eq!(wstr("\u{1D11E}"), vec![0xD834, 0xDD1E, 0]);
}

#[test]
fn wide_strings_agree_with_std() {
    for s in ["QuantumAtomVizClass", "\u{fffd}a\u{10ffff}", "\u{10000}\u{d7ff}\u{e000}"] {
        let mut expected: Vec<u16> = s.encode_utf16().collect();
        expected.push(0);
        assert_eq!(wstr(s), expected);
    }
}

#[test]
fn wide_strings_read_back() {
    let units = wstr("a\u{1F600}b");
    assert_eq!(String::from_utf16(&units[..units.len() - 1]).unwrap(), "a\u{1F600}b");
}

#[test]
fn wide_strings_have_no_other_null() {
    let units = wstr("Quantum Atom \u{10000}");
    assert_eq!(units.iter().position(|u| *u == 0), Some(units.len() - 1));
    assert_eq!(wstr("a\0b"), vec![0x61, 0, 0x62, 0]);
}

#[test]
fn arrow_cursor_number() {
    assert_eq!(IDC_ARROW(), 32512);
}

#[test]
fn words_are_signed() {
    assert_eq!(loword_i16(0x1234_8000), -32768);
    assert_eq!(loword_i16(0xFFFF_7FFF), 32767);
    assert_eq!(hiword_i16(0x8000_1234), -32768);
    assert_eq!(hiword_i16(0xFFFF_0000), -1);
    assert_eq!(hiword_i16(0x0078_0000), 120);
}

#[test]
fn a_press_is_taken_once() {
    let mut w = window();
    assert!(!w.consume_key(0x41));
    press(&mut w, 0x41);
    assert!(w.consume_key(0x41));
    assert!(!w.consume_key(0x41));
    press(&mut w, 0x41);
    assert!(w.consume_key(0x41));
}

#[test]
fn each_press_is_taken_once() {
    let mut w = window();
    press(&mut w, 0x41);
    press(&mut w, 0x41);
    press(&mut w, 0x42);
    assert!(w.consume_key(0x41));
    assert!(w.consume_key(0x41));
    assert!(!w.consume_key(0x41));
    assert!(w.consume_key(0x42));
    assert!(!w.consume_key(0x42));
}

#[test]
fn as_many_takes_as_presses() {
    let mut w = window();
    let mut taken = 0;
    for i in 0..100 {
        press(&mut w, VK_V);
        if i % 3 == 0 && w.consume_key(VK_V) {
            taken += 1;
        }
    }
    while w.consume_key(VK_V) {
        taken += 1;
    }
    assert_eq!(taken, 100);
    assert_eq!(w.keys.waiting[VK_V], 0);
}

#[test]
fn a_full_count_stays() {
    let mut w = window();
    w.keys.waiting[0x41] = u64::MAX;
    press(&mut w, 0x41);
    assert_eq!(w.keys.waiting[0x41], u64::MAX);
    assert!(w.consume_key(0x41));
    assert_eq!(w.keys.waiting[0x41], u64::MAX - 1);
}

#[test]
fn keys_outside_the_table_are_dropped() {
    let mut w = window();
    press(&mut w, 256);
    press(&mut w, usize::MAX);
    assert!(!w.consume_key(256));
    assert!(!w.consume_key(usize::MAX));
    press(&mut w, 255);
    assert!(w.consume_key(255));
    assert!(!w.consume_key(0));
}

#[test]
fn reactions_to_messages() {
    let mut w = window();
    assert_eq!(w.window_proc(WM_DESTROY, 0, 0), Reaction::PostQuit(0));
    assert_eq!(w.window_proc(WM_SIZE, 0, 0), Reaction::Default);
    assert_eq!(w.window_proc(WM_QUIT, 0, 0), Reaction::Default);
    assert_eq!(w.window_proc(WM_LBUTTONDOWN, 0, 0), Reaction::Answer(0));
    assert_eq!(w.window_proc(WM_RBUTTONUP, 0, 0), Reaction::Answer(0));
    assert!(!w.quit_requested);
}

#[test]
fn close_escape_and_quit_end_the_pump() {
    let mut w = window();
    assert_eq!(w.pump(None), PumpStep::Finished(true));
    assert_eq!(w.pump(Some(WM_SIZE)), PumpStep::Dispatch);
    assert_eq!(w.pump(None), PumpStep::Finished(true));
    assert_eq!(w.pump(Some(WM_QUIT)), PumpStep::Dispatch);
    assert_eq!(w.pump(None), PumpStep::Finished(false));

    let mut w = window();
    w.window_proc(WM_CLOSE, 0, 0);
    assert_eq!(w.pump(None), PumpStep::Finished(false));

    let mut w = window();
    press(&mut w, VK_ESCAPE);
    assert_eq!(w.pump(None), PumpStep::Finished(false));
    press(&mut w, 0x41);
    assert_eq!(w.pump(None), PumpStep::Finished(false));
    assert!(w.consume_key(VK_ESCAPE));
}

#[test]
fn the_mouse_travels_from_where_it_first_was() {
    let mut w = window();
    w.window_proc(WM_MOUSEMOVE, 0, at(100, 50));
    w.window_proc(WM_MOUSEMOVE, 0, at(110, 40));
    w.window_proc(WM_MOUSEMOVE, 0, at(-5, 41));
    let m = w.poll_mouse();
    assert_eq!((m.dx, m.dy), (-105, -9));
    let m = w.poll_mouse();
    assert_eq!((m.dx, m.dy), (0, 0));
    w.window_proc(WM_MOUSEMOVE, 0, at(0, 0));
    let m = w.poll_mouse();
    assert_eq!((m.dx, m.dy), (5, -41));
}

#[test]
fn buttons_and_wheel() {
    let mut w = window();
    w.window_proc(WM_LBUTTONDOWN, 0, 0);
    w.window_proc(WM_RBUTTONDOWN, 0, 0);
    w.window_proc(WM_MOUSEWHEEL, 0x0078_0000, 0);
    w.window_proc(WM_MOUSEWHEEL, 0xFF88_0000, 0);
    let m = w.poll_mouse();
    assert!(m.left && m.right);
    assert_eq!(m.wheel, vec![120, -120]);
    w.window_proc(WM_LBUTTONUP, 0, 0);
    w.window_proc(WM_RBUTTONUP, 0, 0);
    let m = w.poll_mouse();
    assert!(!m.left && !m.right);
    assert!(m.wheel.is_empty());
}

#[test]
fn bindings_in_order() {
    let all = key_bindings(2);
    assert_eq!(all.len(), 15);
    assert_eq!(all[0], KeyBinding { key: 0x31, action: Action::Preset(0) });
    assert_eq!(all[1], KeyBinding { key: 0x32, action: Action::Preset(1) });
    assert_eq!(all[2], KeyBinding { key: 0xBB, action: Action::Faster });
    assert_eq!(all[14], KeyBinding { key: 0x27, action: Action::SliceForward });
    assert_eq!(key_bindings(9).len(), 22);
    assert_eq!(key_bindings(40).len(), 22);
    assert_eq!(key_bindings(40)[8], KeyBinding { key: 0x39, action: Action::Preset(8) });
}

#[test]
fn no_key_is_bound_twice() {
    let all = key_bindings(9);
    for i in 0..all.len() {
        for j in 0..i {
            assert_ne!(all[i].key, all[j].key);
        }
    }
}

#[test]
fn every_key_asks_for_its_action() {
    let pairs = [
        (VK_1 + 3, Action::Preset(3)),
        (VK_OEM_PLUS, Action::Faster),
        (VK_OEM_MINUS, Action::Slower),
        (VK_SPACE, Action::ToggleOrbit),
        (VK_V, Action::ToggleView),
        (VK_S, Action::CycleAxis),
        (VK_C, Action::CycleColor),
        (VK_X, Action::ToggleContour),
        (VK_P, Action::ToggleParticles),
        (VK_W, Action::ToggleWaves),
        (VK_B, Action::ToggleVolume),
        (VK_E, Action::EmitWave),
        (VK_LEFT_KEY, Action::SliceBack),
        (VK_RIGHT_KEY, Action::SliceForward),
    ];
    for (vk, action) in pairs {
        let mut w = window();
        press(&mut w, vk);
        assert_eq!(take_actions(&mut w, 9), vec![action]);
        assert!(take_actions(&mut w, 9).is_empty());
    }
}

#[test]
fn actions_come_in_the_order_of_the_bindings() {
    let mut w = window();
    press(&mut w, VK_RIGHT_KEY);
    press(&mut w, VK_V);
    press(&mut w, 0x34);
    press(&mut w, 0x51);
    press(&mut w, 0x32);
    assert_eq!(
        take_actions(&mut w, 9),
        vec![Action::Preset(1), Action::Preset(3), Action::ToggleView, Action::SliceForward]
    );
    assert!(w.consume_key(0x51));
    press(&mut w, VK_V);
    press(&mut w, VK_V);
    assert_eq!(take_actions(&mut w, 9), vec![Action::ToggleView]);
    assert_eq!(take_actions(&mut w, 9), vec![Action::ToggleView]);
    assert!(take_actions(&mut w, 9).is_empty());
    press(&mut w, 0x39);
    assert!(take_actions(&mut w, 8).is_empty());
    assert!(w.consume_key(0x39));
}

#[test]
fn keys_change_the_state() {
    let all = presets([1, 2, 3, 4]);
    let mut r = viewer();
    perform(&mut r, Action::ToggleOrbit, &all);
    assert!(!r.auto_orbit);
    perform(&mut r, Action::ToggleView, &all);
    assert_eq!(r.view_mode, ViewMode::Heatmap);
    perform(&mut r, Action::CycleAxis, &all);
    assert_eq!(r.slice_axis, SliceAxis::YZ);
    perform(&mut r, Action::CycleColor, &all);
    assert_eq!(r.color_mode, ColorMode::Phase);
    perform(&mut r, Action::ToggleContour, &all);
    assert!(!r.show_contour);
    perform(&mut r, Action::ToggleWaves, &all);
    assert!(!r.show_waves);
    perform(&mut r, Action::ToggleVolume, &all);
    assert!(!r.show_volume);
    perform(&mut r, Action::Preset(2), &all);
    assert_eq!(r.components, all[2].components);
    assert_eq!(r.max_density, 0.015f32.to_bits());
    assert!(r.needs_particle_init);
    perform(&mut r, Action::Faster, &all);
    perform(&mut r, Action::SliceBack, &all);
    assert_eq!(r.max_density, 0.015f32.to_bits());
}

#[test]
fn showing_particles_places_them_anew() {
    let all = presets([1, 2, 3, 4]);
    let mut r = viewer();
    r.needs_particle_init = false;
    perform(&mut r, Action::ToggleParticles, &all);
    assert!(r.show_particles && r.needs_particle_init);
    r.needs_particle_init = false;
    perform(&mut r, Action::ToggleParticles, &all);
    assert!(!r.show_particles && !r.needs_particle_init);
}

#[test]
fn the_emitted_shell_is_yellow() {
    assert_eq!(ONE_BITS, 1.0f32.to_bits());
    assert_eq!(FIFTH_BITS, 0.2f32.to_bits());
    assert_eq!(EMITTED_RADIUS_BITS, 30.0f32.to_bits());
    assert_eq!(EMITTED_SPEED_BITS, 1.0f32.to_bits());
    assert_eq!(ZERO_BITS, 0.0f32.to_bits());
    let mut r = viewer();
    perform(&mut r, Action::EmitWave, &presets([1, 2, 3, 4]));
    assert_eq!(r.waves.len(), 1);
    let w = r.waves[0];
    assert_eq!(w.origin, Triple { x: 0, y: 0, z: 0 });
    assert_eq!(w.color, Triple { x: ONE_BITS, y: ONE_BITS, z: FIFTH_BITS });
    assert_eq!((w.radius, w.age, w.alive), (0, 0, true));
    assert_eq!((w.max_radius, w.speed), (EMITTED_RADIUS_BITS, EMITTED_SPEED_BITS));
}

fn mouse(dx: i32, dy: i32, left: bool) -> MouseState {
    MouseState { dx, dy, wheel: Vec::new(), left, right: false }
}

#[test]
fn dragging_stops_the_orbit() {
    let mut r = viewer();
    assert!(!mouse_drags(&mut r, &mouse(3, 4, false)));
    assert!(r.auto_orbit);
    assert!(!mouse_drags(&mut r, &mouse(0, 0, true)));
    assert!(r.auto_orbit);
    assert!(mouse_drags(&mut r, &mouse(0, -1, true)));
    assert!(!r.auto_orbit);
    assert!(!mouse_drags(&mut r, &mouse(0, 0, true)));
    assert!(!r.auto_orbit);
}
