use xplane_plugins::shuttle::{
    disable, enable, new_state, start, stop, DisplayState, DrawStep, DrawView, HudPhase, ShuttleControls,
    ShuttleState, ViewRequest,
};

fn controls() -> ShuttleControls {
    ShuttleControls {
        enabled: 1,
        declutter_mode: -1,
        att_ref_caged: 0,
        plugin_enabled: 0,
        active: 1,
        cockpit_active: 1,
        runway_projection_valid: 1,
        runway_index: 0,
        chute_reefing_active: 1,
        draw_frames: 0,
        cockpit_draw_frames: 0,
    }
}

fn display() -> DisplayState {
    DisplayState {
        phase: HudPhase::Hdg,
        main: false,
        nose: false,
        automatic: false,
        ground_declutter: 0,
    }
}

fn state() -> ShuttleState {
    ShuttleState {
        controls: controls(),
        matched: true,
        plugin_enabled: true,
        runway_index: 0,
        runway_count: 3,
        display: display(),
        chute_owned: true,
        view_saved: false,
    }
}

#[test]
fn aircraft_match_needs_a_known_path() {
    assert!(xplane_plugins::shuttle::matches("a/Orbiter_Glider.acf", "a/Orbiter_Glider.acf"));
    assert!(!xplane_plugins::shuttle::matches("b/Orbiter_Glider.acf", "a/Orbiter_Glider.acf"));
    assert!(!xplane_plugins::shuttle::matches("", ""));
}

#[test]
fn phase_labels_and_ranks() {
    assert_eq!(HudPhase::Prfnl.label(), "PRFNL");
    assert_eq!(HudPhase::Fnlfl.label(), "FNLFL");
    assert_eq!(HudPhase::Acq.rank(), 0);
    assert_eq!(HudPhase::Fnlfl.rank(), 6);
}

#[test]
fn display_visibility_follows_phase_and_touchdown() {
    let mut d = display();
    assert!(d.nz_visible());
    assert!(d.guidance_visible());
    d.phase = HudPhase::Fnlfl;
    assert!(!d.guidance_visible());
    d.automatic = true;
    assert!(d.guidance_visible());
    assert!(!d.nz_visible());
    assert_eq!(d.level(3, 1), 3);
    assert_eq!(d.level(-1, 2), 2);
    assert_eq!(d.level(9, 0), 3);
    d.main = true;
    assert!(!d.guidance_visible());
    assert_eq!(d.level(3, 1), 0);
    assert!(d.attitude_visible(0) && d.horizon_visible(0));
    d.nose = true;
    assert!(!d.attitude_visible(0) && !d.horizon_visible(0));
    d.ground_declutter = 2;
    assert_eq!(d.level(0, 0), 3);
}

#[test]
fn flags_encode_what_is_shown() {
    let d = display();
    assert_eq!(d.flags(3), 1);
    assert_eq!(d.flags(0), 1 + 2 + 4 + 8 + 16 + 32 + 128 + 256);
    let mut ground = display();
    ground.main = true;
    assert_eq!(ground.flags(0), 1 + 8 + 16 + 64);
    assert_eq!(ground.flags(1), 1 + 64);
}

#[test]
fn commands_step_the_controls() {
    let mut s = state();
    let (effects, result) = s.command(1);
    assert_eq!(s.controls.enabled, 0);
    assert_eq!(result, 1);
    assert!(!effects.restore_view);
    s.command(1);
    assert_eq!(s.controls.enabled, 1);
    s.command(2);
    assert_eq!(s.controls.declutter_mode, 0);
    for _ in 0..4 {
        s.command(2);
    }
    assert_eq!(s.controls.declutter_mode, 0);
    s.command(3);
    s.command(3);
    assert_eq!(s.runway_index, 2);
    let (effects, _) = s.command(3);
    assert_eq!(s.runway_index, 0);
    assert_eq!(s.controls.runway_index, 0);
    assert!(effects.probe_terrain);
    let (effects, _) = s.command(5);
    assert_eq!(effects.view, ViewRequest::Fullscreen);
    assert!(effects.save_view);
    assert!(s.view_saved);
    let (effects, _) = s.command(5);
    assert_eq!(effects.view, ViewRequest::Fullscreen);
    assert!(!effects.save_view);
    assert!(s.view_saved);
    let (effects, result) = s.command(4);
    assert_eq!(effects.view, ViewRequest::Cockpit);
    assert!(effects.restore_view);
    assert_eq!(result, 0);
    assert!(!s.view_saved);
    s.command(7);
    assert_eq!(s.controls.att_ref_caged, 1);
    s.display.main = true;
    s.command(2);
    s.command(2);
    assert_eq!(s.display.ground_declutter, 2);
    s.command(2);
    assert_eq!(s.display.ground_declutter, 0);
    s.command(6);
    assert_eq!(s.controls.declutter_mode, -1);
    let mut other = state();
    other.matched = false;
    let before = other;
    assert_eq!(other.command(1).1, 1);
    assert_eq!(other, before);
}

#[test]
fn written_controls_are_brought_back_in_range() {
    let mut s = state();
    s.controls.enabled = 5;
    s.controls.declutter_mode = 9;
    s.controls.att_ref_caged = -2;
    let effects = s.controls_changed();
    assert_eq!(s.controls.enabled, 1);
    assert_eq!(s.controls.declutter_mode, 3);
    assert_eq!(s.controls.att_ref_caged, 1);
    assert!(!effects.restore_view);
    s.controls.enabled = 0;
    s.controls.declutter_mode = -7;
    s.view_saved = true;
    let effects = s.controls_changed();
    assert_eq!(s.controls.declutter_mode, -1);
    assert_eq!(s.controls.runway_projection_valid, 0);
    assert!(effects.restore_view);
    assert!(!s.view_saved);
}

#[test]
fn lifecycle_enables_disables_and_stops() {
    let mut slot = None;
    assert!(!start(&mut slot, Err("no config".to_owned())));
    assert!(slot.is_none());
    assert!(!enable(&mut slot));
    assert!(start(&mut slot, Ok(state())));
    assert!(enable(&mut slot));
    assert_eq!(slot.unwrap().controls.plugin_enabled, 1);
    let effects = disable(&mut slot).unwrap();
    assert!(effects.restore_chute_area);
    assert!(effects.reset_chute_ratio);
    let s = slot.unwrap();
    assert!(!s.plugin_enabled);
    assert!(!s.chute_owned);
    assert_eq!(s.controls.active, 0);
    assert!(stop(&mut slot).is_some());
    assert!(slot.is_none());
    assert!(stop(&mut slot).is_none());
}

fn window_view(view_type: i32) -> DrawView {
    DrawView {
        panel: false,
        powered: true,
        render_type: 2,
        view_type,
        vr_enabled: false,
        screen_width: 1920,
        screen_height: 1080,
    }
}

#[test]
fn the_window_is_painted_in_the_full_screen_view_only() {
    let mut s = state();
    let step = s.draw_start(window_view(1024));
    assert_eq!(step, DrawStep { clear_panel: false, paint: true });
    assert_eq!((s.controls.active, s.controls.cockpit_active), (0, 0));
    assert_eq!(s.controls.runway_projection_valid, 1);
    s.painted(false, 1024, false);
    assert_eq!(s.controls.active, 1);
    assert_eq!(s.controls.runway_projection_valid, 0);
    assert_eq!(s.controls.draw_frames, 1);

    let mut s = state();
    s.controls.cockpit_draw_frames = 3;
    let step = s.draw_start(window_view(1026));
    assert_eq!(step, DrawStep { clear_panel: false, paint: false });
    assert_eq!((s.controls.active, s.controls.cockpit_active), (1, 1));

    let mut s = state();
    let step = s.draw_start(DrawView { vr_enabled: true, ..window_view(1024) });
    assert!(!step.paint);
    let step = s.draw_start(DrawView { screen_height: 0, ..window_view(1024) });
    assert!(!step.paint);
}

#[test]
fn an_unpowered_hud_is_not_drawn_and_its_projection_is_invalid() {
    let mut s = state();
    let step = s.draw_start(DrawView { powered: false, ..window_view(1024) });
    assert!(!step.paint);
    assert_eq!(s.controls.runway_projection_valid, 0);

    let mut s = state();
    let step = s.draw_start(DrawView { panel: true, powered: false, ..window_view(1026) });
    assert_eq!(step, DrawStep { clear_panel: true, paint: false });
    assert_eq!(s.controls.cockpit_active, 0);
    assert_eq!(s.controls.runway_projection_valid, 0);
}

#[test]
fn the_panel_is_cleared_and_painted_in_the_3d_cockpit() {
    let mut s = state();
    let panel = DrawView { panel: true, ..window_view(1026) };
    assert_eq!(s.draw_start(DrawView { render_type: 0, ..panel }), DrawStep { clear_panel: false, paint: false });
    assert_eq!(s.draw_start(DrawView { render_type: 1, ..panel }), DrawStep { clear_panel: true, paint: false });
    assert_eq!(s.draw_start(panel), DrawStep { clear_panel: true, paint: true });
    s.controls.cockpit_draw_frames = i32::MAX;
    s.painted(true, 1026, true);
    assert_eq!(s.controls.cockpit_draw_frames, i32::MAX);
    assert_eq!((s.controls.active, s.controls.cockpit_active), (1, 1));
    assert_eq!(s.controls.runway_projection_valid, 1);
    s.matched = false;
    assert_eq!(s.draw_start(panel), DrawStep { clear_panel: false, paint: false });
    assert_eq!(s.controls.runway_projection_valid, 0);
}

#[test]
fn a_new_hud_needs_a_runway_and_starts_with_the_symbology_on() {
    assert!(new_state(0).is_none());
    let s = new_state(4).unwrap();
    assert_eq!(s.controls.enabled, 1);
    assert_eq!(s.controls.declutter_mode, -1);
    assert_eq!(s.controls.runway_index, 0);
    assert_eq!(s.controls.active, 0);
    assert_eq!(s.runway_count, 4);
    assert_eq!(s.display.phase, HudPhase::Acq);
    assert!(!s.matched && !s.plugin_enabled && !s.view_saved && !s.chute_owned);
}
