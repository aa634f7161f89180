//! The Shuttle HUD: display phases and what each declutter level shows, the
//! integer controls it publishes to the cockpit, its commands, and its
//! enable/disable lifecycle.
use vstd::prelude::*;
use crate::arith::{rem_i32, trem};
use crate::text::str_eq;

verus! {

/// Whether the loaded aircraft is the one the HUD is installed in: the
/// expected path is known and the loaded one is the same.
pub open spec fn spec_matches(loaded: Seq<char>, expected: Seq<char>) -> bool {
    expected.len() > 0 && loaded == expected
}

/// Whether the loaded aircraft is the one the HUD is installed in.
pub fn matches(loaded: &str, expected: &str) -> (r: bool)
    ensures
        r == spec_matches(loaded@, expected@),
{
    !expected.is_empty() && str_eq(loaded, expected)
}

/// The phases of the approach display, in the order in which they follow.
#[derive(Clone, Copy, Debug, PartialEq, Eq, Structural)]
pub enum HudPhase {
    Acq,
    Hdg,
    Prfnl,
    Capt,
    Ogs,
    Flare,
    Fnlfl,
}

/// The rank of a phase in the approach order (as published to the cockpit).
pub open spec fn phase_rank(phase: HudPhase) -> int {
    match phase {
        HudPhase::Acq => 0,
        HudPhase::Hdg => 1,
        HudPhase::Prfnl => 2,
        HudPhase::Capt => 3,
        HudPhase::Ogs => 4,
        HudPhase::Flare => 5,
        HudPhase::Fnlfl => 6,
    }
}

impl HudPhase {
    /// The annunciation shown for the phase.
    pub fn label(self) -> (r: &'static str)
        ensures
            r@ == match self {
                HudPhase::Acq => "ACQ"@,
                HudPhase::Hdg => "HDG"@,
                HudPhase::Prfnl => "PRFNL"@,
                HudPhase::Capt => "CAPT"@,
                HudPhase::Ogs => "OGS"@,
                HudPhase::Flare => "FLARE"@,
                HudPhase::Fnlfl => "FNLFL"@,
            },
    {
        match self {
            HudPhase::Acq => "ACQ",
            HudPhase::Hdg => "HDG",
            HudPhase::Prfnl => "PRFNL",
            HudPhase::Capt => "CAPT",
            HudPhase::Ogs => "OGS",
            HudPhase::Flare => "FLARE",
            HudPhase::Fnlfl => "FNLFL",
        }
    }

    /// The rank of the phase in the approach order, as published.
    pub fn rank(self) -> (r: i32)
        ensures
            r == phase_rank(self),
    {
        match self {
            HudPhase::Acq => 0,
            HudPhase::Hdg => 1,
            HudPhase::Prfnl => 2,
            HudPhase::Capt => 3,
            HudPhase::Ogs => 4,
            HudPhase::Flare => 5,
            HudPhase::Fnlfl => 6,
        }
    }
}

/// What the display sequencing has decided, as far as the choice of the
/// symbols shown depends on it.
#[derive(Clone, Copy, Debug, PartialEq, Eq, Structural)]
pub struct DisplayState {
    pub phase: HudPhase,
    /// The main gear has touched down.
    pub main: bool,
    /// The nose gear has touched down after the main gear.
    pub nose: bool,
    /// The autopilot flies the approach.
    pub automatic: bool,
    /// Declutter level chosen by hand on the ground (0 to 2).
    pub ground_declutter: i32,
}

/// Guidance is shown in flight, and in the final flare only under autopilot.
pub open spec fn spec_guidance_visible(d: DisplayState) -> bool {
    !d.main && (d.phase != HudPhase::Fnlfl || d.automatic)
}

/// The load-factor readout is shown in flight before the prefinal phase.
pub open spec fn spec_nz_visible(d: DisplayState) -> bool {
    !d.main && phase_rank(d.phase) < phase_rank(HudPhase::Prfnl)
}

/// Attitude symbols are shown until the nose is down: on the ground at level
/// 0 only, in flight below level 2.
pub open spec fn spec_attitude_visible(d: DisplayState, level: int) -> bool {
    !d.nose && (if d.main { level == 0 } else { level < 2 })
}

/// The horizon is shown until the nose is down, below level 3, and on the
/// ground at level 0 only.
pub open spec fn spec_horizon_visible(d: DisplayState, level: int) -> bool {
    !d.nose && level < 3 && (!d.main || level == 0)
}

/// Bit `k` of a flag word when `b` holds.
pub open spec fn bit(b: bool, k: int) -> int {
    if b { k } else { 0 }
}

/// The published display flags: at level 3 only bit 0; else bit 0 always,
/// 2 in flight, 4 guidance, 8 horizon, 16 attitude, 32 in flight below level
/// 2, 64 on the ground, 128 load factor, 256 in flight at level 0.
pub open spec fn spec_flags(d: DisplayState, level: int) -> int {
    if level == 3 {
        1
    } else {
        1 + bit(!d.main, 2) + bit(spec_guidance_visible(d), 4) + bit(spec_horizon_visible(d, level), 8)
            + bit(spec_attitude_visible(d, level), 16) + bit(!d.main && level < 2, 32) + bit(d.main, 64)
            + bit(spec_nz_visible(d), 128) + bit(!d.main && level == 0, 256)
    }
}

/// The declutter level shown: on the ground the hand-chosen level, its
/// highest step (2) showing as level 3; in flight the level chosen by hand
/// (clamped to 0..=3), or when none is chosen (a negative mode) the automatic
/// level for the height.
pub open spec fn spec_level(d: DisplayState, mode: int, height_level: int) -> int {
    if d.main {
        if d.ground_declutter == 2 { 3 } else { d.ground_declutter as int }
    } else if mode < 0 {
        height_level
    } else if mode > 3 {
        3
    } else {
        mode
    }
}

impl DisplayState {
    /// Whether guidance is shown.
    pub fn guidance_visible(&self) -> (r: bool)
        ensures
            r == spec_guidance_visible(*self),
    {
        !self.main && (self.phase != HudPhase::Fnlfl || self.automatic)
    }

    /// Whether the load-factor readout is shown.
    pub fn nz_visible(&self) -> (r: bool)
        ensures
            r == spec_nz_visible(*self),
    {
        !self.main && self.phase.rank() < HudPhase::Prfnl.rank()
    }

    /// Whether the attitude symbols are shown at declutter `level`.
    pub fn attitude_visible(&self, level: i32) -> (r: bool)
        ensures
            r == spec_attitude_visible(*self, level as int),
    {
        !self.nose && (if self.main { level == 0 } else { level < 2 })
    }

    /// Whether the horizon is shown at declutter `level`.
    pub fn horizon_visible(&self, level: i32) -> (r: bool)
        ensures
            r == spec_horizon_visible(*self, level as int),
    {
        !self.nose && level < 3 && (!self.main || level == 0)
    }

    /// The display flags published for declutter `level`.
    pub fn flags(&self, level: i32) -> (r: i32)
        ensures
            r == spec_flags(*self, level as int),
    {
        if level == 3 {
            return 1;
        }
        let mut f: i32 = 1;
        if !self.main {
            f = f + 2;
        }
        if self.guidance_visible() {
            f = f + 4;
        }
        if self.horizon_visible(level) {
            f = f + 8;
        }
        if self.attitude_visible(level) {
            f = f + 16;
        }
        if !self.main && level < 2 {
            f = f + 32;
        }
        if self.main {
            f = f + 64;
        }
        if self.nz_visible() {
            f = f + 128;
        }
        if !self.main && level == 0 {
            f = f + 256;
        }
        f
    }

    /// The declutter level shown, for declutter `mode` and the automatic
    /// level `height_level` that the height calls for.
    pub fn level(&self, mode: i32, height_level: i32) -> (r: i32)
        ensures
            r == spec_level(*self, mode as int, height_level as int),
    {
        if self.main {
            if self.ground_declutter == 2 {
                3
            } else {
                self.ground_declutter
            }
        } else if mode < 0 {
            height_level
        } else if mode > 3 {
            3
        } else {
            mode
        }
    }
}

/// At the highest declutter level only the base flag is set; below it the
/// base flag is always set, the flight and ground flags exclude each other,
/// and guidance and the load factor are never shown on the ground.
pub proof fn lemma_flags_shape(d: DisplayState, level: int)
    ensures
        level == 3 ==> spec_flags(d, level) == 1,
        spec_flags(d, level) % 2 == 1,
        0 < spec_flags(d, level) < 512,
        d.main ==> !spec_guidance_visible(d) && !spec_nz_visible(d),
        d.nose ==> !spec_attitude_visible(d, level) && !spec_horizon_visible(d, level),
{
}

/// The integer controls the HUD publishes to the cockpit (`fsim_hud/...`).
#[derive(Clone, Copy, Debug, PartialEq, Eq, Structural)]
pub struct ShuttleControls {
    /// Symbology switched on (writable).
    pub enabled: i32,
    /// Declutter mode chosen in flight, -1 for automatic (writable).
    pub declutter_mode: i32,
    /// Attitude reference caged horizontally (writable).
    pub att_ref_caged: i32,
    pub plugin_enabled: i32,
    pub active: i32,
    pub cockpit_active: i32,
    pub runway_projection_valid: i32,
    pub runway_index: i32,
    pub chute_reefing_active: i32,
    /// Frames the HUD has drawn.
    pub draw_frames: i32,
    /// Frames the HUD has drawn on the cockpit panel.
    pub cockpit_draw_frames: i32,
}

/// The state of the HUD that its controls, commands and lifecycle decide on.
#[derive(Clone, Copy, Debug, PartialEq, Eq, Structural)]
pub struct ShuttleState {
    pub controls: ShuttleControls,
    /// The loaded aircraft is the one the HUD is installed in.
    pub matched: bool,
    /// X-Plane has the plugin enabled.
    pub plugin_enabled: bool,
    /// The selected runway, an index into the runway list.
    pub runway_index: usize,
    /// The number of runways; never zero.
    pub runway_count: usize,
    pub display: DisplayState,
    /// The HUD has taken over the drag chute area.
    pub chute_owned: bool,
    /// The HUD has changed the view and keeps the previous one to restore.
    pub view_saved: bool,
}

/// The view the HUD asks X-Plane for.
#[derive(Clone, Copy, Debug, PartialEq, Eq, Structural)]
pub enum ViewRequest {
    Keep,
    /// The 3-D cockpit looking forward, after selecting a runway.
    Cockpit,
    /// The full-screen HUD, after selecting a runway (and saving the current
    /// view when `save_view` says so).
    Fullscreen,
}

/// What the caller of a HUD decision performs in the simulator.
#[derive(Clone, Copy, Debug, PartialEq, Eq, Structural)]
pub struct ShuttleEffects {
    /// Write the saved view back (field of view and vertical shift).
    pub restore_view: bool,
    /// Restore the drag chute area that the HUD had changed.
    pub restore_chute_area: bool,
    /// Reset the published chute area ratio to 1.
    pub reset_chute_ratio: bool,
    /// Probe the terrain at the selected runway.
    pub probe_terrain: bool,
    /// Save the current view (field of view and vertical shift) before
    /// changing it; only when no view is saved yet.
    pub save_view: bool,
    pub view: ViewRequest,
}

/// No effect at all.
pub open spec fn no_effects() -> ShuttleEffects {
    ShuttleEffects {
        restore_view: false,
        restore_chute_area: false,
        reset_chute_ratio: false,
        probe_terrain: false,
        save_view: false,
        view: ViewRequest::Keep,
    }
}

/// The state once the saved view, if any, has been restored.
pub open spec fn after_restore_view(s: ShuttleState) -> ShuttleState {
    ShuttleState { view_saved: false, ..s }
}

/// The state once the HUD has given the drag chute back.
pub open spec fn after_release_chute(s: ShuttleState) -> ShuttleState {
    ShuttleState {
        chute_owned: false,
        controls: ShuttleControls { chute_reefing_active: 0, ..s.controls },
        ..s
    }
}

/// Whether the view commands act: the aircraft matches, the plugin is enabled
/// and the symbology is on.
pub open spec fn view_allowed(s: ShuttleState) -> bool {
    s.matched && s.plugin_enabled && s.controls.enabled != 0
}

/// Whether the writable controls hold values that a command can step without
/// overflow.
pub open spec fn command_fits(s: ShuttleState) -> bool {
    &&& s.runway_count > 0
    &&& s.runway_index < s.runway_count
    &&& s.display.ground_declutter < i32::MAX
    &&& s.controls.declutter_mode < i32::MAX
}

/// The outcome of HUD command `id`, for the state after the aircraft check:
/// 0 or 4 the cockpit view, 1 symbology on/off, 2 the next declutter level
/// (on the ground of three, in flight of four from automatic), 3 the next
/// runway, 5 the full-screen view, 6 automatic declutter, 7 cage on/off.
/// Nothing happens unless the aircraft matches. The result is 0 (X-Plane's
/// own command is not run) only for the intercepted forward view (4) while
/// the symbology is on.
pub open spec fn spec_command(s: ShuttleState, id: usize) -> (ShuttleState, ShuttleEffects, i32) {
    if !s.matched {
        (s, no_effects(), 1)
    } else {
        let (t, e) = if id == 0 || id == 4 {
            if view_allowed(s) {
                (after_restore_view(s), ShuttleEffects {
                    restore_view: s.view_saved,
                    probe_terrain: true,
                    view: ViewRequest::Cockpit,
                    ..no_effects()
                })
            } else {
                (s, no_effects())
            }
        } else if id == 1 {
            let enabled: i32 = if s.controls.enabled == 0 { 1 } else { 0 };
            let t = ShuttleState { controls: ShuttleControls { enabled, ..s.controls }, ..s };
            if enabled == 0 {
                (after_restore_view(t), ShuttleEffects { restore_view: s.view_saved, ..no_effects() })
            } else {
                (t, no_effects())
            }
        } else if id == 2 {
            if s.display.main {
                (ShuttleState {
                    display: DisplayState {
                        ground_declutter: trem(s.display.ground_declutter + 1, 3) as i32,
                        ..s.display
                    },
                    ..s
                }, no_effects())
            } else {
                let mode: i32 = if s.controls.declutter_mode < 0 {
                    0
                } else {
                    trem(s.controls.declutter_mode + 1, 4) as i32
                };
                (ShuttleState { controls: ShuttleControls { declutter_mode: mode, ..s.controls }, ..s }, no_effects())
            }
        } else if id == 3 {
            let index = ((s.runway_index + 1) % (s.runway_count as int)) as usize;
            (ShuttleState {
                runway_index: index,
                controls: ShuttleControls { runway_index: index as i32, ..s.controls },
                ..s
            }, ShuttleEffects { probe_terrain: true, ..no_effects() })
        } else if id == 5 {
            if view_allowed(s) {
                (ShuttleState { view_saved: true, ..s }, ShuttleEffects {
                    probe_terrain: true,
                    save_view: !s.view_saved,
                    view: ViewRequest::Fullscreen,
                    ..no_effects()
                })
            } else {
                (s, no_effects())
            }
        } else if id == 6 {
            (ShuttleState {
                controls: ShuttleControls { declutter_mode: -1i32, ..s.controls },
                display: DisplayState { ground_declutter: 0, ..s.display },
                ..s
            }, no_effects())
        } else if id == 7 {
            let caged: i32 = if s.controls.att_ref_caged == 0 { 1 } else { 0 };
            (ShuttleState { controls: ShuttleControls { att_ref_caged: caged, ..s.controls }, ..s }, no_effects())
        } else {
            (s, no_effects())
        };
        (t, e, if id == 4 && t.controls.enabled != 0 { 0 } else { 1 })
    }
}

/// The writable controls brought back to their ranges after the cockpit
/// wrote them: symbology and cage to 0 or 1, declutter mode into -1..=3; with
/// the symbology off, the runway projection is invalid and the view restored.
pub open spec fn spec_controls_changed(s: ShuttleState) -> (ShuttleState, ShuttleEffects) {
    let c = s.controls;
    let enabled: i32 = if c.enabled != 0 { 1 } else { 0 };
    let mode: i32 = if c.declutter_mode < -1 { -1i32 } else if c.declutter_mode > 3 { 3 } else { c.declutter_mode };
    let caged: i32 = if c.att_ref_caged != 0 { 1 } else { 0 };
    let t = ShuttleState {
        controls: ShuttleControls { enabled, declutter_mode: mode, att_ref_caged: caged, ..c },
        ..s
    };
    if enabled == 0 {
        (
            after_restore_view(ShuttleState { controls: ShuttleControls { runway_projection_valid: 0, ..t.controls }, ..t }),
            ShuttleEffects { restore_view: s.view_saved, ..no_effects() },
        )
    } else {
        (t, no_effects())
    }
}

/// The HUD disabled: the chute given back, the view restored, and the
/// plugin, activity and projection flags cleared.
pub open spec fn spec_disable(s: ShuttleState) -> (ShuttleState, ShuttleEffects) {
    let t = after_release_chute(s);
    (
        after_restore_view(ShuttleState {
            plugin_enabled: false,
            controls: ShuttleControls {
                plugin_enabled: 0,
                active: 0,
                cockpit_active: 0,
                runway_projection_valid: 0,
                ..t.controls
            },
            ..t
        }),
        ShuttleEffects {
            restore_view: s.view_saved,
            restore_chute_area: s.chute_owned && s.matched,
            reset_chute_ratio: true,
            ..no_effects()
        },
    )
}

impl ShuttleState {
    /// Gives the saved view back, if any; whether it must be written back.
    fn restore_view(&mut self) -> (r: bool)
        ensures
            r == old(self).view_saved,
            *final(self) == after_restore_view(*old(self)),
    {
        let saved = self.view_saved;
        self.view_saved = false;
        saved
    }

    /// Runs command `id` of the HUD.
    pub fn command(&mut self, id: usize) -> (r: (ShuttleEffects, i32))
        requires
            command_fits(*old(self)),
        ensures
            (*final(self), r.0, r.1) == spec_command(*old(self), id),
    {
        if !self.matched {
            return (ShuttleEffects {
                restore_view: false,
                restore_chute_area: false,
                reset_chute_ratio: false,
                probe_terrain: false,
                save_view: false,
                view: ViewRequest::Keep,
            }, 1);
        }
        let mut effects = ShuttleEffects {
            restore_view: false,
            restore_chute_area: false,
            reset_chute_ratio: false,
            probe_terrain: false,
            save_view: false,
            view: ViewRequest::Keep,
        };
        if id == 0 || id == 4 {
            if self.matched && self.plugin_enabled && self.controls.enabled != 0 {
                effects.restore_view = self.restore_view();
                effects.probe_terrain = true;
                effects.view = ViewRequest::Cockpit;
            }
        } else if id == 1 {
            self.controls.enabled = if self.controls.enabled == 0 { 1 } else { 0 };
            if self.controls.enabled == 0 {
                effects.restore_view = self.restore_view();
            }
        } else if id == 2 {
            if self.display.main {
                self.display.ground_declutter = rem_i32(self.display.ground_declutter + 1, 3);
            } else {
                self.controls.declutter_mode = if self.controls.declutter_mode < 0 {
                    0
                } else {
                    rem_i32(self.controls.declutter_mode + 1, 4)
                };
            }
        } else if id == 3 {
            self.runway_index = (self.runway_index + 1) % self.runway_count;
            self.controls.runway_index = self.runway_index as i32;
            effects.probe_terrain = true;
        } else if id == 5 {
            if self.matched && self.plugin_enabled && self.controls.enabled != 0 {
                effects.probe_terrain = true;
                effects.save_view = !self.view_saved;
                self.view_saved = true;
                effects.view = ViewRequest::Fullscreen;
            }
        } else if id == 6 {
            self.controls.declutter_mode = -1;
            self.display.ground_declutter = 0;
        } else if id == 7 {
            self.controls.att_ref_caged = if self.controls.att_ref_caged == 0 { 1 } else { 0 };
        }
        let result: i32 = if id == 4 && self.controls.enabled != 0 { 0 } else { 1 };
        (effects, result)
    }

    /// Brings the writable controls back to their ranges after the cockpit
    /// wrote one of them.
    pub fn controls_changed(&mut self) -> (r: ShuttleEffects)
        ensures
            (*final(self), r) == spec_controls_changed(*old(self)),
    {
        self.controls.enabled = if self.controls.enabled != 0 { 1 } else { 0 };
        self.controls.declutter_mode = if self.controls.declutter_mode < -1 {
            -1
        } else if self.controls.declutter_mode > 3 {
            3
        } else {
            self.controls.declutter_mode
        };
        self.controls.att_ref_caged = if self.controls.att_ref_caged != 0 { 1 } else { 0 };
        let mut effects = ShuttleEffects {
            restore_view: false,
            restore_chute_area: false,
            reset_chute_ratio: false,
            probe_terrain: false,
            save_view: false,
            view: ViewRequest::Keep,
        };
        if self.controls.enabled == 0 {
            self.controls.runway_projection_valid = 0;
            effects.restore_view = self.restore_view();
        }
        effects
    }

    /// Disables the HUD.
    pub fn disable(&mut self) -> (r: ShuttleEffects)
        ensures
            (*final(self), r) == spec_disable(*old(self)),
    {
        let restore_chute_area = self.chute_owned && self.matched;
        self.chute_owned = false;
        self.controls.chute_reefing_active = 0;
        self.plugin_enabled = false;
        self.controls.plugin_enabled = 0;
        self.controls.active = 0;
        self.controls.cockpit_active = 0;
        self.controls.runway_projection_valid = 0;
        let restore_view = self.restore_view();
        ShuttleEffects {
            restore_view,
            restore_chute_area,
            reset_chute_ratio: true,
            probe_terrain: false,
            save_view: false,
            view: ViewRequest::Keep,
        }
    }
}

/// The HUD as created at start-up for a list of `runway_count` runways: the
/// symbology on, automatic declutter, the first runway, cage off, every
/// published flag and counter zero, the display at its first phase in
/// flight, the aircraft not yet matched, the plugin not yet enabled, neither
/// chute nor view taken over.
pub open spec fn initial_state(runway_count: usize) -> ShuttleState {
    ShuttleState {
        controls: ShuttleControls {
            enabled: 1,
            declutter_mode: -1i32,
            att_ref_caged: 0,
            plugin_enabled: 0,
            active: 0,
            cockpit_active: 0,
            runway_projection_valid: 0,
            runway_index: 0,
            chute_reefing_active: 0,
            draw_frames: 0,
            cockpit_draw_frames: 0,
        },
        matched: false,
        plugin_enabled: false,
        runway_index: 0,
        runway_count,
        display: DisplayState {
            phase: HudPhase::Acq,
            main: false,
            nose: false,
            automatic: false,
            ground_declutter: 0,
        },
        chute_owned: false,
        view_saved: false,
    }
}

/// The HUD created at start-up for a list of `runway_count` runways; `None`
/// when the list is empty, where the plugin does not start.
pub fn new_state(runway_count: usize) -> (r: Option<ShuttleState>)
    ensures
        runway_count == 0 ==> r is None,
        runway_count > 0 ==> r == Some(initial_state(runway_count)),
        r matches Some(s) ==> command_fits(s),
{
    if runway_count == 0 {
        return None;
    }
    Some(ShuttleState {
        controls: ShuttleControls {
            enabled: 1,
            declutter_mode: -1,
            att_ref_caged: 0,
            plugin_enabled: 0,
            active: 0,
            cockpit_active: 0,
            runway_projection_valid: 0,
            runway_index: 0,
            chute_reefing_active: 0,
            draw_frames: 0,
            cockpit_draw_frames: 0,
        },
        matched: false,
        plugin_enabled: false,
        runway_index: 0,
        runway_count,
        display: DisplayState {
            phase: HudPhase::Acq,
            main: false,
            nose: false,
            automatic: false,
            ground_declutter: 0,
        },
        chute_owned: false,
        view_saved: false,
    })
}

/// Installs the HUD created at start-up; whether the plugin started.
pub fn start(slot: &mut Option<ShuttleState>, created: Result<ShuttleState, String>) -> (r: bool)
    ensures
        r == created is Ok,
        created matches Ok(s) ==> *final(slot) == Some(s),
        created is Err ==> *final(slot) == *old(slot),
{
    match created {
        Ok(state) => {
            *slot = Some(state);
            true
        },
        Err(_) => false,
    }
}

/// X-Plane enables the plugin: the HUD, if started, records it and
/// publishes it; whether there was a HUD to enable.
pub fn enable(slot: &mut Option<ShuttleState>) -> (r: bool)
    ensures
        r == (*old(slot) is Some),
        match *old(slot) {
            Some(s) => *final(slot) == Some(ShuttleState {
                plugin_enabled: true,
                controls: ShuttleControls { plugin_enabled: 1, ..s.controls },
                ..s
            }),
            None => *final(slot) is None,
        },
{
    match slot {
        Some(state) => {
            state.plugin_enabled = true;
            state.controls.plugin_enabled = 1;
            true
        },
        None => false,
    }
}

/// X-Plane disables the plugin: the HUD, if started, is disabled; what the
/// caller must then restore in the simulator.
pub fn disable(slot: &mut Option<ShuttleState>) -> (r: Option<ShuttleEffects>)
    ensures
        match *old(slot) {
            Some(s) => *final(slot) == Some(spec_disable(s).0) && r == Some(spec_disable(s).1),
            None => *final(slot) is None && r is None,
        },
{
    match slot {
        Some(state) => Some(state.disable()),
        None => None,
    }
}

/// X-Plane stops the plugin: the HUD, if started, is disabled and dropped;
/// what the caller must restore in the simulator before releasing it.
pub fn stop(slot: &mut Option<ShuttleState>) -> (r: Option<ShuttleEffects>)
    ensures
        *final(slot) is None,
        match *old(slot) {
            Some(s) => r == Some(spec_disable(s).1),
            None => r is None,
        },
{
    match slot.take() {
        Some(mut state) => Some(state.disable()),
        None => None,
    }
}

/// Normalizing the controls leaves them in range, and normalizing again
/// changes nothing.
pub proof fn lemma_controls_changed_normalizes(s: ShuttleState)
    ensures
        ({
            let t = spec_controls_changed(s).0;
            &&& t.controls.enabled == 0 || t.controls.enabled == 1
            &&& -1 <= t.controls.declutter_mode <= 3
            &&& t.controls.att_ref_caged == 0 || t.controls.att_ref_caged == 1
            &&& spec_controls_changed(t).0 == t
        }),
{
}

/// Every command keeps the runway selection within the runway list and the
/// controls steppable, so that commands can follow one another; declutter
/// steps stay within their cycles.
pub proof fn lemma_command_keeps_ranges(s: ShuttleState, id: usize)
    requires
        command_fits(s),
        0 <= s.display.ground_declutter,
        -1 <= s.controls.declutter_mode <= 3,
    ensures
        ({
            let t = spec_command(s, id).0;
            &&& command_fits(t)
            &&& 0 <= t.display.ground_declutter < 3 || t.display.ground_declutter == s.display.ground_declutter
            &&& -1 <= t.controls.declutter_mode <= 3
        }),
{
    if s.matched && id == 2 {
        if s.display.main {
            crate::arith::lemma_trem_bound(s.display.ground_declutter + 1, 3);
        } else if s.controls.declutter_mode >= 0 {
            crate::arith::lemma_trem_bound(s.controls.declutter_mode + 1, 4);
        }
    }
}

/// Switching the symbology twice (command 1) gives its setting back.
pub proof fn lemma_toggle_twice(s: ShuttleState)
    requires
        s.matched,
        s.controls.enabled == 0 || s.controls.enabled == 1,
    ensures
        spec_command(spec_command(s, 1).0, 1).0.controls.enabled == s.controls.enabled,
        spec_command(spec_command(s, 7).0, 7).0.controls.att_ref_caged
            == (if s.controls.att_ref_caged == 0 { 0i32 } else { 1i32 }),
{
}


/// What the simulator shows when the HUD is asked to draw.
#[derive(Clone, Copy, Debug, PartialEq, Eq, Structural)]
pub struct DrawView {
    /// The call draws the cockpit panel texture, not the window.
    pub panel: bool,
    /// The HUD is switched on and its brightness is above zero.
    pub powered: bool,
    /// How the panel is rendered (`panel_render_type`).
    pub render_type: i32,
    /// The view type: 1024 the full-screen view, 1026 the 3-D cockpit.
    pub view_type: i32,
    /// Virtual reality is on.
    pub vr_enabled: bool,
    pub screen_width: i32,
    pub screen_height: i32,
}

/// What the caller of the drawing decision performs.
#[derive(Clone, Copy, Debug, PartialEq, Eq, Structural)]
pub struct DrawStep {
    /// Clear the HUD's area of the panel texture.
    pub clear_panel: bool,
    /// Build and paint the scene, then report with `painted`.
    pub paint: bool,
}

/// The full-screen view type.
pub const VIEW_FULLSCREEN: i32 = 1024;

/// The 3-D cockpit view type.
pub const VIEW_COCKPIT: i32 = 1026;

/// The panel render type that draws the panel in the 3-D cockpit.
pub const PANEL_RENDER_3D: i32 = 2;

/// Whether the HUD draws at all: the plugin and the symbology on and the HUD
/// powered.
pub open spec fn draw_enabled(s: ShuttleState, powered: bool) -> bool {
    s.plugin_enabled && s.controls.enabled != 0 && powered
}

/// `v` plus one, held at the largest `i32`.
pub open spec fn saturating_next(v: i32) -> i32 {
    if v == i32::MAX { v } else { (v + 1) as i32 }
}

/// The decision taken when the HUD is asked to draw `v`, before any scene is
/// built. The runway projection is marked invalid unless the HUD draws for
/// a matching aircraft. On the panel: nothing without a match or with the
/// panel not rendered; the HUD area is cleared; only the 3-D cockpit panel
/// goes on, and a HUD that does not draw is marked inactive there. In the
/// window: the HUD is active in the cockpit view when it draws for a
/// matching aircraft and the panel has been drawn before; only the
/// full-screen view outside virtual reality goes on. The scene is painted
/// when the HUD draws for a matching aircraft on a screen of positive size.
pub open spec fn spec_draw_start(s: ShuttleState, v: DrawView) -> (ShuttleState, DrawStep) {
    let enabled = draw_enabled(s, v.powered);
    let s1 = if !enabled || !s.matched {
        ShuttleState { controls: ShuttleControls { runway_projection_valid: 0, ..s.controls }, ..s }
    } else {
        s
    };
    let screen = v.screen_width > 0 && v.screen_height > 0;
    if v.panel {
        if !s.matched || v.render_type == 0 {
            (s1, DrawStep { clear_panel: false, paint: false })
        } else if v.render_type != PANEL_RENDER_3D {
            (s1, DrawStep { clear_panel: true, paint: false })
        } else if !enabled {
            (
                ShuttleState { controls: ShuttleControls { cockpit_active: 0, ..s1.controls }, ..s1 },
                DrawStep { clear_panel: true, paint: false },
            )
        } else {
            (s1, DrawStep { clear_panel: true, paint: screen })
        }
    } else {
        let cockpit: i32 = if enabled && s.matched && s.controls.cockpit_draw_frames > 0 && v.view_type
            == VIEW_COCKPIT {
            1
        } else {
            0
        };
        let s2 = ShuttleState {
            controls: ShuttleControls { cockpit_active: cockpit, active: cockpit, ..s1.controls },
            ..s1
        };
        if v.view_type != VIEW_FULLSCREEN || v.vr_enabled {
            (s2, DrawStep { clear_panel: false, paint: false })
        } else {
            (s2, DrawStep { clear_panel: false, paint: enabled && s.matched && screen })
        }
    }
}

/// The controls after a scene was painted: the runway projection's validity
/// published, the frames counted (held at the largest `i32`), and the HUD
/// marked active — on the panel only in the cockpit view.
pub open spec fn spec_painted(s: ShuttleState, panel: bool, view_type: i32, projection_valid: bool) -> ShuttleState {
    let c = ShuttleControls {
        runway_projection_valid: if projection_valid { 1 } else { 0 },
        draw_frames: saturating_next(s.controls.draw_frames),
        ..s.controls
    };
    let c = if panel {
        let cockpit: i32 = if view_type == VIEW_COCKPIT { 1 } else { 0 };
        ShuttleControls {
            cockpit_draw_frames: saturating_next(s.controls.cockpit_draw_frames),
            cockpit_active: cockpit,
            active: cockpit,
            ..c
        }
    } else {
        ShuttleControls { active: 1, ..c }
    };
    ShuttleState { controls: c, ..s }
}

/// `v` plus one, held at the largest `i32`.
fn next_count(v: i32) -> (r: i32)
    ensures
        r == saturating_next(v),
{
    if v == i32::MAX {
        v
    } else {
        v + 1
    }
}

impl ShuttleState {
    /// Decides what drawing `v` takes, and records the activity flags that it
    /// decides.
    pub fn draw_start(&mut self, v: DrawView) -> (r: DrawStep)
        ensures
            (*final(self), r) == spec_draw_start(*old(self), v),
    {
        let enabled = self.plugin_enabled && self.controls.enabled != 0 && v.powered;
        if !enabled || !self.matched {
            self.controls.runway_projection_valid = 0;
        }
        let screen = v.screen_width > 0 && v.screen_height > 0;
        if v.panel {
            if !self.matched || v.render_type == 0 {
                return DrawStep { clear_panel: false, paint: false };
            }
            if v.render_type != PANEL_RENDER_3D {
                return DrawStep { clear_panel: true, paint: false };
            }
            if !enabled {
                self.controls.cockpit_active = 0;
                return DrawStep { clear_panel: true, paint: false };
            }
            DrawStep { clear_panel: true, paint: screen }
        } else {
            let cockpit: i32 = if enabled && self.matched && self.controls.cockpit_draw_frames > 0
                && v.view_type == VIEW_COCKPIT {
                1
            } else {
                0
            };
            self.controls.cockpit_active = cockpit;
            self.controls.active = cockpit;
            if v.view_type != VIEW_FULLSCREEN || v.vr_enabled {
                return DrawStep { clear_panel: false, paint: false };
            }
            DrawStep { clear_panel: false, paint: enabled && self.matched && screen }
        }
    }

    /// Records a painted scene: whether the runway projection was valid, the
    /// frame counts and the activity flags.
    pub fn painted(&mut self, panel: bool, view_type: i32, projection_valid: bool)
        ensures
            *final(self) == spec_painted(*old(self), panel, view_type, projection_valid),
    {
        self.controls.runway_projection_valid = if projection_valid { 1 } else { 0 };
        if panel {
            self.controls.cockpit_draw_frames = next_count(self.controls.cockpit_draw_frames);
            let cockpit: i32 = if view_type == VIEW_COCKPIT { 1 } else { 0 };
            self.controls.cockpit_active = cockpit;
            self.controls.active = cockpit;
        } else {
            self.controls.active = 1;
        }
        self.controls.draw_frames = next_count(self.controls.draw_frames);
    }
}

/// The scene is painted only when the HUD draws for a matching aircraft, and
/// then the runway projection is left to the painting to decide; in every
/// other case it is marked invalid.
pub proof fn lemma_paint_only_when_drawing(s: ShuttleState, v: DrawView)
    ensures
        spec_draw_start(s, v).1.paint ==> draw_enabled(s, v.powered) && s.matched,
        !(draw_enabled(s, v.powered) && s.matched) ==> spec_draw_start(s, v).0.controls.runway_projection_valid == 0,
        spec_draw_start(s, v).1.paint ==> v.screen_width > 0 && v.screen_height > 0,
{
}

/// The load-factor readout is shown only in flight and only in the first two
/// phases (ACQ and HDG): from the prefinal phase on, or on the ground, it is
/// hidden, and below the highest declutter level the published flags carry
/// bit 128 exactly when it is shown.
pub proof fn lemma_load_factor_only_before_prefinal(d: DisplayState, level: int)
    ensures
        spec_nz_visible(d) <==> (!d.main && (d.phase == HudPhase::Acq || d.phase == HudPhase::Hdg)),
        level != 3 ==> ((spec_flags(d, level) / 128) % 2 == 1 <==> (!d.main && (d.phase
            == HudPhase::Acq || d.phase == HudPhase::Hdg))),
{
}

/// The view command (0) of a HUD whose view commands act — matched aircraft,
/// plugin enabled, symbology on — restores any saved view, asks for the
/// forward cockpit view and a terrain probe at the selected runway, and
/// changes nothing else; the forward-view command (4) does the same. When the
/// view commands do not act, neither changes the view or probes the terrain.
pub proof fn lemma_view_command_shows_cockpit(s: ShuttleState)
    ensures
        ({
            let (t, e, _) = spec_command(s, 0);
            let (t4, e4, _) = spec_command(s, 4);
            &&& t == t4 && e == e4
            &&& (s.matched && s.plugin_enabled && s.controls.enabled != 0) ==> {
                &&& e.view == ViewRequest::Cockpit
                &&& e.probe_terrain
                &&& e.restore_view == s.view_saved
                &&& !e.save_view
                &&& !t.view_saved
                &&& t.controls == s.controls
                &&& t.display == s.display
                &&& t.runway_index == s.runway_index
            }
            &&& !(s.matched && s.plugin_enabled && s.controls.enabled != 0) ==> {
                &&& e.view == ViewRequest::Keep
                &&& !e.probe_terrain
                &&& t == s
            }
        }),
{
}

/// Automatic declutter (command 6) on a matched HUD sets the declutter mode
/// back to automatic (-1) and the ground declutter level to 0, whatever they
/// were, leaving the other controls and the view alone.
pub proof fn lemma_auto_declutter_resets(s: ShuttleState)
    requires
        s.matched,
    ensures
        ({
            let (t, e, r) = spec_command(s, 6);
            &&& t.controls.declutter_mode == -1
            &&& t.display.ground_declutter == 0
            &&& t.controls.enabled == s.controls.enabled
            &&& t.controls.att_ref_caged == s.controls.att_ref_caged
            &&& t.display.phase == s.display.phase && t.display.main == s.display.main
            &&& t.runway_index == s.runway_index && t.view_saved == s.view_saved
            &&& e.view == ViewRequest::Keep && !e.probe_terrain && !e.restore_view
            &&& r == 1
        }),
{
}

} // verus!
