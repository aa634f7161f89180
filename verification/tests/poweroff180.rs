use xplane_plugins::poweroff180_attitude::{self as attitude, sr20_matches, AttitudeSwitches};
use xplane_plugins::poweroff180_controller::{
    self as controller, aircraft_allowed, command_for, CancelPlan, CardCommand, CardSession,
};
use xplane_plugins::poweroff180_hud::{
    self as hud, airac_cycle, approach_plan, final_leg_index, new_session, user_aircraft_loaded,
};

#[test]
fn sr20_models_are_recognised_in_any_case_and_separator() {
    assert!(sr20_matches("C:\\X-Plane\\Aircraft\\SR20\\SR20_G6_Custom_FM.acf"));
    assert!(sr20_matches("/x/Aircraft/X-Aviation/TorqueSim SR20/SR20.acf"));
    assert!(!sr20_matches("/x/Aircraft/C172/c172.acf"));
    assert!(aircraft_allowed("D:\\XP\\Aircraft\\X-Aviation\\TorqueSim SR20\\SR20.acf"));
    assert!(!aircraft_allowed("/x/Aircraft/SR20/sr20_g6_custom_fm.acf"));
}

#[test]
fn attitude_switches_follow_the_lifecycle() {
    let mut slot = None;
    assert!(attitude::start(
        &mut slot,
        Ok(AttitudeSwitches { enabled: 0, aircraft_match: 0, armed: 1 })
    ));
    assert!(attitude::enable(&mut slot, Some("a/torquesim sr20/SR20.acf")));
    assert_eq!(slot, Some(AttitudeSwitches { enabled: 1, aircraft_match: 1, armed: 1 }));
    attitude::enable(&mut slot, Some("a/c172.acf"));
    assert_eq!(slot, Some(AttitudeSwitches { enabled: 1, aircraft_match: 0, armed: 0 }));
    attitude::enable(&mut slot, None);
    assert_eq!(slot.unwrap().aircraft_match, 0);
    assert!(attitude::disable(&mut slot));
    assert_eq!(slot.unwrap().enabled, 0);
    assert_eq!(
        attitude::stop(&mut slot),
        Some(AttitudeSwitches { enabled: 0, aircraft_match: 0, armed: 0 })
    );
    assert!(slot.is_none());
    assert!(!attitude::disable(&mut slot));
}

#[test]
fn controller_commands_and_cancel() {
    assert_eq!(command_for(0), CardCommand::Configure);
    assert_eq!(command_for(1), CardCommand::Start);
    assert_eq!(command_for(2), CardCommand::Cancel);
    assert!(controller::enable());
    let mut slot = None;
    assert!(controller::start(&mut slot, Ok(CardSession { configured: true, trace_open: true })));
    assert_eq!(
        controller::disable(&mut slot, true),
        Some(CancelPlan { abort_and_release: true, close_trace: true })
    );
    assert_eq!(slot, Some(CardSession { configured: true, trace_open: false }));
    assert_eq!(
        controller::stop(&mut slot, false),
        Some(CancelPlan { abort_and_release: false, close_trace: false })
    );
    assert!(slot.is_none());
    assert_eq!(controller::stop(&mut slot, true), None);
}

#[test]
fn hud_session_lifecycle() {
    let mut slot = None;
    assert!(hud::start(&mut slot, Ok(new_session())));
    hud::disable(&mut slot);
    assert!(!slot.unwrap().enabled);
    assert!(hud::enable(&mut slot));
    assert!(slot.unwrap().enabled);
    let mut s = slot.unwrap();
    s.token = 7;
    s.nav_ready = true;
    s.navigation_ready = 1;
    slot = Some(s);
    user_aircraft_loaded(&mut slot);
    let s = slot.unwrap();
    assert_eq!(s.token, -1);
    assert!(!s.nav_ready);
    assert_eq!(s.navigation_ready, 0);
    hud::stop(&mut slot);
    assert!(slot.is_none());
}

#[test]
fn airac_cycle_is_read_from_the_cycle_info() {
    let text = "Navigation data\r\nAIRAC cycle    : 2401\r\nVersion : 1\r\n";
    assert_eq!(airac_cycle(text).as_deref(), Some("2401"));
    assert_eq!(airac_cycle("AIRAC cycle: 24011\n"), None);
    assert_eq!(airac_cycle("AIRAC cycle 2401\nAIRAC cycle: 2402\n"), None);
    assert_eq!(airac_cycle("x\nthe AIRAC cycle is:2403 (current)"), Some("2403".to_owned()));
    assert_eq!(airac_cycle("AIRAC cycle:\n"), None);
    assert_eq!(airac_cycle("no cycle here"), None);
    assert_eq!(airac_cycle("AIRAC cycle: 24a1"), None);
}

#[test]
fn approach_plan_names_the_cycle() {
    let plan = approach_plan("2401");
    assert!(plan.starts_with("I\n1100 Version\nCYCLE 2401\nADEP KCDW\n"));
    assert!(plan.ends_with("1 KCDW ADES 0.000000 40.875222 -74.281361\n"));
    assert_eq!(plan.lines().count(), 10);
}

#[test]
fn final_leg_is_found_by_its_fixes() {
    let ids: Vec<String> = ["KCDW", "KOLLI", "KOLLI", "RW22", "KCDW"]
        .iter()
        .map(|s| s.to_string())
        .collect();
    assert_eq!(final_leg_index(&ids), Some(2));
    assert_eq!(final_leg_index(&vec!["RW22".to_owned(), "KOLLI".to_owned()]), None);
    assert_eq!(final_leg_index(&Vec::new()), None);
}
