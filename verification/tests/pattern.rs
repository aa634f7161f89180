use xplane_plugins::pattern::{
    airport_id, ensure_configuration, ensure_runway, follow_suggestion, location_status, setting,
    suggested_name, PanelTab, PatternDirection, PatternLocation, PatternSettings,
};

fn names(list: &[&str]) -> Vec<String> {
    list.iter().map(|name| name.to_string()).collect()
}

#[test]
fn preferences_round_trip() {
    let expected = PatternSettings {
        active_tab: PanelTab::Pattern,
        airport_id: "KBDR".to_owned(),
        runway_id: "06".to_owned(),
        configuration_pad: "Approach.pad".to_owned(),
        location: PatternLocation::Downwind,
        direction: PatternDirection::Right,
    };
    let text = format!(
        "{}approach_angle_deg=3.20\ndownwind_offset_nm=1.10\nbase_intercept_nm=2.40\nfinal_distance_nm=4.00\n",
        expected.text()
    );
    let read = PatternSettings::from_text(&text);
    assert_eq!(read.active_tab, expected.active_tab);
    assert_eq!(read.airport_id, expected.airport_id);
    assert_eq!(read.runway_id, expected.runway_id);
    assert_eq!(read.configuration_pad, expected.configuration_pad);
    assert_eq!(read.location, expected.location);
    assert_eq!(read.direction, expected.direction);
    assert_eq!(setting(&text, "approach_angle_deg").as_deref(), Some("3.20"));
    assert_eq!(setting(&text, "final_distance_nm").as_deref(), Some("4.00"));
}

#[test]
fn settings_text_lists_the_choices() {
    let settings = PatternSettings {
        active_tab: PanelTab::Pad,
        airport_id: "KPHL".to_owned(),
        runway_id: "27R".to_owned(),
        configuration_pad: "QuickFile.pad".to_owned(),
        location: PatternLocation::Entry,
        direction: PatternDirection::Left,
    };
    assert_eq!(
        settings.text(),
        "# Position Aircraft pattern tab\nactive_tab=pad\nairport=KPHL\nrunway=27R\nconfiguration_pad=QuickFile.pad\nlocation=entry\ndirection=left\n"
    );
}

#[test]
fn settings_reader_trims_folds_keys_and_keeps_the_last_value() {
    let text = "# comment\n  AIRPORT = kbdr \r\nairport= kphl\n#location=base\nlocation=BASE\nnonsense\n\n runway=\t06l\nDirection = RIGHT ";
    let read = PatternSettings::from_text(text);
    assert_eq!(read.airport_id, "KPHL");
    assert_eq!(read.runway_id, "06L");
    assert_eq!(read.location, PatternLocation::Base);
    assert_eq!(read.direction, PatternDirection::Right);
    assert_eq!(read.active_tab, PanelTab::Pad);
    assert_eq!(read.configuration_pad, "QuickFile.pad");
    assert_eq!(setting(text, "nonsense"), None);
    assert_eq!(setting(text, "airport").as_deref(), Some("kphl"));
    assert_eq!(setting("a=b=c\n", "a").as_deref(), Some("b=c"));
    assert_eq!(setting("", "a"), None);
}

#[test]
fn empty_settings_are_the_defaults() {
    let read = PatternSettings::from_text("");
    let fresh = PatternSettings::new();
    assert_eq!(read.active_tab, fresh.active_tab);
    assert_eq!(read.airport_id, "");
    assert_eq!(read.runway_id, "");
    assert_eq!(read.configuration_pad, "QuickFile.pad");
    assert_eq!(read.location, PatternLocation::OnFinal);
    assert_eq!(read.direction, PatternDirection::Left);
}

#[test]
fn keys_read_back_in_any_case() {
    assert_eq!(PanelTab::from_key(" Pattern "), PanelTab::Pattern);
    assert_eq!(PanelTab::from_key("patterns"), PanelTab::Pad);
    assert_eq!(PanelTab::from_key(PanelTab::Pattern.key()), PanelTab::Pattern);
    assert_eq!(PatternDirection::from_key("RIGHT"), PatternDirection::Right);
    assert_eq!(PatternDirection::from_key(""), PatternDirection::Left);
    for location in PatternLocation::ALL {
        assert_eq!(PatternLocation::from_key(location.key()), location);
    }
    assert_eq!(PatternLocation::from_key("\tDownWind\n"), PatternLocation::Downwind);
    assert_eq!(PatternLocation::from_key("upwind"), PatternLocation::OnFinal);
}

#[test]
fn captions_describe_the_choices() {
    assert_eq!(PatternDirection::Right.label(), "Right traffic");
    assert_eq!(PatternLocation::Entry.label(), "45° entry");
    assert_eq!(PatternLocation::Base.detail(), "Halfway along the base leg");
    assert_eq!(location_status(PatternLocation::Downwind), "Pattern location: Downwind");
}

#[test]
fn locations_cycle_both_ways() {
    assert_eq!(PatternLocation::OnFinal.relative(-1), PatternLocation::Entry);
    assert_eq!(PatternLocation::Entry.relative(1), PatternLocation::OnFinal);
    assert_eq!(PatternLocation::OnFinal.relative(7), PatternLocation::Base);
    assert_eq!(PatternLocation::Base.relative(-12), PatternLocation::OnFinal);
    assert_eq!(PatternLocation::Base.relative(-13), PatternLocation::Entry);
    assert_eq!(PatternLocation::Downwind.relative(0), PatternLocation::Downwind);
}

#[test]
fn configuration_falls_back_to_the_quick_file_then_the_first() {
    let pads = names(&["a.pad", "quickfile.PAD", "z.pad"]);
    assert_eq!(ensure_configuration(&pads, &"z.pad".to_owned()), "z.pad");
    assert_eq!(ensure_configuration(&pads, &"gone.pad".to_owned()), "quickfile.PAD");
    assert_eq!(ensure_configuration(&names(&["b.pad", "c.pad"]), &"x".to_owned()), "b.pad");
    assert_eq!(ensure_configuration(&Vec::new(), &"x".to_owned()), "");
}

#[test]
fn runway_falls_back_to_the_first() {
    let runways = names(&["06", "24"]);
    assert_eq!(ensure_runway(&runways, &"24".to_owned()), "24");
    assert_eq!(ensure_runway(&runways, &"09".to_owned()), "06");
    assert_eq!(ensure_runway(&Vec::new(), &"09".to_owned()), "");
}

#[test]
fn suggested_names_follow_the_placement_until_one_is_typed() {
    assert_eq!(
        suggested_name("KBDR", "06", PatternLocation::OnFinal, PatternDirection::Left, "3"),
        "KBDR-RWY06-3nm-final"
    );
    assert_eq!(
        suggested_name("KBDR", "06", PatternLocation::Downwind, PatternDirection::Right, "3"),
        "KBDR-RWY06-right-downwind"
    );
    assert_eq!(
        suggested_name("KPHL", "27R", PatternLocation::InterceptFinal, PatternDirection::Right, "2_5"),
        "KPHL-RWY27R-intercept-final"
    );
    let mut save_name = String::from("  ");
    let mut suggestion = String::new();
    follow_suggestion(&mut save_name, &mut suggestion, "A".to_owned());
    assert_eq!(save_name, "A");
    follow_suggestion(&mut save_name, &mut suggestion, "B".to_owned());
    assert_eq!(save_name, "B");
    save_name = "Mine".to_owned();
    follow_suggestion(&mut save_name, &mut suggestion, "C".to_owned());
    assert_eq!(save_name, "Mine");
    assert_eq!(suggestion, "C");
}

#[test]
fn airport_identifiers_are_trimmed_and_upper_case() {
    assert_eq!(airport_id(" kbdr ").as_deref(), Some("KBDR"));
    assert_eq!(airport_id(" \t "), None);
}
