use xplane_plugins::pad_file::pad_value;

const SAMPLE: &str = r#"
[CONFIG]
Use_AutoPilot_Data = 1

[POSITION_DATA]
Latitude = 41.121516
Longitude = -73.178842
Altitude = 959.000000
Heading = 58.000000
Pitch = 1.250000
Roll = -2.500000
Speed = 90.000000
Throttle = 0.750000
Flaps = 0.250000
Gear = 1

[AUTOPILOT_DATA]
AutoPilot_Mode = 2
AutoPilot_Altitude = 3000
AutoPilot_Vertical_Velocity = 500
AutoPilot_Heading = 60
AutoPilot_Airspeed = 100
AutoPilot_State = 4
AutoPilot_Heading_Roll_Mode = 1
"#;

fn number(section: &str, key: &str) -> f64 {
    pad_value(SAMPLE, section, key).unwrap().parse::<f64>().unwrap()
}

#[test]
fn parses_original_pad_format() {
    assert!((number("position_data", "latitude") - 41.121516).abs() < 1e-9);
    assert_eq!(number("position_data", "heading"), 58.0);
    assert_eq!(number("position_data", "gear"), 1.0);
    assert!(number("config", "use_autopilot_data") != 0.0);
    assert_eq!(number("autopilot_data", "autopilot_mode").round() as i32, 2);
    assert_eq!(number("autopilot_data", "autopilot_heading_roll_mode").round() as i32, 1);
}

#[test]
fn pad_values_are_found_in_any_case_and_the_last_wins() {
    assert_eq!(pad_value(SAMPLE, "POSITION_DATA", "LATITUDE").as_deref(), Some("41.121516"));
    assert_eq!(pad_value(SAMPLE, "Autopilot_Data", "AutoPilot_State").as_deref(), Some("4"));
    assert_eq!(pad_value(SAMPLE, "config", "latitude"), None);
    let text = "; comment\nTop = 1\n[ Position_Data ]\r\nLatitude=1\n# Latitude = 9\nlatitude = 2 \nSpeed =\nnoise\n[x]\n";
    assert_eq!(pad_value(text, "position_data", "latitude").as_deref(), Some("2"));
    assert_eq!(pad_value(text, "", "top").as_deref(), Some("1"));
    assert_eq!(pad_value(text, "position_data", "speed"), None);
    assert_eq!(pad_value(text, "x", "noise"), None);
    assert_eq!(pad_value("", "a", "b"), None);
    assert_eq!(pad_value("[a]\nk = v = w\n", "a", "k").as_deref(), Some("v = w"));
}
