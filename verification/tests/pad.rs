use xplane_plugins::pad::{safe_pad_filename, Field, Form};

#[test]
fn safe_file_names_remain_in_pad_directory() {
    assert_eq!(
        safe_pad_filename("My Position"),
        Some("My Position.pad".into())
    );
    assert_eq!(
        safe_pad_filename("../bad:name.pad"),
        Some("__bad_name.pad".into())
    );
    assert_eq!(safe_pad_filename(""), None);
}

#[test]
fn safe_file_names_collapse_dots_and_strip_extension() {
    assert_eq!(safe_pad_filename("  a...b  "), Some("a_.b.pad".into()));
    assert_eq!(safe_pad_filename("Approach.PAD"), Some("Approach.pad".into()));
    assert_eq!(safe_pad_filename("x. . "), Some("x.pad".into()));
    assert_eq!(safe_pad_filename("éte/été"), Some("_te__t_.pad".into()));
    assert_eq!(safe_pad_filename("..."), Some("_.pad".into()));
    assert_eq!(safe_pad_filename(" .pad "), None);
    assert_eq!(safe_pad_filename("\t\n"), None);
}

#[test]
fn form_fields_are_edited_in_place() {
    let values: Vec<String> = (0..18).map(|i| i.to_string()).collect();
    let mut form = Form::from_values(values, true).unwrap();
    assert_eq!(form.value(Field::Heading), "3");
    assert_eq!(form.value(Field::SaveName), "17");
    form.value_mut(Field::Heading).push_str("58");
    assert_eq!(form.value(Field::Heading), "358");
    assert_eq!(form.value(Field::Pitch), "4");
    assert!(form.use_ap());
    form.toggle_ap();
    assert!(!form.use_ap());
    assert!(Form::from_values(vec![String::new(); 17], false).is_none());
}

#[test]
fn safe_file_names_are_kept_as_they_are() {
    for name in [
        "My Position",
        "../bad:name.pad",
        "  approach.PAD  ",
        "x.pad.pad",
        "....a....",
        "\tleading tab",
        "runway 09/27 ..",
    ] {
        let safe = safe_pad_filename(name).unwrap();
        assert_eq!(safe_pad_filename(&safe), Some(safe.clone()));
    }
}
