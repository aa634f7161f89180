use xplane_plugins::xgs_files::{
    rating_body, rating_files_for, rating_line, scenery_packs, AptScan, RatingLimit,
    RatingLineError,
};

fn limit_text(limit: &RatingLimit) -> String {
    match limit {
        RatingLimit::MetersPerSecond(n) => format!("m/s {n}"),
        RatingLimit::FeetPerMinute(n) => format!("fpm {n}"),
        RatingLimit::Unlimited => "unlimited".to_owned(),
    }
}

#[test]
fn rating_lines_follow_the_v30_header() {
    let body = rating_body("V30\n0.5;;soft\n;240;firm\n;;severe\n").unwrap();
    assert_eq!(body, vec!["0.5;;soft", ";240;firm", ";;severe"]);
    let read: Vec<(String, String)> = body
        .iter()
        .map(|line| {
            let rating = rating_line(line).ok().unwrap();
            (limit_text(&rating.limit), rating.text)
        })
        .collect();
    assert_eq!(
        read,
        vec![
            ("m/s 0.5".to_owned(), "soft".to_owned()),
            ("fpm 240".to_owned(), "firm".to_owned()),
            ("unlimited".to_owned(), "severe".to_owned()),
        ]
    );
}

#[test]
fn rating_scale_skips_comments_and_blank_lines() {
    let body = rating_body("# landing scale\n\n  V30  \r\n # soft ones\n 0.5 ; 100 ; very soft ; really\n").unwrap();
    assert_eq!(body, vec!["0.5 ; 100 ; very soft ; really"]);
    let rating = rating_line(&body[0]).ok().unwrap();
    assert_eq!(limit_text(&rating.limit), "m/s 0.5");
    assert_eq!(rating.text, "very soft ; really");
}

#[test]
fn rating_scale_needs_the_header_first() {
    assert!(rating_body("").is_none());
    assert!(rating_body("V31\n0.5;;soft\n").is_none());
    assert!(rating_body("0.5;;soft\nV30\n").is_none());
    assert_eq!(rating_body("V30\n").unwrap(), Vec::<String>::new());
}

#[test]
fn rating_scale_reads_ten_lines_at_most() {
    let mut text = "V30\n".to_owned();
    for i in 0..12 {
        text.push_str(&format!("{i};;rating {i}\n"));
    }
    let body = rating_body(&text).unwrap();
    assert_eq!(body.len(), 10);
    assert_eq!(body[9], "9;;rating 9");
}

#[test]
fn rating_lines_need_three_fields_and_a_text() {
    assert_eq!(rating_line("0.5").err(), Some(RatingLineError::MissingField));
    assert_eq!(rating_line("0.5;100").err(), Some(RatingLineError::MissingField));
    assert_eq!(rating_line("0.5;100;  ").err(), Some(RatingLineError::EmptyText));
    let rating = rating_line("  ; ;R.I.P.").ok().unwrap();
    assert_eq!(limit_text(&rating.limit), "unlimited");
    assert_eq!(rating.text, "R.I.P.");
}

#[test]
fn aircraft_mapping_names_scales_in_order() {
    let mapping = "# type file\nC172 light.cfg\n  B738   heavy.cfg extra\nC172\nc172 lower.cfg\nC172 second.cfg\n";
    assert_eq!(rating_files_for(mapping, "C172"), vec!["light.cfg", "second.cfg"]);
    assert_eq!(rating_files_for(mapping, "B738"), vec!["heavy.cfg"]);
    assert!(rating_files_for(mapping, "A320").is_empty());
    assert!(rating_files_for("#C172 hidden.cfg\n", "#C172").is_empty());
}

#[test]
fn scenery_packs_are_listed_in_order() {
    let ini = "I\n1000 Version\nSCENERY\n\nSCENERY_PACK Custom Scenery/KSEA Demo Area/\n  SCENERY_PACK   Custom Scenery/Global Airports/  \r\nSCENERY_PACK_DISABLED Custom Scenery/Old/\nSCENERY_PACK\n";
    assert_eq!(
        scenery_packs(ini),
        vec!["Custom Scenery/KSEA Demo Area/", "Custom Scenery/Global Airports/"]
    );
}

fn runway_line(end_a: &str, end_b: &str) -> String {
    format!(
        "100 45.00 1 0 0.25 1 1 0 {end_a} 40.000000 -75.010000 0.00 0.00 2 0 0 0 {end_b} 40.000000 -74.990000 0.00 0.00 2 0 0 0"
    )
}

#[test]
fn runways_are_read_for_the_first_definition_of_an_airport() {
    let mut scan = AptScan::new();
    assert!(scan.line("I").is_none());
    assert!(scan.line("1 433 0 0 KPHL Philadelphia Intl").is_none());
    let record = scan.line(&runway_line("09R", "27L")).unwrap();
    assert_eq!(record.airport, "KPHL");
    assert_eq!(record.elevation, "433");
    assert_eq!(record.fields.len(), 26);
    assert_eq!(record.fields[8], "09R");
    assert_eq!(record.fields[17], "27L");
    assert!(scan.line("100 45.00 1 0").is_none());

    scan.start_file();
    assert!(scan.line(&runway_line("09", "27")).is_none());
    assert!(scan.line("1 36 0 0 KPHL Philadelphia again").is_none());
    assert!(scan.line(&runway_line("09", "27")).is_none());
    assert!(scan.line("16 0 0 0 SEA1 Seaplane base").is_none());
    assert!(scan.line(&runway_line("18", "36")).is_none());
    assert!(scan.line("1 0 0 0 SEA1 Seaplane base on land").is_none());
    assert!(scan.line(&runway_line("18", "36")).is_none());
    assert!(scan.line("1 12 0 0").is_none());
    assert!(scan.line(&runway_line("18", "36")).is_none());
    assert!(scan.line("1 12 0 0 KNEW New field").is_none());
    assert_eq!(scan.line(&runway_line("18", "36")).unwrap().airport, "KNEW");
}
