use xplane_plugins::lines::lines_of;
use xplane_plugins::shuttle_files::{optics_entries, runway_fields};

fn text(chars: &[char]) -> String {
    chars.iter().collect()
}

#[test]
fn lines_are_split_as_str_lines_splits_them() {
    let lines: Vec<String> = lines_of("a\r\nb\n\n c \nd\r").iter().map(|l| text(l)).collect();
    assert_eq!(lines, vec!["a", "b", "", " c ", "d\r"]);
    assert!(lines_of("").is_empty());
    assert_eq!(lines_of("\n").len(), 1);
    assert_eq!(lines_of("one\n").len(), 1);
}

#[test]
fn optics_lines_give_a_key_and_a_value() {
    let entries = optics_entries("left -0.5\nright 0.5\n\nalone\n  top   0.3 extra words\r\nleft NaN\n");
    let expected = vec![
        ("left", "-0.5"),
        ("right", "0.5"),
        ("top", "0.3"),
        ("left", "NaN"),
    ];
    assert_eq!(entries.len(), expected.len());
    for ((key, value), (want_key, want_value)) in entries.iter().zip(expected) {
        assert_eq!(key, want_key);
        assert_eq!(value, want_value);
    }
    assert!(optics_entries("").is_empty());
}

#[test]
fn runway_lines_need_eight_fields() {
    let rows = runway_fields(
        "KEDW 22L,34.9,-117.8,34.8,-117.7,90,0,2300\r\nshort,1,2\n,,,,,,,\nlong,1,2,3,4,5,6,7,8\nKSLF 33,28.6,-80.7,28.7,-80.7,91,0,3",
    );
    assert_eq!(rows.len(), 3);
    assert_eq!(
        rows[0],
        vec!["KEDW 22L", "34.9", "-117.8", "34.8", "-117.7", "90", "0", "2300"]
    );
    assert_eq!(rows[1], vec![""; 8]);
    assert_eq!(rows[2][0], "KSLF 33");
    assert_eq!(rows[2][7], "3");
}
