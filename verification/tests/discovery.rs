use lpd8_monitor::discovery::{contains_bytes, find_port, DEVICE_NAME};

fn names(list: &[Option<&str>]) -> Vec<Option<String>> {
    list.iter().map(|name| name.map(String::from)).collect()
}

#[test]
fn the_device_is_known_by_its_model_name() {
    assert_eq!(DEVICE_NAME, "LPD8");
}

#[test]
fn the_first_matching_port_is_found() {
    let ports = names(&[
        Some("Midi Through:Midi Through Port-0 14:0"),
        Some("LPD8:LPD8 MIDI 1 20:0"),
        Some("LPD8:LPD8 MIDI 1 24:0"),
    ]);
    assert_eq!(find_port(&ports, DEVICE_NAME), Some(1));
}

#[test]
fn the_name_may_stand_anywhere() {
    assert_eq!(find_port(&names(&[Some("LPD8")]), DEVICE_NAME), Some(0));
    assert_eq!(find_port(&names(&[Some("Akai LPD8")]), DEVICE_NAME), Some(0));
    assert_eq!(find_port(&names(&[Some("xLPD8x")]), DEVICE_NAME), Some(0));
    assert_eq!(find_port(&names(&[Some("LPLPD8")]), DEVICE_NAME), Some(0));
}

#[test]
fn no_port_no_device() {
    assert_eq!(find_port(&Vec::new(), DEVICE_NAME), None);
}

#[test]
fn no_matching_port_no_device() {
    let ports = names(&[
        Some("Midi Through:Midi Through Port-0 14:0"),
        Some("lpd8"),
        Some("LPD"),
        Some("LP D8"),
        Some("8DPL"),
        Some(""),
    ]);
    assert_eq!(find_port(&ports, DEVICE_NAME), None);
}

#[test]
fn a_port_without_a_name_never_matches() {
    assert_eq!(find_port(&names(&[None, None]), DEVICE_NAME), None);
    assert_eq!(find_port(&names(&[None, Some("LPD8 MIDI 1")]), DEVICE_NAME), Some(1));
}

#[test]
fn names_are_compared_as_bytes() {
    assert_eq!(find_port(&names(&[Some("Gerät LPD8 №1")]), DEVICE_NAME), Some(0));
    assert_eq!(find_port(&names(&[Some("ＬＰＤ８")]), DEVICE_NAME), None);
    assert_eq!(find_port(&names(&[Some("pad №1")]), "№"), Some(0));
}

#[test]
fn containment_agrees_with_the_standard_library() {
    let haystacks = ["", "a", "ab", "aab", "abab", "LPD8", "LLPD8", "LPDLPD8", "LPD", "xyz"];
    let needles = ["", "a", "b", "ab", "ba", "aab", "LPD8", "D8", "LPD88"];
    for haystack in haystacks {
        for needle in needles {
            assert_eq!(
                contains_bytes(haystack.as_bytes(), needle.as_bytes()),
                haystack.contains(needle),
                "{:?} in {:?}",
                needle,
                haystack
            );
        }
    }
}
