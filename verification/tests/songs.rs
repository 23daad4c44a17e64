use bbr::songs::tone_string_to_hz;

#[test]
fn every_named_tone_has_its_pitch() {
    let table = [
        ("e0", 165),
        ("f0", 175),
        ("f0+", 185),
        ("g0", 196),
        ("g0+", 208),
        ("a0", 220),
        ("a0+", 233),
        ("b0", 245),
        ("c", 261),
        ("c+", 277),
        ("d", 294),
        ("d+", 311),
        ("e", 329),
        ("f", 349),
        ("f+", 370),
        ("g", 392),
        ("g+", 415),
        ("a", 440),
        ("a+", 466),
        ("b", 493),
        ("c2", 523),
        ("d2", 594),
    ];
    for (name, hz) in table {
        assert_eq!(tone_string_to_hz(name), Some(hz), "tone {}", name);
    }
}

#[test]
fn unknown_names_are_rests() {
    assert_eq!(tone_string_to_hz(" "), None);
    assert_eq!(tone_string_to_hz(""), None);
    assert_eq!(tone_string_to_hz("h"), None);
    assert_eq!(tone_string_to_hz("e2"), None);
    assert_eq!(tone_string_to_hz("c0+"), None);
    assert_eq!(tone_string_to_hz("a0++"), None);
}
