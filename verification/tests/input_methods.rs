use bambusa::{build_input_method, input_method_names, parse_input_method};

#[test]
fn all_layouts_compile() {
    for name in input_method_names() {
        let im = parse_input_method(name).expect("built-in layout");
        assert!(!im.rules.is_empty(), "{name} produced no rules");
        assert!(!im.keys.is_empty());
    }
}

#[test]
fn telex_classifies_keys() {
    let im = parse_input_method("Telex").unwrap();
    assert_eq!(im.super_keys, vec!['w']);
    for k in ['z', 's', 'f', 'r', 'x', 'j'] {
        assert!(im.tone_keys.contains(&k), "{k} should be a tone key");
    }
    assert!(im.keys.contains(&'d'));
    // Telex has no bare-appending lines.
    assert!(im.appending_keys.is_empty());
}

#[test]
fn telex_w_has_appending_w() {
    let im = parse_input_method("Telex W").unwrap();
    assert!(im.appending_keys.contains(&'w'));
}

#[test]
fn unknown_layout_is_none() {
    assert!(parse_input_method("Bogus").is_none());
}

#[test]
fn custom_definition_builds() {
    // A user-defined layout assembled from raw definition lines.
    let im = build_input_method("Custom", &[("s", "DấuSắc"), ("a", "A_Â")]);
    assert_eq!(im.name, "Custom");
    assert!(im.tone_keys.contains(&'s'));
    assert!(im.keys.contains(&'a'));
    assert!(im.super_keys.is_empty());
}
