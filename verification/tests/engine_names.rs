use bambusa::engines::{may_create_engine, MAX_LIVE_ENGINES};
use bambusa::engines::{method_for_engine, ENGINES};
use bambusa::parse_input_method;

#[test]
fn maps_engine_names_to_methods() {
    assert_eq!(method_for_engine("bambusa:telex"), "Telex");
    assert_eq!(method_for_engine("bambusa:vni"), "VNI");
    assert_eq!(method_for_engine("bambusa:vni-azerty"), "VNI (AZERTY)");
    assert_eq!(method_for_engine("anything-else"), "Telex");
}

#[test]
fn every_exposed_method_is_built_in() {
    for (engine, method) in ENGINES {
        assert!(parse_input_method(method).is_some(), "engine {engine} maps to unknown method {method}");
    }
}

#[test]
fn live_engine_cap() {
    assert!(may_create_engine(0));
    assert!(may_create_engine(MAX_LIVE_ENGINES - 1));
    assert!(!may_create_engine(MAX_LIVE_ENGINES));
    assert_eq!(MAX_LIVE_ENGINES, 64);
}
