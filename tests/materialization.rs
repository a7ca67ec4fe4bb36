use riot_sys::catalog::{default_catalog, family_members, instantiate, is_listed, scalar_accessors, synthesize};

fn strings(v: &[&str]) -> Vec<String> {
    v.iter().map(|s| s.to_string()).collect()
}

#[test]
fn family_keeps_defined_members_in_index_order() {
    let defined = strings(&["BTN4_PIN", "BTN1_PIN", "LED0_PIN", "BTN3_PIN"]);
    let members = family_members("BTN{}_PIN", &defined);
    assert_eq!(members, strings(&["BTN1_PIN", "BTN3_PIN", "BTN4_PIN"]));
    assert!(family_members("BTN{}_MODE", &defined).is_empty());
    let all: Vec<String> = (0..10).map(|i| format!("BTN{}_PIN", i)).collect();
    assert_eq!(family_members("BTN{}_PIN", &all).len(), 8);
}

#[test]
fn undefined_scalar_macro_yields_no_accessor() {
    let catalog = default_catalog();
    let source = synthesize("#include \"riot-headers.h\"\n", &catalog);
    assert!(source.starts_with("#include \"riot-headers.h\"\n"));
    assert!(source.contains(
        "\n#ifdef MUTEX_INIT\nmutex_t init_MUTEX_INIT(void) {\n    mutex_t result = MUTEX_INIT;\n    return result;\n}\n#endif\n"
    ));
    let defined = strings(&["SOCK_IPV6_EP_ANY", "STATUS_NOT_FOUND"]);
    let accessors = scalar_accessors(&catalog, &defined);
    assert_eq!(accessors, strings(&["init_SOCK_IPV6_EP_ANY", "init_STATUS_NOT_FOUND"]));
    assert!(!accessors.contains(&"init_MUTEX_INIT".to_string()));
}

#[test]
fn synthetic_source_has_scalars_then_guarded_arrays() {
    let catalog = default_catalog();
    assert_eq!(catalog.len(), 6);
    let source = synthesize("", &catalog);
    let scalar = source.find("init_STATUS_NOT_FOUND").unwrap();
    let array = source.find("const gpio_t BTNn_PIN[] = {\n").unwrap();
    let modes = source.find("const gpio_direction_t BTNn_MODE[] = {\n").unwrap();
    assert!(scalar < array && array < modes);
    assert!(source.contains("#ifdef BTN0_PIN\n    BTN0_PIN,\n#endif\n#ifdef BTN1_PIN\n"));
    assert!(source.contains("#ifdef BTN7_MODE\n    BTN7_MODE,\n#endif\n};\n"));
    assert!(!source.contains("BTN8_PIN"));
    assert_eq!(source.matches("#ifdef ").count(), 4 + 16);
}

#[test]
fn synthesis_is_repeatable() {
    let catalog = default_catalog();
    assert_eq!(synthesize("h", &catalog), synthesize("h", &catalog));
}

#[test]
fn pattern_instantiation_and_lookup() {
    assert_eq!(instantiate("BTN{}_PIN", "n"), "BTNn_PIN");
    assert_eq!(instantiate("BTN{}_PIN", "5"), "BTN5_PIN");
    assert!(is_listed(&strings(&["a", "bc"]), "bc"));
    assert!(!is_listed(&strings(&["a", "bc"]), "b"));
}
