use forged::catalog::{parse_version, Binary, Chip, Version};
use forged::resolve::{latest_binary, resolve_binary, resolve_chip, ResolutionError};

fn binary(id: u128, major: u64, minor: u64, patch: u64) -> Binary {
    Binary { id, version: Version::new(major, minor, patch), parts: Vec::new() }
}

fn chip(id: u128, name: &str, binaries: Vec<Binary>) -> Chip {
    Chip { id, name: name.to_string(), part_number: format!("{name}_xxAA"), binaries }
}

#[test]
fn single_chip_and_binary_resolve_without_hint() {
    let chips = vec![chip(1, "nrf52", vec![binary(10, 0, 3, 1)])];
    let c = resolve_chip(&chips, None).unwrap();
    assert_eq!(c, 0);
    let b = resolve_binary(&chips[c].binaries, None, false).unwrap();
    assert_eq!(b, 0);
    let b = resolve_binary(&chips[c].binaries, None, true).unwrap();
    assert_eq!(b, 0);
}

#[test]
fn several_chips_without_hint_are_ambiguous() {
    let chips = vec![chip(1, "nrf52", vec![]), chip(2, "stm32f4", vec![]), chip(3, "rp2040", vec![])];
    match resolve_chip(&chips, None) {
        Err(ResolutionError::Ambiguous { available }) => {
            assert_eq!(available, vec!["nrf52".to_string(), "stm32f4".to_string(), "rp2040".to_string()]);
            for c in &chips {
                assert_eq!(available.iter().filter(|n| **n == c.name).count(), 1);
            }
        }
        other => panic!("expected an ambiguity, got {other:?}"),
    }
}

#[test]
fn unknown_chip_hint_is_not_found() {
    let chips = vec![chip(1, "nrf52", vec![]), chip(2, "nrf52840", vec![])];
    for hint in ["nrf5", "NRF52", "nrf52 ", "stm32"] {
        match resolve_chip(&chips, Some(hint.to_string())) {
            Err(ResolutionError::NotFound { requested, available }) => {
                assert_eq!(requested, hint);
                assert_eq!(available, vec!["nrf52".to_string(), "nrf52840".to_string()]);
            }
            other => panic!("expected not found for {hint:?}, got {other:?}"),
        }
    }
}

#[test]
fn chip_hint_picks_exact_name() {
    let chips = vec![chip(1, "nrf52840", vec![]), chip(2, "nrf52", vec![]), chip(3, "nrf52", vec![])];
    assert_eq!(resolve_chip(&chips, Some("nrf52".to_string())).unwrap(), 1);
    assert_eq!(resolve_chip(&chips, Some("nrf52840".to_string())).unwrap(), 0);
}

#[test]
fn empty_catalog_fails() {
    let chips: Vec<Chip> = Vec::new();
    assert!(matches!(resolve_chip(&chips, None), Err(ResolutionError::EmptyCatalog)));
    let binaries: Vec<Binary> = Vec::new();
    assert!(matches!(resolve_binary(&binaries, None, true), Err(ResolutionError::EmptyCatalog)));
    assert!(matches!(resolve_binary(&binaries, None, false), Err(ResolutionError::EmptyCatalog)));
    assert_eq!(latest_binary(&binaries), None);
}

#[test]
fn latest_binary_is_chosen_when_asked() {
    let chips = vec![chip(1, "nrf52", vec![binary(10, 1, 0, 0), binary(11, 1, 2, 0)])];
    let c = resolve_chip(&chips, None).unwrap();
    let b = resolve_binary(&chips[c].binaries, None, true).unwrap();
    assert_eq!(chips[c].binaries[b].version, Version::new(1, 2, 0));
    assert_eq!(chips[c].binaries[b].id, 11);
}

#[test]
fn several_binaries_without_hint_or_preference_are_ambiguous() {
    let binaries = vec![binary(10, 1, 0, 0), binary(11, 1, 2, 0)];
    match resolve_binary(&binaries, None, false) {
        Err(ResolutionError::Ambiguous { available }) => {
            assert_eq!(available, vec![Version::new(1, 2, 0), Version::new(1, 0, 0)]);
        }
        other => panic!("expected an ambiguity, got {other:?}"),
    }
}

#[test]
fn latest_follows_precedence_not_order() {
    let binaries = vec![
        binary(1, 1, 10, 0),
        binary(2, 2, 0, 0),
        binary(3, 1, 9, 99),
        binary(4, 0, 99, 99),
    ];
    assert_eq!(latest_binary(&binaries), Some(1));
    let binaries = vec![binary(1, 1, 2, 3), binary(2, 1, 2, 10), binary(3, 1, 2, 9)];
    assert_eq!(latest_binary(&binaries), Some(1));
}

#[test]
fn version_hint_picks_exact_version() {
    let binaries = vec![binary(10, 1, 0, 0), binary(11, 1, 2, 0), binary(12, 1, 1, 0)];
    let v = parse_version("1.2.0").unwrap();
    assert_eq!(resolve_binary(&binaries, Some(v), false).unwrap(), 1);
    let missing = parse_version("1.3.0").unwrap();
    match resolve_binary(&binaries, Some(missing), true) {
        Err(ResolutionError::NotFound { requested, available }) => {
            assert_eq!(requested, Version::new(1, 3, 0));
            assert_eq!(available, vec![Version::new(1, 2, 0), Version::new(1, 1, 0), Version::new(1, 0, 0)]);
        }
        other => panic!("expected not found, got {other:?}"),
    }
}

#[test]
fn version_texts_are_read_by_semver() {
    assert_eq!(parse_version("1.2.3").unwrap(), Version::new(1, 2, 3));
    assert_eq!(parse_version("0.10.0-beta.1+build5").unwrap(), Version::new(0, 10, 0));
    for bad in ["", "1.2", "1.02.3", "v1.2.3", "1.2.3.4", "x"] {
        let e = parse_version(bad).unwrap_err();
        assert_eq!(e.text, bad);
    }
}

#[test]
fn precedence_compares_major_then_minor_then_patch() {
    assert!(Version::new(1, 9, 9).precedes(&Version::new(2, 0, 0)));
    assert!(Version::new(1, 2, 9).precedes(&Version::new(1, 3, 0)));
    assert!(Version::new(1, 2, 3).precedes(&Version::new(1, 2, 4)));
    assert!(!Version::new(1, 2, 3).precedes(&Version::new(1, 2, 3)));
    assert!(!Version::new(2, 0, 0).precedes(&Version::new(1, 9, 9)));
}

#[test]
fn not_found_lists_every_version_newest_first() {
    let binaries = vec![
        binary(1, 0, 9, 0),
        binary(2, 2, 0, 1),
        binary(3, 0, 9, 0),
        binary(4, 1, 4, 2),
        binary(5, 2, 0, 0),
    ];
    match resolve_binary(&binaries, Some(Version::new(3, 0, 0)), false) {
        Err(ResolutionError::NotFound { available, .. }) => assert_eq!(
            available,
            vec![
                Version::new(2, 0, 1),
                Version::new(2, 0, 0),
                Version::new(1, 4, 2),
                Version::new(0, 9, 0),
                Version::new(0, 9, 0),
            ]
        ),
        other => panic!("expected not found, got {other:?}"),
    }
}

#[test]
fn latest_among_equal_versions_is_one_of_them() {
    let binaries = vec![binary(1, 1, 0, 0), binary(2, 2, 1, 0), binary(3, 2, 1, 0), binary(4, 0, 1, 0)];
    let i = latest_binary(&binaries).unwrap();
    assert!(i == 1 || i == 2);
    assert_eq!(binaries[i].version, Version::new(2, 1, 0));
}
