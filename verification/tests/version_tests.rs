use asset_redirect::version::{
    all_versions_newest_first, first_parsing, get_current_mcver, is_listed, probe_path, Detection,
    FormatVersion, VersionState,
};

use asset_redirect::version::FormatVersion::{V1_18_30, V1_19_60, V1_20_80, V1_21_110, V1_21_20};

#[test]
fn versions_are_ordered_by_release() {
    let oldest_first = [V1_18_30, V1_19_60, V1_20_80, V1_21_20, V1_21_110];
    for (place, version) in oldest_first.iter().enumerate() {
        assert_eq!(version.ordinal() as usize, place);
    }
    for a in oldest_first {
        for b in oldest_first {
            assert_eq!(a.at_least(b), a.ordinal() >= b.ordinal());
            assert_eq!(a.at_most(b), a.ordinal() <= b.ordinal());
        }
    }
    assert!(V1_21_110.at_least(V1_20_80));
    assert!(!V1_19_60.at_least(V1_20_80));
    assert!(V1_19_60.at_most(V1_19_60));
    assert!(!V1_20_80.at_most(V1_19_60));
}

#[test]
fn detection_order_is_newest_first() {
    assert_eq!(
        all_versions_newest_first(),
        vec![V1_21_110, V1_21_20, V1_20_80, V1_19_60, V1_18_30]
    );
}

#[test]
fn is_listed_looks_for_the_version() {
    assert!(is_listed(&[V1_18_30, V1_21_20], V1_21_20));
    assert!(!is_listed(&[V1_18_30, V1_21_20], V1_20_80));
    assert!(!is_listed(&[], V1_20_80));
}

#[test]
fn first_parsing_follows_the_given_order() {
    let parses = [V1_19_60, V1_21_20];
    assert_eq!(first_parsing(&[V1_21_110, V1_21_20, V1_19_60], &parses), Some(V1_21_20));
    assert_eq!(first_parsing(&[V1_19_60, V1_21_20], &parses), Some(V1_19_60));
    assert_eq!(first_parsing(&[V1_18_30, V1_20_80], &parses), None);
    assert_eq!(first_parsing(&[], &parses), None);
    assert_eq!(first_parsing(&[V1_19_60], &[]), None);
}

#[test]
fn detection_takes_the_newest_version_that_parses() {
    let asset = b"some container bytes";
    assert_eq!(
        get_current_mcver(Some(asset), &[V1_18_30, V1_20_80, V1_19_60]),
        Detection { version: Some(V1_20_80), feature_flag: false }
    );
    assert_eq!(
        get_current_mcver(Some(asset), &[V1_21_110, V1_18_30]),
        Detection { version: Some(V1_21_110), feature_flag: false }
    );
    assert_eq!(
        get_current_mcver(Some(asset), &[V1_18_30]),
        Detection { version: Some(V1_18_30), feature_flag: false }
    );
}

#[test]
fn detection_sets_the_flag_on_the_marker() {
    let asset = b"...attribute float v_dithering;...";
    assert_eq!(
        get_current_mcver(Some(asset), &[V1_21_110]),
        Detection { version: Some(V1_21_110), feature_flag: true }
    );
    assert_eq!(
        get_current_mcver(Some(b"v_ditherin"), &[V1_21_110]),
        Detection { version: Some(V1_21_110), feature_flag: false }
    );
}

#[test]
fn nothing_is_detected_without_a_parsing_version() {
    let asset = b"...attribute float v_dithering;...";
    assert_eq!(
        get_current_mcver(Some(asset), &[]),
        Detection { version: None, feature_flag: false }
    );
    assert_eq!(
        get_current_mcver(None, &[V1_21_110]),
        Detection { version: None, feature_flag: false }
    );
    assert_eq!(get_current_mcver(None, &[]), Detection { version: None, feature_flag: false });
}

#[test]
fn probe_paths_are_tried_new_layout_first() {
    assert_eq!(
        probe_path(0),
        Some(&b"assets/renderer/materials/RenderChunk.material.bin"[..])
    );
    assert_eq!(probe_path(1), Some(&b"renderer/materials/RenderChunk.material.bin"[..]));
    assert_eq!(probe_path(2), None);
    assert_eq!(probe_path(usize::MAX), None);
}

#[test]
fn fresh_state_needs_a_probe() {
    let state = VersionState::new();
    assert!(state.needs_probe());
    assert_eq!(state.get(), None);
    assert_eq!(state.version(), None);
    assert!(!state.feature_flag());
}

#[test]
fn first_detection_is_kept() {
    let mut state = VersionState::new();
    let first = Detection { version: Some(V1_21_20), feature_flag: true };
    let second = Detection { version: Some(V1_18_30), feature_flag: false };
    assert_eq!(state.get_or_init(first), first);
    assert!(!state.needs_probe());
    assert_eq!(state.get_or_init(second), first);
    assert_eq!(state.get_or_init(first), first);
    assert_eq!(state.get(), Some(first));
    assert_eq!(state.version(), Some(V1_21_20));
    assert!(state.feature_flag());
    assert!(!state.needs_probe());
}

#[test]
fn failed_detection_is_kept_too() {
    let mut state = VersionState::new();
    let failed = Detection { version: None, feature_flag: false };
    let later = Detection { version: Some(V1_21_110), feature_flag: true };
    assert_eq!(state.get_or_init(failed), failed);
    assert!(!state.needs_probe());
    assert_eq!(state.get_or_init(later), failed);
    assert_eq!(state.version(), None);
    assert!(!state.feature_flag());
}
