use pathnorm::component::Component;
use pathnorm::normalize::normalize_components;

fn name(s: &str) -> Component {
    Component::NormalSegment(s.as_bytes().to_vec())
}

#[test]
fn fold_skips_current_dir_markers() {
    let input = vec![
        name("a"),
        Component::CurrentDirMarker,
        name("b"),
        Component::CurrentDirMarker,
    ];
    let out = normalize_components(&input);
    assert_eq!(out, vec![name("a"), name("b")]);
    for c in &out {
        assert!(!matches!(c, Component::CurrentDirMarker));
    }
}

#[test]
fn fold_parent_cancels_previous_normal_segment() {
    let input = vec![name("a"), name("b"), Component::ParentDirMarker];
    let out = normalize_components(&input);
    assert_eq!(out, vec![name("a")]);
}

#[test]
fn fold_parent_on_empty_accumulator_is_noop() {
    let input = vec![Component::ParentDirMarker, name("a")];
    let out = normalize_components(&input);
    assert_eq!(out, vec![name("a")]);
}

#[test]
fn fold_never_pops_root_marker() {
    let input = vec![Component::RootMarker, Component::ParentDirMarker, name("a")];
    let out = normalize_components(&input);
    assert_eq!(out, vec![Component::RootMarker, name("a")]);
}

#[test]
fn fold_never_pops_path_prefix() {
    let prefix = Component::PathPrefix(b"C:".to_vec());
    let input = vec![prefix, Component::ParentDirMarker, name("a")];
    let out = normalize_components(&input);
    assert_eq!(
        out,
        vec![Component::PathPrefix(b"C:".to_vec()), name("a")]
    );
}

#[test]
fn fold_is_identity_on_normalized_input() {
    let input = vec![Component::RootMarker, name("a"), name("b")];
    let out = normalize_components(&input);
    assert_eq!(out, input);
}

#[test]
fn fold_preserves_order_of_normal_segments() {
    let input = vec![name("a"), name("b"), name("c")];
    let out = normalize_components(&input);
    assert_eq!(out, input);
}

#[test]
fn fold_is_idempotent() {
    let input = vec![
        Component::RootMarker,
        name("a"),
        Component::ParentDirMarker,
        Component::CurrentDirMarker,
        name("b"),
    ];
    let once = normalize_components(&input);
    let twice = normalize_components(&once);
    assert_eq!(twice, once);
}

#[test]
fn fold_of_empty_is_empty() {
    let input = Vec::new();
    let out = normalize_components(&input);
    assert_eq!(out, Vec::new());
}
