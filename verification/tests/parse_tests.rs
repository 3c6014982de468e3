use pathnorm::component::Component;
use pathnorm::parse::{parse_path, PathClassification, PathError};
use pathnorm::render::components_to_path;

fn seg(name: &str) -> Component {
    Component::NormalSegment(name.as_bytes().to_vec())
}

#[test]
fn scenario_a_dot_and_parent_resolve() {
    let path = b"/a/./b/../c".to_vec();
    let r = parse_path(&path, PathClassification::DoesNotExist);
    let normalized = r.expect("a path that does not exist is normalized");
    assert_eq!(
        normalized,
        vec![Component::RootMarker, seg("a"), seg("c")]
    );
    assert_eq!(components_to_path(&normalized), b"/a/c".to_vec());
}

#[test]
fn scenario_b_no_underflow_past_root() {
    let path = b"/../a".to_vec();
    let r = parse_path(&path, PathClassification::DoesNotExist);
    let normalized = r.expect("a path that does not exist is normalized");
    assert_eq!(normalized, vec![Component::RootMarker, seg("a")]);
    assert_eq!(components_to_path(&normalized), b"/a".to_vec());
}

#[test]
fn scenario_c_existing_path_is_rejected() {
    let path = b"/a/b".to_vec();
    let r = parse_path(&path, PathClassification::ExistsAsDirectory);
    assert_eq!(r, Err(PathError::Exists));
}

#[test]
fn scenario_d_existing_file_is_rejected() {
    let path = b"/a/b".to_vec();
    let r = parse_path(&path, PathClassification::ExistsAsFile);
    assert_eq!(r, Err(PathError::NotDir));
}

#[test]
fn scenario_e_paths_processed_independently() {
    let fresh = b"/x/./y".to_vec();
    let taken = b"/x".to_vec();
    let first = parse_path(&fresh, PathClassification::DoesNotExist);
    let second = parse_path(&taken, PathClassification::ExistsAsDirectory);
    let normalized = first.expect("the fresh path is normalized");
    assert_eq!(normalized, vec![Component::RootMarker, seg("x"), seg("y")]);
    assert_eq!(second, Err(PathError::Exists));
}

#[test]
fn empty_path_normalizes_to_nothing() {
    let path = Vec::new();
    let r = parse_path(&path, PathClassification::DoesNotExist);
    let normalized = r.expect("the empty path is normalized");
    assert_eq!(normalized, Vec::new());
    assert_eq!(components_to_path(&normalized), Vec::<u8>::new());
}

#[test]
fn error_messages() {
    assert_eq!(PathError::Exists.message(), "Path does not exist");
    assert_eq!(PathError::NotDir.message(), "Path is a file");
}
