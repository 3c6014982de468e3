use pathnorm::component::{bytes_eq, path_to_components, Component};
use pathnorm::render::components_to_path;

fn plain(s: &str) -> Component {
    Component::NormalSegment(s.as_bytes().to_vec())
}

#[test]
fn components_of_absolute_path() {
    let path = b"/a/b".to_vec();
    let cs = path_to_components(&path);
    assert_eq!(cs, vec![Component::RootMarker, plain("a"), plain("b")]);
}

#[test]
fn components_collapse_repeated_separators() {
    let path = b"//a///b/".to_vec();
    let cs = path_to_components(&path);
    assert_eq!(cs, vec![Component::RootMarker, plain("a"), plain("b")]);
}

#[test]
fn components_classify_dot_segments() {
    let path = b"./x/..".to_vec();
    let cs = path_to_components(&path);
    assert_eq!(
        cs,
        vec![
            Component::CurrentDirMarker,
            plain("x"),
            Component::ParentDirMarker,
        ]
    );
}

#[test]
fn components_of_relative_path_have_no_root() {
    let path = b"a/b".to_vec();
    let cs = path_to_components(&path);
    assert_eq!(cs, vec![plain("a"), plain("b")]);
}

#[test]
fn components_of_empty_path() {
    let path = Vec::new();
    let cs = path_to_components(&path);
    assert_eq!(cs, Vec::new());
}

#[test]
fn components_of_root_alone() {
    let path = b"/".to_vec();
    let cs = path_to_components(&path);
    assert_eq!(cs, vec![Component::RootMarker]);
}

#[test]
fn three_dots_are_a_normal_segment() {
    let path = b"/...".to_vec();
    let cs = path_to_components(&path);
    assert_eq!(cs, vec![Component::RootMarker, plain("...")]);
}

#[test]
fn render_root_alone() {
    let cs = vec![Component::RootMarker];
    assert_eq!(components_to_path(&cs), b"/".to_vec());
}

#[test]
fn render_joins_segments_with_separators() {
    let cs = vec![plain("a"), plain("b")];
    assert_eq!(components_to_path(&cs), b"a/b".to_vec());
}

#[test]
fn render_after_root_adds_no_extra_separator() {
    let cs = vec![Component::RootMarker, plain("a"), plain("b")];
    assert_eq!(components_to_path(&cs), b"/a/b".to_vec());
}

#[test]
fn component_equality_compares_names() {
    assert_eq!(plain("a"), plain("a"));
    assert_ne!(plain("a"), plain("b"));
    assert_ne!(plain("a"), Component::RootMarker);
    assert_eq!(Component::RootMarker, Component::RootMarker);
}

#[test]
fn bytes_eq_compares_contents() {
    assert!(bytes_eq(&b"abc".to_vec(), &b"abc".to_vec()));
    assert!(!bytes_eq(&b"abc".to_vec(), &b"abd".to_vec()));
    assert!(!bytes_eq(&b"abc".to_vec(), &b"ab".to_vec()));
}
