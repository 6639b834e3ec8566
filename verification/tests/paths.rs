use ill::paths::{sort_paths, split_path};

fn sorted(paths: &[&str]) -> Vec<String> {
    let given: Vec<String> = paths.iter().map(|p| p.to_string()).collect();
    sort_paths(&given).into_iter().map(|i| given[i].clone()).collect()
}

#[test]
fn a_path_has_its_components() {
    assert_eq!(split_path("a/b"), ["a", "b"]);
    assert_eq!(split_path("a//./b/"), ["a", "b"]);
    assert_eq!(split_path("/a"), ["", "a"]);
    assert_eq!(split_path("./a/../b"), [".", "a", "..", "b"]);
    assert_eq!(split_path("/"), [""]);
    assert!(split_path("").is_empty());
}

#[test]
fn paths_are_sorted_component_by_component() {
    assert_eq!(
        sorted(&["b.ill", "a/z.ill", "a.ill", "a/b/c.ill", "a-b/x.ill"]),
        ["a/b/c.ill", "a/z.ill", "a-b/x.ill", "a.ill", "b.ill"]
    );
    assert_eq!(sorted(&["x", "../x", "./x", "/x", "-x"]), ["/x", "./x", "../x", "-x", "x"]);
    assert_eq!(sorted(&["a/b/c", "a", "a/b"]), ["a", "a/b", "a/b/c"]);
}

#[test]
fn paths_sort_as_the_standard_library_sorts_them() {
    let given = [
        "b", "a/b", "a", "/a", "./a", "../a", "a/../b", "a.b", "a b", "-", ".x", "..x", "a//c", "a/./b/d", "\u{e9}/z",
        "z/\u{e9}", "/", ".", "..", "", "//a/b",
    ];
    let mut expected: Vec<&str> = given.to_vec();
    expected.sort_by(|a, b| std::path::Path::new(a).cmp(std::path::Path::new(b)));
    assert_eq!(sorted(&given), expected);
}

#[test]
fn paths_with_the_same_components_keep_their_order() {
    assert_eq!(sorted(&["b", "a//x", "a/x", "a/./x"]), ["a//x", "a/x", "a/./x", "b"]);
    assert!(sort_paths(&Vec::new()).is_empty());
}
