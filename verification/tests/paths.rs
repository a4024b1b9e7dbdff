use std::path::{Component, Path};
use thumbcloud::paths::{components_of, join_path, parent_or_empty, render_components, starts_with};

fn std_components(p: &str) -> Vec<String> {
    Path::new(p)
        .components()
        .map(|c| match c {
            Component::RootDir => "/".to_string(),
            Component::CurDir => ".".to_string(),
            Component::ParentDir => "..".to_string(),
            Component::Normal(s) => s.to_str().unwrap().to_string(),
            Component::Prefix(_) => unreachable!(),
        })
        .collect()
}

fn ours(p: &str) -> Vec<String> {
    components_of(p).into_iter().map(|v| v.into_iter().collect()).collect()
}

const SAMPLES: [&str; 22] = [
    "", "/", "//", ".", "./", "./.", "..", "a", "a/", "a//b", "/a/./b/", "./a", ".a", "..a/b",
    "/home/flo", "/home/flo/", "a/./.", "x/../y", "/a/b/c", "a/.", "/.", "/./a",
];

#[test]
fn components_match_std() {
    for p in SAMPLES.iter() {
        assert_eq!(ours(p), std_components(p), "path {:?}", p);
    }
}

#[test]
fn join_matches_std() {
    for a in SAMPLES.iter() {
        for b in SAMPLES.iter() {
            let expected = Path::new(a).join(b);
            assert_eq!(join_path(a, b), expected.to_str().unwrap(), "{:?} join {:?}", a, b);
        }
    }
}

#[test]
fn starts_with_matches_std() {
    for a in SAMPLES.iter() {
        for b in SAMPLES.iter() {
            assert_eq!(starts_with(a, b), Path::new(a).starts_with(b), "{:?} starts with {:?}", a, b);
        }
    }
    assert!(!starts_with("/a/bc", "/a/b"));
    assert!(starts_with("/a/b/c", "/a/b/"));
}

#[test]
fn parent_matches_std() {
    for p in SAMPLES.iter() {
        let expected = match Path::new(p).parent() {
            Some(q) => std_components(q.to_str().unwrap()),
            None => vec![],
        };
        assert_eq!(ours(&parent_or_empty(p)), expected, "parent of {:?}", p);
    }
    assert_eq!(parent_or_empty("a/b"), "a");
    assert_eq!(parent_or_empty("/a"), "/");
    assert_eq!(parent_or_empty("a"), "");
}

#[test]
fn render_reads_back() {
    for p in SAMPLES.iter() {
        let cs = components_of(p);
        assert_eq!(ours(&render_components(&cs)), ours(p));
    }
}

#[test]
fn joining_relative_path_stays_under_base() {
    assert!(starts_with(&join_path("/srv", "a/b"), "/srv"));
    assert!(starts_with(&join_path("/srv/", "./x"), "/srv"));
    assert!(!starts_with(&join_path("/srv", "/etc"), "/srv"));
    assert_eq!(join_path("/srv", "/etc"), "/etc");
    assert_eq!(join_path("a", ""), "a/");
}

#[test]
fn a_path_starts_with_its_parent() {
    for p in SAMPLES.iter() {
        assert!(starts_with(p, &parent_or_empty(p)), "{:?}", p);
    }
}
