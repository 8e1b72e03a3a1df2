use kettu::package_path::{package_path_to_string, PackagePath, PackageVersion};

fn segs(v: &[&str]) -> Vec<String> {
    v.iter().map(|s| s.to_string()).collect()
}

#[test]
fn package_paths_print_with_namespace_name_and_version() {
    let p = PackagePath {
        namespace: segs(&["wasi"]),
        name: segs(&["io", "streams"]),
        version: Some(PackageVersion { major: 0, minor: 2, patch: 10, prerelease: Some("rc.1".to_string()) }),
    };
    assert_eq!(package_path_to_string(&p), "wasi:io/streams@0.2.10-rc.1");
}

#[test]
fn package_paths_without_namespace_or_version() {
    let p = PackagePath { namespace: vec![], name: segs(&["local"]), version: None };
    assert_eq!(package_path_to_string(&p), "local");
    let p = PackagePath {
        namespace: segs(&["a", "b"]),
        name: vec![],
        version: Some(PackageVersion { major: 1, minor: 0, patch: 0, prerelease: None }),
    };
    assert_eq!(package_path_to_string(&p), "a:b:@1.0.0");
}
