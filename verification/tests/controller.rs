use pypi_proxy::controller::{is_compatible_with_scaleway_python_functions, redirect_to_reserved};
use pypi_proxy::pep_691::{IndexFile, IndexFileKind, IndexMeta, IndexProject};

fn file(filename: &str, url: &str) -> IndexFile {
    IndexFile { filename: filename.to_string(), url: url.to_string() }
}

fn project(name: &str, files: Vec<IndexFile>) -> IndexProject {
    IndexProject { meta: IndexMeta { api_version: "1.1".to_string() }, name: name.to_string(), files }
}

#[test]
fn test_redirect_to_reserved_compatible() {
    let wheel = file("scw_serverless-0.0.4-py3-none-any.whl", "");
    let mut project = project("scw-serverless", vec![wheel]);

    redirect_to_reserved(&mut project);

    assert_eq!(project.files.len(), 1)
}

#[test]
fn test_compatible_tag_triples() {
    // (py3, none, any) and (py3, none, musllinux_1_1_x86_64) are installable.
    assert!(is_compatible_with_scaleway_python_functions(&file(
        "pkg-1.0.0-py3-none-any.whl",
        ""
    )));
    assert!(is_compatible_with_scaleway_python_functions(&file(
        "pkg-1.0.0-py3-none-musllinux_1_1_x86_64.whl",
        ""
    )));
    // (cp310, cp310, manylinux_2_17_x86_64) is not.
    assert!(!is_compatible_with_scaleway_python_functions(&file(
        "pkg-1.0.0-cp310-cp310-manylinux_2_17_x86_64.whl",
        ""
    )));
    // A py2 wheel with a platform that is neither any nor musllinux is not.
    assert!(!is_compatible_with_scaleway_python_functions(&file(
        "pkg-1.0.0-py2-none-macosx_10_9_x86_64.whl",
        ""
    )));
}

#[test]
fn test_non_wheels_are_vacuously_compatible() {
    assert!(is_compatible_with_scaleway_python_functions(&file("pkg-1.0.0.tar.gz", "")));
    assert!(is_compatible_with_scaleway_python_functions(&file("README.txt", "")));
}

#[test]
fn test_rewrite_keeps_only_covering_wheel() {
    // A compatible wheel, a tarball of the same version, and an
    // incompatible wheel rewrite to exactly the compatible wheel.
    let mut p = project(
        "pkg",
        vec![
            file("pkg-1.0.0-py3-none-any.whl", "https://files.example/pkg-1.0.0-py3-none-any.whl"),
            file("pkg-1.0.0.tar.gz", "https://files.example/pkg-1.0.0.tar.gz"),
            file("pkg-1.0.0-cp39-cp39-manylinux_2_17_x86_64.whl", "https://files.example/x.whl"),
        ],
    );

    redirect_to_reserved(&mut p);

    assert_eq!(p.files.len(), 1);
    assert_eq!(p.files[0].filename, "pkg-1.0.0-py3-none-any.whl".to_string());
    assert_eq!(p.files[0].url, "https://files.example/pkg-1.0.0-py3-none-any.whl".to_string());
}

#[test]
fn test_rewrite_synthesizes_for_source_only_version() {
    let mut p = project("pkg", vec![file("pkg-2.0.0.tar.gz", "U")]);

    redirect_to_reserved(&mut p);

    assert_eq!(p.files.len(), 1);
    assert_eq!(p.files[0].filename, "pkg-2.0.0-py3-none-any.whl".to_string());
    assert_eq!(p.files[0].url, "download/pkg-2.0.0-py3-none-any.whl?archive=U".to_string());
}

#[test]
fn test_rewrite_twice_is_stable_when_all_compatible() {
    // A document whose every wheel is already installable and which has
    // no tarballs: rewriting twice yields the same entry set.
    let mut p = project(
        "pkg",
        vec![
            file("pkg-1.0.0-py3-none-any.whl", "a"),
            file("pkg-2.0.0-py3-none-musllinux_1_1_x86_64.whl", "b"),
        ],
    );

    redirect_to_reserved(&mut p);
    assert_eq!(p.files.len(), 2);

    redirect_to_reserved(&mut p);
    assert_eq!(p.files.len(), 2);
    assert_eq!(p.files[0].filename, "pkg-1.0.0-py3-none-any.whl".to_string());
    assert_eq!(p.files[0].url, "a".to_string());
    assert_eq!(p.files[1].filename, "pkg-2.0.0-py3-none-musllinux_1_1_x86_64.whl".to_string());
    assert_eq!(p.files[1].url, "b".to_string());
}

#[test]
fn test_rewrite_passes_unsupported_through() {
    let mut p = project("pkg", vec![file("README.txt", "r"), file("pkg-1.0.0.zip", "z")]);

    redirect_to_reserved(&mut p);

    assert_eq!(p.files.len(), 2);
    assert_eq!(p.files[0].filename, "README.txt".to_string());
    assert_eq!(p.files[1].filename, "pkg-1.0.0.zip".to_string());
}

#[test]
fn test_rewrite_duplicate_tarball_versions_last_wins() {
    let mut p = project(
        "pkg",
        vec![file("pkg-1.0.0.tar.gz", "first"), file("pkg-1.0.0.tar.gz", "second")],
    );

    redirect_to_reserved(&mut p);

    assert_eq!(p.files.len(), 1);
    assert_eq!(p.files[0].filename, "pkg-1.0.0-py3-none-any.whl".to_string());
    assert_eq!(p.files[0].url, "download/pkg-1.0.0-py3-none-any.whl?archive=second".to_string());
}

#[test]
fn test_rewrite_canonicalizes_project_name() {
    let mut p = project("my-pkg", vec![file("my_pkg-3.1.4.tar.gz", "U")]);

    redirect_to_reserved(&mut p);

    assert_eq!(p.files.len(), 1);
    assert_eq!(p.files[0].filename, "my_pkg-3.1.4-py3-none-any.whl".to_string());
}

#[test]
fn test_rewrite_drops_malformed_wheel() {
    // A wheel whose filename has too few fields for tags is never
    // advertised, and the rewrite survives it.
    let mut p = project("pkg", vec![file("pkg-1.0.0.whl", "m"), file("pkg-1.0.0.tar.gz", "U")]);

    redirect_to_reserved(&mut p);

    assert_eq!(p.files.len(), 1);
    assert_eq!(p.files[0].filename, "pkg-1.0.0-py3-none-any.whl".to_string());
}

#[test]
fn test_index_kind_still_reaches_controller() {
    assert_eq!(file("pkg-1.0.0.tar.gz", "").kind(), IndexFileKind::Tarball);
}
