use pypi_proxy::pep_691::{strip_archive_suffixes, IndexFile, IndexFileKind, IndexMeta, IndexProject};

fn file(filename: &str) -> IndexFile {
    IndexFile { filename: filename.to_string(), url: String::new() }
}

#[test]
fn test_index_file_kind() {
    let wheel = file("scw_serverless-0.0.4-py3-none-any.whl");
    assert_eq!(wheel.kind(), IndexFileKind::Wheel);

    let archive = file("scw_serverless-0.0.4.tar.gz");
    assert_eq!(archive.kind(), IndexFileKind::Tarball);
}

#[test]
fn test_index_file_version() {
    let wheel = file("scw_serverless-0.0.4-py3-none-any.whl");
    assert_eq!(wheel.version(), Some("0.0.4".to_string()));

    let archive = file("scw_serverless-0.0.4.tar.gz");
    assert_eq!(archive.version(), Some("0.0.4".to_string()));
}

#[test]
fn test_kind_unsupported() {
    assert_eq!(file("README.txt").kind(), IndexFileKind::Unsupported);
    assert_eq!(file("pkg-1.0.0.zip").kind(), IndexFileKind::Unsupported);
    assert_eq!(file("pkg-1.0.0.gz").kind(), IndexFileKind::Unsupported);
}

#[test]
fn test_version_missing_field() {
    assert_eq!(file("nodashes.tar.gz").version(), None);
    assert_eq!(file("").version(), None);
}

#[test]
fn test_compatibility_tags_exact() {
    let wheel = file("pkg-1.0.0-cp310-cp310-manylinux_2_17_x86_64.manylinux2014_x86_64.whl");
    let tags = wheel.compatibility_tags().unwrap();
    assert_eq!(tags.0, "cp310".to_string());
    assert_eq!(tags.1, "cp310".to_string());
    assert_eq!(tags.2, "manylinux_2_17_x86_64".to_string());
}

#[test]
fn test_compatibility_tags_platform_without_dot() {
    let wheel = file("pkg-1.0.0-py3-none-any.whl");
    let tags = wheel.compatibility_tags().unwrap();
    assert_eq!(tags.0, "py3".to_string());
    assert_eq!(tags.1, "none".to_string());
    assert_eq!(tags.2, "any".to_string());
}

#[test]
fn test_compatibility_tags_malformed() {
    assert!(file("pkg-1.0.0.whl").compatibility_tags().is_none());
    assert!(file("pkg-1.0.0-py3-none.whl").compatibility_tags().is_none());
}

#[test]
fn test_strip_archive_suffixes_repeats() {
    assert_eq!(strip_archive_suffixes("1.0.0.tar.gz".to_string()), "1.0.0".to_string());
    assert_eq!(strip_archive_suffixes("1.0.0.tar.gz.tar.gz".to_string()), "1.0.0".to_string());
    assert_eq!(strip_archive_suffixes("1.0.0".to_string()), "1.0.0".to_string());
}

#[test]
fn test_canonical_name() {
    let project = IndexProject {
        meta: IndexMeta { api_version: "1.1".to_string() },
        name: "scw-serverless".to_string(),
        files: Vec::new(),
    };
    assert_eq!(project.canonical_name(), "scw_serverless".to_string());
}
