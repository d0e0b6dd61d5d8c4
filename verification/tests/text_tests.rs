use chef_de_vibe::text::{extension, file_stem};

#[test]
fn stems_and_extensions_as_std_splits_them() {
    let cases: [(&str, Option<&str>, Option<&str>); 8] = [
        ("/p/q/abc.jsonl", Some("abc"), Some("jsonl")),
        ("/p/q/a.b.c", Some("a.b"), Some("c")),
        ("/p/q/.bashrc", Some(".bashrc"), None),
        ("/p/q/.a.b", Some(".a"), Some("b")),
        ("/p/q/plain", Some("plain"), None),
        ("/p/q/trailing.", Some("trailing"), Some("")),
        ("/p/q/..", None, None),
        ("/", None, None),
    ];
    for (path, stem, ext) in cases {
        let std_path = std::path::Path::new(path);
        assert_eq!(std_path.file_stem().and_then(|s| s.to_str()), stem, "std stem of {}", path);
        assert_eq!(std_path.extension().and_then(|s| s.to_str()), ext, "std extension of {}", path);
        assert_eq!(file_stem(path).as_deref(), stem, "stem of {}", path);
        assert_eq!(extension(path).as_deref(), ext, "extension of {}", path);
    }
}
