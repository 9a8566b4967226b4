use scaffolder::decode::decode;
use scaffolder::fs::MemFs;
use scaffolder::materialize::{create_source_files, materialize, should_skip};
use scaffolder::prompt::{generate_prompt, system_prompt};
use scaffolder::schema::{OutputJson, SourceFile};
use scaffolder::strutil::{str_contains, str_eq};

fn sample_doc() -> OutputJson {
    OutputJson {
        dockerfile: String::from("FROM scratch\n"),
        makefile: String::from("build:\n\ttrue\n"),
        readme: String::from("# demo\n"),
        joke: Some(String::from("a joke")),
        source_files: vec![
            SourceFile { name: String::from("main.py"), contents: String::from("print(1)\n") },
        ],
    }
}

fn entry(name: &str, contents: &str) -> SourceFile {
    SourceFile { name: String::from(name), contents: String::from(contents) }
}

#[test]
fn prompt_is_deterministic() {
    let a = generate_prompt("myapp", "a tiny tool", "python");
    let b = generate_prompt("myapp", "a tiny tool", "python");
    assert_eq!(a, b);
}

#[test]
fn prompt_embeds_inputs_verbatim() {
    let p = generate_prompt("proj-name-77", "does the thing", "rust");
    assert!(p.contains("proj-name-77"));
    assert!(p.contains("does the thing"));
    assert!(p.contains("rust"));
    assert!(p.contains("\"source_files\""));
    assert!(p.contains("Respond ONLY with the data portion of a valid Json object."));
}

#[test]
fn system_prompt_is_fixed() {
    let s = system_prompt();
    assert!(s.starts_with("You are a helpful programming assistant."));
}

#[test]
fn decode_accepts_full_document() {
    let raw = r#"{
        "joke": "why",
        "dockerfile": "FROM scratch",
        "makefile": "all:",
        "readme": "hi",
        "source_files": [
            {"name": "a.py", "contents": "x = 1\n"},
            {"name": "b.py", "contents": "y = 2\n"}
        ]
    }"#;
    let d = decode(raw).unwrap();
    assert_eq!(d.dockerfile, "FROM scratch");
    assert_eq!(d.makefile, "all:");
    assert_eq!(d.readme, "hi");
    assert_eq!(d.joke.as_deref(), Some("why"));
    assert_eq!(d.source_files.len(), 2);
    assert_eq!(d.source_files[0].name, "a.py");
    assert_eq!(d.source_files[0].contents, "x = 1\n");
    assert_eq!(d.source_files[1].name, "b.py");
}

#[test]
fn decode_keeps_embedded_newlines_and_quotes() {
    let raw = "{\"dockerfile\":\"a\\nb\",\"makefile\":\"m\",\"readme\":\"say \\\"hi\\\"\",\"source_files\":[]}";
    let d = decode(raw).unwrap();
    assert_eq!(d.dockerfile, "a\nb");
    assert_eq!(d.readme, "say \"hi\"");
}

#[test]
fn decode_missing_joke_is_accepted() {
    let raw = r#"{"dockerfile":"x","makefile":"y","readme":"z","source_files":[]}"#;
    let d = decode(raw).unwrap();
    assert!(d.joke.is_none());
    assert!(d.source_files.is_empty());
}

#[test]
fn decode_missing_source_files_fails() {
    let raw = r#"{"dockerfile":"x","makefile":"y","readme":"z","joke":"j"}"#;
    let e = decode(raw).unwrap_err();
    assert_eq!(e.raw, raw);
    assert!(e.diagnostic.contains("source_files"));
}

#[test]
fn decode_missing_required_field_fails() {
    let raw = r#"{"dockerfile":"x","readme":"z","joke":"j","source_files":[]}"#;
    let e = decode(raw).unwrap_err();
    assert_eq!(e.raw, raw);
    assert!(e.diagnostic.contains("makefile"));
}

#[test]
fn decode_wrong_field_type_fails() {
    let raw = r#"{"dockerfile":3,"makefile":"y","readme":"z","source_files":[]}"#;
    assert!(decode(raw).is_err());
}

#[test]
fn decode_non_string_joke_fails() {
    let raw = r#"{"dockerfile":"x","makefile":"y","readme":"z","joke":1,"source_files":[]}"#;
    assert!(decode(raw).is_err());
}

#[test]
fn decode_entry_without_contents_fails() {
    let raw = r#"{"dockerfile":"x","makefile":"y","readme":"z","source_files":[{"name":"a"}]}"#;
    let e = decode(raw).unwrap_err();
    assert!(e.diagnostic.contains("contents"));
}

#[test]
fn decode_entry_with_empty_name_fails() {
    let raw = r#"{"dockerfile":"x","makefile":"y","readme":"z","source_files":[{"name":"","contents":"c"}]}"#;
    let e = decode(raw).unwrap_err();
    assert!(e.diagnostic.contains("empty"));
}

#[test]
fn decode_malformed_text_fails_with_parser_diagnostic() {
    let raw = "this is not json";
    let e = decode(raw).unwrap_err();
    assert_eq!(e.raw, raw);
    assert!(!e.diagnostic.is_empty());
}

#[test]
fn materialize_writes_canonical_files_and_sources() {
    let mut fs = MemFs::new();
    let doc = sample_doc();
    materialize(&mut fs, &doc, "myapp").unwrap();
    assert_eq!(fs.read("myapp/Dockerfile").unwrap(), "FROM scratch\n");
    assert_eq!(fs.read("myapp/Makefile").unwrap(), "build:\n\ttrue\n");
    assert_eq!(fs.read("myapp/README.md").unwrap(), "# demo\n");
    assert_eq!(fs.read("myapp/main.py").unwrap(), "print(1)\n");
    assert!(fs.has_dir("myapp"));
}

#[test]
fn collision_skip_is_substring_based_and_case_insensitive() {
    let mut fs = MemFs::new();
    let mut doc = sample_doc();
    doc.source_files = vec![
        entry("MyReadme.txt", "X"),
        entry("Dockerfile", "evil"),
        entry("sub/makefile_fragment.mk", "evil"),
        entry("ok.txt", "fine"),
    ];
    materialize(&mut fs, &doc, "t").unwrap();
    assert_eq!(fs.read("t/README.md").unwrap(), "# demo\n");
    assert_eq!(fs.read("t/Dockerfile").unwrap(), "FROM scratch\n");
    assert!(fs.read("t/MyReadme.txt").is_none());
    assert!(fs.read("t/sub/makefile_fragment.mk").is_none());
    assert_eq!(fs.read("t/ok.txt").unwrap(), "fine");
}

#[test]
fn should_skip_goes_by_lowercased_substring() {
    assert!(should_skip("MYREADME.TXT"));
    assert!(should_skip("DoCkErFiLe.old"));
    assert!(should_skip("a_MAKEFILE_b"));
    assert!(!should_skip("main.py"));
    assert!(!should_skip("readm.txt"));
}

#[test]
fn overwrite_idempotence() {
    let mut once = MemFs::new();
    let mut twice = MemFs::new();
    let doc = sample_doc();
    materialize(&mut once, &doc, "p").unwrap();
    materialize(&mut twice, &doc, "p").unwrap();
    materialize(&mut twice, &doc, "p").unwrap();
    for path in ["p/Dockerfile", "p/Makefile", "p/README.md", "p/main.py"] {
        assert_eq!(once.read(path), twice.read(path));
    }
}

#[test]
fn duplicate_name_last_write_wins() {
    let mut fs = MemFs::new();
    let mut doc = sample_doc();
    doc.source_files = vec![entry("a.txt", "1"), entry("a.txt", "2")];
    materialize(&mut fs, &doc, "t").unwrap();
    assert_eq!(fs.read("t/a.txt").unwrap(), "2");
}

#[test]
fn nested_path_creation() {
    let mut fs = MemFs::new();
    let mut doc = sample_doc();
    doc.source_files = vec![entry("src/lib/util.py", "pass")];
    materialize(&mut fs, &doc, "t").unwrap();
    assert!(fs.has_dir("t"));
    assert!(fs.has_dir("t/src"));
    assert!(fs.has_dir("t/src/lib"));
    assert!(!fs.has_dir("t/src/lib/util.py"));
    assert_eq!(fs.read("t/src/lib/util.py").unwrap(), "pass");
}

#[test]
fn partial_failure_reports_third_file_and_keeps_first_two() {
    let mut fs = MemFs::new();
    fs.deny("t/c.txt");
    let mut doc = sample_doc();
    doc.source_files = vec![
        entry("a.txt", "1"),
        entry("b.txt", "2"),
        entry("c.txt", "3"),
        entry("d.txt", "4"),
        entry("e.txt", "5"),
    ];
    let e = materialize(&mut fs, &doc, "t").unwrap_err();
    assert_eq!(e.path, "t/c.txt");
    assert_eq!(fs.read("t/a.txt").unwrap(), "1");
    assert_eq!(fs.read("t/b.txt").unwrap(), "2");
    assert!(fs.read("t/c.txt").is_none());
    assert!(fs.read("t/d.txt").is_none());
    assert!(fs.read("t/e.txt").is_none());
    assert_eq!(fs.read("t/README.md").unwrap(), "# demo\n");
}

#[test]
fn failed_first_canonical_write_stops_pipeline() {
    let mut fs = MemFs::new();
    fs.deny("t/Dockerfile");
    let doc = sample_doc();
    let e = materialize(&mut fs, &doc, "t").unwrap_err();
    assert_eq!(e.path, "t/Dockerfile");
    assert!(fs.read("t/Makefile").is_none());
    assert!(fs.read("t/README.md").is_none());
    assert!(fs.read("t/main.py").is_none());
}

#[test]
fn create_source_files_alone_skips_and_writes() {
    let mut fs = MemFs::new();
    let files = vec![entry("x/y.txt", "deep"), entry("notes-README", "skipme")];
    create_source_files(&mut fs, "base", &files).unwrap();
    assert_eq!(fs.read("base/x/y.txt").unwrap(), "deep");
    assert!(fs.read("base/notes-README").is_none());
    assert!(fs.has_dir("base/x"));
}

#[test]
fn string_utilities_agree_with_std() {
    assert!(str_contains("hello world", "lo wo"));
    assert!(!str_contains("hello", "world"));
    assert!(str_contains("abc", ""));
    assert!(str_eq("same", "same"));
    assert!(!str_eq("same", "sam"));
}
