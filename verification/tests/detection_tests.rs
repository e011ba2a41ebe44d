use codstts::analyzer::ProjectAnalyzer;
use codstts::config::Config;
use codstts::detector::LanguageDetector;

fn detect(path: &str) -> Vec<u8> {
    LanguageDetector::new().detect_language(path.as_bytes(), None)
}

fn config_with_mapping(ext: &str, lang: &str) -> Config {
    let mut c = Config::default();
    c.language_mappings.push((ext.as_bytes().to_vec(), lang.as_bytes().to_vec()));
    c
}

#[test]
fn rust_by_extension() {
    assert_eq!(detect("main.rs"), b"Rust".to_vec());
}

#[test]
fn dockerfile_by_basename() {
    assert_eq!(detect("Dockerfile"), b"Dockerfile".to_vec());
    assert_eq!(detect("some/dir/dockerfile"), b"Dockerfile".to_vec());
    assert_eq!(detect("app.dockerfile"), b"Dockerfile".to_vec());
    assert_eq!(detect("App.DOCKERFILE"), b"Dockerfile".to_vec());
}

#[test]
fn unknown_extension_is_other() {
    assert_eq!(detect("script.unknownext"), b"Other".to_vec());
    assert_eq!(detect("noextension"), b"Other".to_vec());
}

#[test]
fn extension_is_lowercase_normalized() {
    assert_eq!(detect("stat.R"), b"R".to_vec());
    assert_eq!(detect("MOD.PY"), b"Python".to_vec());
}

#[test]
fn table_covers_known_languages() {
    for (path, lang) in [
        ("a.pyx", "Python"),
        ("a.mjs", "JavaScript"),
        ("a.cts", "TypeScript"),
        ("a.tsx", "React"),
        ("a.scss", "CSS"),
        ("a.xhtml", "HTML"),
        ("a.zsh", "Shell"),
        ("go.mod", "Go"),
        ("a.kts", "Java"),
        ("a.vue", "Vue"),
        ("a.gemspec", "Ruby"),
        ("a.phtml", "PHP"),
        ("a.h", "C"),
        ("a.hxx", "C++"),
        ("a.swift", "Swift"),
        ("a.mm", "Objective-C"),
        ("a.cs", "C#"),
        ("a.pm", "Perl"),
        ("a.scala", "Scala"),
        ("a.lua", "Lua"),
        ("a.dart", "Dart"),
        ("a.exs", "Elixir"),
        ("a.hs", "Haskell"),
        ("a.dockerfile", "Dockerfile"),
    ] {
        assert_eq!(detect(path), lang.as_bytes().to_vec(), "{}", path);
    }
}

#[test]
fn config_mapping_wins_over_extension_table() {
    let c = config_with_mapping("tsx", "MyReact");
    let d = LanguageDetector::new();
    assert_eq!(d.detect_language(b"a.tsx", Some(&c)), b"MyReact".to_vec());
}

#[test]
fn config_mapping_wins_over_dockerfile_heuristic() {
    let c = config_with_mapping("dockerfile", "Special");
    let d = LanguageDetector::new();
    assert_eq!(d.detect_language(b"x.dockerfile", Some(&c)), b"Special".to_vec());
}

#[test]
fn config_mapping_is_case_sensitive() {
    let c = config_with_mapping("TSX", "Upper");
    let d = LanguageDetector::new();
    assert_eq!(d.detect_language(b"a.tsx", Some(&c)), b"React".to_vec());
    assert_eq!(d.detect_language(b"a.TSX", Some(&c)), b"Upper".to_vec());
}

#[test]
fn override_wins_over_everything() {
    let mut d = LanguageDetector::new();
    d.load_overrides(b".", b"src/gen.rs linguist-language=Generated\n");
    let c = config_with_mapping("rs", "ConfigRust");
    assert_eq!(d.detect_language(b"./src/gen.rs", Some(&c)), b"Generated".to_vec());
    assert_eq!(d.detect_language(b"./src/other.rs", Some(&c)), b"ConfigRust".to_vec());
}

#[test]
fn malformed_override_lines_are_skipped() {
    let mut d = LanguageDetector::new();
    d.load_overrides(
        b".",
        b"justonetoken\nfoo.rs text\nbar.rs linguist-language=Ada\n",
    );
    assert_eq!(d.detect_language(b"./foo.rs", None), b"Rust".to_vec());
    assert_eq!(d.detect_language(b"./bar.rs", None), b"Ada".to_vec());
}

#[test]
fn override_paths_join_the_root() {
    let mut d = LanguageDetector::new();
    d.load_overrides(b"/repo", b"a.q linguist-language=Q\n");
    assert_eq!(d.detect_language(b"/repo/a.q", None), b"Q".to_vec());
    assert_eq!(d.detect_language(b"a.q", None), b"Other".to_vec());
}

#[test]
fn builtin_ignores_apply_without_configuration() {
    let a = ProjectAnalyzer::new();
    assert!(a.is_ignored(b"package-lock.json"));
    assert!(a.is_ignored(b"deep/dir/Cargo.lock"));
    assert!(a.is_ignored(b"notes.md"));
    assert!(a.is_ignored(b"logo.png"));
    assert!(a.is_ignored(b"MyREADMEfile.md"));
    assert!(!a.is_ignored(b"main.rs"));
}

#[test]
fn configured_path_prefix_excludes_known_extension() {
    let mut a = ProjectAnalyzer::new();
    let mut c = Config::default();
    c.ignore_paths.push(b"vendor".to_vec());
    a.set_config(c);
    assert!(a.is_ignored(b"vendor/lib.rs"));
    assert!(!a.is_ignored(b"src/lib.rs"));
}

#[test]
fn configured_basename_and_extension_excludes() {
    let mut a = ProjectAnalyzer::new();
    let mut c = Config::default();
    c.exclude_files.push(b"generated.rs".to_vec());
    c.exclude_extensions.push(b"snap".to_vec());
    a.set_config(c);
    assert!(a.is_ignored(b"src/generated.rs"));
    assert!(a.is_ignored(b"tests/output.snap"));
    assert!(!a.is_ignored(b"src/handwritten.rs"));
}

#[test]
fn hidden_files_have_no_extension() {
    // A leading dot alone opens no extension, so the name alone decides.
    assert_eq!(detect(".gitignore"), b"Other".to_vec());
    assert_eq!(detect("dir/.hidden"), b"Other".to_vec());
    assert_eq!(detect("a.tar.gz"), b"Other".to_vec());
}

#[test]
fn config_lookup_returns_mapped_language() {
    let c = config_with_mapping("foo", "FooLang");
    assert_eq!(c.get_language_mapping(b"foo"), Some(b"FooLang".to_vec()));
    assert_eq!(c.get_language_mapping(b"bar"), None);
}

#[test]
fn analyzer_applies_overrides_before_config() {
    let mut a = ProjectAnalyzer::new();
    a.load_overrides(b".", b"vendored.js linguist-language=Generated\n");
    let c = config_with_mapping("js", "MyJs");
    a.set_config(c);
    let mut stats = codstts::stats::LanguageStats::new();
    let mut others: Vec<Vec<u8>> = Vec::new();
    a.process_file(b"./vendored.js", b"x\n", &mut stats, &mut others);
    a.process_file(b"./plain.js", b"y\n", &mut stats, &mut others);
    let langs: Vec<Vec<u8>> = stats.stats.iter().map(|(k, _)| k.clone()).collect();
    assert!(langs.contains(&b"Generated".to_vec()));
    assert!(langs.contains(&b"MyJs".to_vec()));
    assert_eq!(stats.total_files, 2);
    assert!(others.is_empty());
}

#[test]
fn marker_is_found_in_any_later_token() {
    let mut d = LanguageDetector::new();
    d.load_overrides(b".", b"a.rs text eol=lf linguist-language=Ada\n");
    assert_eq!(d.detect_language(b"./a.rs", None), b"Ada".to_vec());
}

#[test]
fn marker_token_alone_binds_nothing() {
    let mut d = LanguageDetector::new();
    d.load_overrides(b".", b"linguist-language=Solo\n");
    assert_eq!(d.detect_language(b"./linguist-language=Solo", None), b"Other".to_vec());
}

#[test]
fn last_override_binding_wins() {
    let mut d = LanguageDetector::new();
    d.load_overrides(
        b".",
        b"a.x linguist-language=First\na.x linguist-language=Second\n",
    );
    assert_eq!(d.detect_language(b"./a.x", None), b"Second".to_vec());
}

#[test]
fn ignore_path_prefix_matches_whole_components() {
    let mut a = ProjectAnalyzer::new();
    let mut c = Config::default();
    c.ignore_paths.push(b"vendor".to_vec());
    c.ignore_paths.push(b"third/".to_vec());
    a.set_config(c);
    assert!(a.is_ignored(b"vendor"));
    assert!(a.is_ignored(b"vendor/lib.rs"));
    assert!(!a.is_ignored(b"vendorx/lib.rs"));
    assert!(a.is_ignored(b"third/lib.rs"));
    assert!(!a.is_ignored(b"thirdparty/lib.rs"));
}
