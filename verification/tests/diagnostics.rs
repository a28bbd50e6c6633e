use asm_lsp::diagnostics::{
    diagnostics_wanted, handle_diagnostics, publish_diagnostics, same_path, strip_verbatim_prefix,
    Config, ConfigOptions, PathComponent, SourceFile, UriConversion,
};
use asm_lsp::uri::Uri;
use lsp_types::notification::Notification as _;

fn path(names: &[&str]) -> Vec<PathComponent> {
    let mut components = vec![PathComponent::RootDir];
    for name in names {
        components.push(PathComponent::Normal(name.as_bytes().to_vec()));
    }
    components
}

fn config(diagnostics: Option<bool>, default_diagnostics: Option<bool>) -> Config {
    Config { opts: Some(ConfigOptions { diagnostics, default_diagnostics }) }
}

fn plan(sources: Vec<SourceFile>, cfg: &Config) -> Option<(Vec<usize>, bool)> {
    let uri = Uri::parse("file:///tmp/a.s").unwrap();
    let request = UriConversion::Canonicalized(path(&["tmp", "a.s"]));
    handle_diagnostics(&uri, &request, cfg, &sources)
        .map(|plan| (plan.commands, plan.default_command))
}

#[test]
fn commands_for_the_file_are_run_in_their_order() {
    let sources = vec![
        SourceFile::File(Some(path(&["tmp", "b.s"]))),
        SourceFile::All,
        SourceFile::File(None),
        SourceFile::File(Some(path(&["tmp", "a.s"]))),
        SourceFile::File(Some(path(&["tmp", "a.s", "x"]))),
    ];
    assert_eq!(plan(sources, &config(Some(true), Some(true))), Some((vec![1, 3], false)));
}

#[test]
fn the_default_command_is_a_last_resort() {
    let others = || vec![SourceFile::File(Some(path(&["tmp", "b.s"]))), SourceFile::File(None)];
    assert_eq!(plan(others(), &config(Some(true), Some(true))), Some((vec![], true)));
    assert_eq!(plan(others(), &config(Some(true), Some(false))), Some((vec![], false)));
    assert_eq!(plan(others(), &config(Some(true), None)), Some((vec![], false)));
    assert_eq!(plan(others(), &Config { opts: None }), Some((vec![], false)));
    assert_eq!(plan(vec![], &config(None, Some(true))), Some((vec![], true)));
}

#[test]
fn files_that_are_not_assembly_have_no_diagnostics() {
    let uri = Uri::parse("file:///tmp/a.c").unwrap();
    let request = UriConversion::Canonicalized(path(&["tmp", "a.c"]));
    let cfg = config(Some(true), Some(true));
    assert!(handle_diagnostics(&uri, &request, &cfg, &vec![SourceFile::All]).is_none());
}

#[test]
fn a_path_that_is_not_canonical_is_used_as_it_is() {
    let uri = Uri::parse("file:///tmp/a.s").unwrap();
    let request = UriConversion::Unchecked(path(&["tmp", "a.s"]));
    let sources = vec![SourceFile::File(Some(path(&["tmp", "a.s"])))];
    let plan = handle_diagnostics(&uri, &request, &config(Some(true), None), &sources).unwrap();
    assert_eq!(plan.commands, vec![0]);
}

#[test]
fn paths_are_compared_component_by_component() {
    assert!(same_path(&path(&["a", "b"]), &path(&["a", "b"])));
    assert!(!same_path(&path(&["a", "b"]), &path(&["a", "c"])));
    assert!(!same_path(&path(&["a", "b"]), &path(&["a"])));
    assert!(!same_path(&path(&["a"]), &vec![PathComponent::Normal(b"a".to_vec())]));
    let one = |component| vec![component];
    assert!(same_path(&one(PathComponent::CurDir), &one(PathComponent::CurDir)));
    assert!(same_path(&one(PathComponent::ParentDir), &one(PathComponent::ParentDir)));
    assert!(!same_path(&one(PathComponent::CurDir), &one(PathComponent::ParentDir)));
    let drive = |name: &str| one(PathComponent::Prefix(name.to_string()));
    assert!(same_path(&drive("C:"), &drive("C:")));
    assert!(!same_path(&drive("C:"), &drive("D:")));
}

#[test]
fn the_switch_for_diagnostics() {
    assert!(config(Some(true), None).diagnostics_enabled());
    assert!(!config(Some(false), Some(true)).diagnostics_enabled());

    let (s, c) = (Uri::parse("file:///a.s").unwrap(), Uri::parse("file:///a.c").unwrap());
    assert!(diagnostics_wanted(&s, &config(Some(true), None)));
    assert!(!diagnostics_wanted(&s, &config(Some(false), Some(true))));
    assert!(!diagnostics_wanted(&c, &config(Some(true), None)));
    assert!(!diagnostics_wanted(&c, &config(Some(false), None)));
}

#[test]
fn commands_for_other_files_do_not_matter() {
    let mine = || SourceFile::File(Some(path(&["tmp", "a.s"])));
    let other = || SourceFile::File(Some(path(&["tmp", "b.s"])));
    let missing = || SourceFile::File(None);
    let cfg = config(Some(true), Some(true));
    let among = plan(vec![other(), mine(), missing(), SourceFile::All, other()], &cfg);
    assert_eq!(among, Some((vec![1, 3], false)));
    assert_eq!(plan(vec![mine(), SourceFile::All], &cfg), Some((vec![0, 1], false)));
    assert_eq!(plan(vec![other(), missing()], &cfg), plan(vec![], &cfg));
    assert_eq!(plan(vec![], &cfg), Some((vec![], true)));
}

#[test]
fn verbatim_prefixes_are_stripped() {
    assert_eq!(strip_verbatim_prefix("\\\\?\\C:\\a.s"), "C:\\a.s");
    assert_eq!(strip_verbatim_prefix("C:\\a.s"), "C:\\a.s");
    assert_eq!(strip_verbatim_prefix("\\\\?\\"), "");
    assert_eq!(strip_verbatim_prefix("\\\\?"), "\\\\?");
    assert_eq!(strip_verbatim_prefix(""), "");
    assert_eq!(strip_verbatim_prefix("\\\\?\\\u{e4}"), "\u{e4}");
}

#[test]
fn diagnostics_are_published_for_their_file() {
    let uri = Uri::parse("file:///tmp/a.s").unwrap();
    let diagnostic = lsp_types::Diagnostic {
        message: "no such instruction".to_string(),
        ..lsp_types::Diagnostic::default()
    };
    let published = publish_diagnostics(&uri, vec![diagnostic.clone()]);
    assert_eq!(published.method, lsp_types::notification::PublishDiagnostics::METHOD);
    assert_eq!(published.params.uri.as_str(), "file:///tmp/a.s");
    assert_eq!(published.params.diagnostics, vec![diagnostic]);
    assert_eq!(published.params.version, None);
}
