//! Which compile commands produce the diagnostics of a file, and how these are published.

use vstd::prelude::*;

use crate::filter::is_supported_asm_uri;
use crate::text::same_text;
use crate::uri::Uri;

verus! {

/// A diagnostic of `lsp_types`.
#[verifier::external_type_specification]
#[verifier::external_body]
pub struct ExDiagnostic(lsp_types::Diagnostic);

/// The switches for diagnostics in a project's configuration.
#[derive(Clone, Copy, Debug, PartialEq, Eq)]
pub struct ConfigOptions {
    /// Whether diagnostics are produced.
    pub diagnostics: Option<bool>,
    /// Whether a default command is tried for a file that no compile command is for.
    pub default_diagnostics: Option<bool>,
}

/// A project's configuration. Once it is loaded, its options and both switches are set.
#[derive(Clone, Copy, Debug, PartialEq, Eq)]
pub struct Config {
    pub opts: Option<ConfigOptions>,
}

impl Config {
    /// Whether the switch for diagnostics is set, one way or the other.
    pub open spec fn is_loaded(self) -> bool {
        self.opts matches Some(opts) && opts.diagnostics is Some
    }

    /// Whether a default command is tried.
    pub open spec fn wants_default(self) -> bool {
        self.opts matches Some(opts) && opts.default_diagnostics == Some(true)
    }

    /// Whether the switch for diagnostics is on.
    pub open spec fn is_switched_on(self) -> bool {
        self.opts matches Some(opts) && opts.diagnostics == Some(true)
    }

    /// Whether diagnostics are produced.
    pub fn diagnostics_enabled(&self) -> (r: bool)
        requires
            self.is_loaded(),
        ensures
            r == self.is_switched_on(),
            self.opts->0.diagnostics == Some(r),
    {
        self.opts.unwrap().diagnostics.unwrap()
    }

    /// Whether a default command is tried for a file that no compile command is for.
    pub fn default_diagnostics_enabled(&self) -> (r: bool)
        ensures
            r == self.wants_default(),
    {
        match self.opts {
            Some(opts) => match opts.default_diagnostics {
                Some(wanted) => wanted,
                None => false,
            },
            None => false,
        }
    }
}

/// Whether diagnostics are wanted for a file: it is assembly, and its project has them switched on.
pub open spec fn wants_diagnostics(asm_uri: bool, cfg: Config) -> bool {
    asm_uri && cfg.is_switched_on()
}

/// Whether diagnostics are to be produced for a file, once one is asked for them. Where they are
/// not, nothing is sent.
pub fn diagnostics_wanted(uri: &Uri, cfg: &Config) -> (r: bool)
    requires
        uri.is_asm() ==> cfg.is_loaded(),
    ensures
        r == wants_diagnostics(uri.is_asm(), *cfg),
{
    is_supported_asm_uri(uri) && cfg.diagnostics_enabled()
}

/// A component of a path of the file system.
#[derive(Debug)]
pub enum PathComponent {
    /// A prefix that only some systems have, such as a drive.
    Prefix(String),
    RootDir,
    CurDir,
    ParentDir,
    /// A name, in the bytes that the system has for it.
    Normal(Vec<u8>),
}

/// What a path component is.
pub enum Component {
    Prefix(Seq<char>),
    RootDir,
    CurDir,
    ParentDir,
    Normal(Seq<u8>),
}

impl View for PathComponent {
    type V = Component;

    open spec fn view(&self) -> Component {
        match *self {
            PathComponent::Prefix(prefix) => Component::Prefix(prefix@),
            PathComponent::RootDir => Component::RootDir,
            PathComponent::CurDir => Component::CurDir,
            PathComponent::ParentDir => Component::ParentDir,
            PathComponent::Normal(name) => Component::Normal(name@),
        }
    }
}

/// What the components of a path are.
pub open spec fn components(path: Seq<PathComponent>) -> Seq<Component> {
    path.map_values(|component: PathComponent| component@)
}

fn same_bytes(a: &Vec<u8>, b: &Vec<u8>) -> (r: bool)
    ensures
        r == (a@ == b@),
{
    if a.len() != b.len() {
        return false;
    }
    let mut i: usize = 0;
    while i < a.len()
        invariant
            i <= a@.len(),
            a@.len() == b@.len(),
            forall|j: int| 0 <= j < i ==> a@[j] == b@[j],
        decreases a@.len() - i,
    {
        if a[i] != b[i] {
            return false;
        }
        i += 1;
    }
    assert(a@ =~= b@);
    true
}

fn same_component(a: &PathComponent, b: &PathComponent) -> (r: bool)
    ensures
        r == (a@ == b@),
{
    match (a, b) {
        (PathComponent::Prefix(x), PathComponent::Prefix(y)) => *x == *y,
        (PathComponent::RootDir, PathComponent::RootDir) => true,
        (PathComponent::CurDir, PathComponent::CurDir) => true,
        (PathComponent::ParentDir, PathComponent::ParentDir) => true,
        (PathComponent::Normal(x), PathComponent::Normal(y)) => same_bytes(x, y),
        _ => false,
    }
}

/// Whether two paths are the same, component by component.
pub fn same_path(a: &Vec<PathComponent>, b: &Vec<PathComponent>) -> (r: bool)
    ensures
        r == (components(a@) == components(b@)),
{
    assert(components(a@).len() == a@.len() && components(b@).len() == b@.len());
    if a.len() != b.len() {
        return false;
    }
    let mut i: usize = 0;
    while i < a.len()
        invariant
            i <= a@.len(),
            a@.len() == b@.len(),
            forall|j: int| 0 <= j < i ==> #[trigger] components(a@)[j] == components(b@)[j],
        decreases a@.len() - i,
    {
        assert(components(a@)[i as int] == a@[i as int]@);
        assert(components(b@)[i as int] == b@[i as int]@);
        if !same_component(&a[i], &b[i]) {
            return false;
        }
        i += 1;
    }
    assert(components(a@) =~= components(b@));
    true
}

/// Which files a compile command is for.
pub enum SourceFile {
    /// All of them.
    All,
    /// One file, by its canonical path, or none where the file has no such path.
    File(Option<Vec<PathComponent>>),
}

impl SourceFile {
    /// Whether the command is for the file at that path.
    pub open spec fn is_for(self, path: Seq<Component>) -> bool {
        match self {
            SourceFile::All => true,
            SourceFile::File(Some(source)) => components(source@) == path,
            SourceFile::File(None) => false,
        }
    }

    /// Whether the command is for the file at that path.
    pub fn applies_to(&self, path: &Vec<PathComponent>) -> (r: bool)
        ensures
            r == self.is_for(components(path@)),
    {
        match self {
            SourceFile::All => true,
            SourceFile::File(Some(source)) => same_path(source, path),
            SourceFile::File(None) => false,
        }
    }
}

/// The path of the file that a request names.
pub enum UriConversion {
    /// It is canonical.
    Canonicalized(Vec<PathComponent>),
    /// It could not be made canonical, and is as the URI has it.
    Unchecked(Vec<PathComponent>),
}

impl UriConversion {
    /// The path, canonical or not.
    pub open spec fn path(self) -> Seq<Component> {
        match self {
            UriConversion::Canonicalized(path) => components(path@),
            UriConversion::Unchecked(path) => components(path@),
        }
    }
}

/// The commands that produce the diagnostics of a file.
pub struct DiagnosticsPlan {
    /// The places of the compile commands to run, in their order.
    pub commands: Vec<usize>,
    /// Whether the default command is run.
    pub default_command: bool,
}

/// The places, below `n`, of the compile commands that are for the file at that path.
pub open spec fn commands_for(sources: Seq<SourceFile>, path: Seq<Component>, n: int) -> Seq<usize>
    decreases n,
{
    if n <= 0 {
        Seq::empty()
    } else if sources[n - 1].is_for(path) {
        commands_for(sources, path, n - 1).push((n - 1) as usize)
    } else {
        commands_for(sources, path, n - 1)
    }
}

/// The compile commands that are for the file at that path, in their order.
pub open spec fn chosen(sources: Seq<SourceFile>, path: Seq<Component>) -> Seq<SourceFile> {
    commands_for(sources, path, sources.len() as int).map_values(|i: usize| sources[i as int])
}

/// Whether `plan` is the plan for a file: none where it is not assembly, and else the compile
/// commands that are for it or, where there is none and the configuration wants it, the default
/// command.
pub open spec fn is_planned(
    asm_uri: bool,
    path: Seq<Component>,
    cfg: Config,
    sources: Seq<SourceFile>,
    plan: Option<DiagnosticsPlan>,
) -> bool {
    match plan {
        Some(plan) => {
            &&& asm_uri
            &&& plan.commands@ == commands_for(sources, path, sources.len() as int)
            &&& plan.default_command == (plan.commands@.len() == 0 && cfg.wants_default())
        },
        None => !asm_uri,
    }
}

/// Plans the diagnostics of a file: the compile commands that are for it are run or, where there is
/// none and the configuration wants it, the default command. Only assembly files have diagnostics.
pub fn handle_diagnostics(
    uri: &Uri,
    request_path: &UriConversion,
    cfg: &Config,
    sources: &Vec<SourceFile>,
) -> (r: Option<DiagnosticsPlan>)
    ensures
        is_planned(uri.is_asm(), request_path.path(), *cfg, sources@, r),
        r is Some <==> uri.is_asm(),
        r matches Some(plan) ==> {
            &&& plan.commands@ == commands_for(
                sources@,
                request_path.path(),
                sources@.len() as int,
            )
            &&& plan.default_command == (plan.commands@.len() == 0 && cfg.wants_default())
        },
{
    if !is_supported_asm_uri(uri) {
        return None;
    }
    let path = match request_path {
        UriConversion::Canonicalized(path) => path,
        UriConversion::Unchecked(path) => path,
    };
    let mut commands: Vec<usize> = Vec::new();
    let mut i: usize = 0;
    while i < sources.len()
        invariant
            i <= sources@.len(),
            components(path@) == request_path.path(),
            commands@ == commands_for(sources@, request_path.path(), i as int),
        decreases sources@.len() - i,
    {
        if sources[i].applies_to(path) {
            commands.push(i);
        }
        i += 1;
    }
    let default_command = commands.len() == 0 && cfg.default_diagnostics_enabled();
    Some(DiagnosticsPlan { commands, default_command })
}

/// The parameters of the notification that publishes diagnostics.
pub struct PublishDiagnosticsParams {
    pub uri: Uri,
    pub diagnostics: Vec<lsp_types::Diagnostic>,
    pub version: Option<i32>,
}

/// A notification from the server that publishes diagnostics.
pub struct PublishDiagnostics {
    pub method: String,
    pub params: PublishDiagnosticsParams,
}

impl PublishDiagnostics {
    /// Whether this publishes those diagnostics for that file.
    pub open spec fn publishes(
        self,
        uri: Seq<char>,
        diagnostics: Seq<lsp_types::Diagnostic>,
    ) -> bool {
        &&& self.method@ == "textDocument/publishDiagnostics"@
        &&& self.params.uri@ == uri
        &&& self.params.diagnostics@ == diagnostics
        &&& self.params.version is None
    }
}

/// Publishes the diagnostics of a file, for whatever version of it there is.
pub fn publish_diagnostics(uri: &Uri, diagnostics: Vec<lsp_types::Diagnostic>) -> (r:
    PublishDiagnostics)
    ensures
        r.publishes(uri@, diagnostics@),
        r.method@ == "textDocument/publishDiagnostics"@,
        r.params.uri@ == uri@,
        r.params.diagnostics == diagnostics,
        r.params.version is None,
{
    PublishDiagnostics {
        method: "textDocument/publishDiagnostics".to_owned(),
        params: PublishDiagnosticsParams { uri: uri.clone(), diagnostics, version: None },
    }
}

/// `path` without the prefix `\\?\`, where it has one.
pub open spec fn without_verbatim_prefix(path: Seq<char>) -> Seq<char> {
    if "\\\\?\\"@.is_prefix_of(path) {
        path.skip(4)
    } else {
        path
    }
}

/// The canonical path of a Windows file without the prefix `\\?\`, where it has one.
pub fn strip_verbatim_prefix(path: &str) -> (r: String)
    ensures
        r@ == without_verbatim_prefix(path@),
        r@ == if "\\\\?\\"@.is_prefix_of(path@) {
            path@.skip(4)
        } else {
            path@
        },
{
    let prefix = "\\\\?\\";
    proof {
        reveal_strlit("\\\\?\\");
    }
    let length = path.unicode_len();
    if length >= 4 && same_text(path.substring_char(0, 4), prefix) {
        assert(prefix@.is_prefix_of(path@));
        path.substring_char(4, length).to_owned()
    } else {
        path.to_owned()
    }
}

} // verus!
