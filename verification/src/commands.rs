//! Which commands are run for a file, in terms of the paths that they are for.

use vstd::prelude::*;

use crate::diagnostics::chosen;
use crate::diagnostics::commands_for;
use crate::diagnostics::components;
use crate::diagnostics::is_planned;
use crate::diagnostics::wants_diagnostics;
use crate::diagnostics::without_verbatim_prefix;
use crate::diagnostics::Component;
use crate::diagnostics::Config;
use crate::diagnostics::DiagnosticsPlan;
use crate::diagnostics::PathComponent;
use crate::diagnostics::PublishDiagnostics;
use crate::diagnostics::SourceFile;
use crate::diagnostics::UriConversion;
use crate::laws::law_commands_are_those_for_the_file;

verus! {

/// A command for one file is run exactly where the whole of its canonical path is the path that is
/// asked for. A command for all files is always run, and one for a file that is missing never.
pub proof fn law_commands_are_chosen_by_the_whole_path(
    sources: Seq<SourceFile>,
    path: Seq<Component>,
    n: int,
    i: usize,
)
    requires
        0 <= n <= sources.len() <= usize::MAX,
    ensures
        commands_for(sources, path, n).contains(i) <==> i < n && match sources[i as int] {
            SourceFile::All => true,
            SourceFile::File(Some(source)) => components(source@) == path,
            SourceFile::File(None) => false,
        },
{
    law_commands_are_those_for_the_file(sources, path, n);
}

/// Of two files with different paths, a command for the one is not run for the other, however much
/// their paths have in common.
pub proof fn law_no_command_is_for_two_files(
    sources: Seq<SourceFile>,
    one: Seq<Component>,
    other: Seq<Component>,
    i: usize,
)
    requires
        sources.len() <= usize::MAX,
        i < sources.len(),
        sources[i as int] is File,
        commands_for(sources, one, sources.len() as int).contains(i),
        commands_for(sources, other, sources.len() as int).contains(i),
    ensures
        one == other,
{
    law_commands_are_chosen_by_the_whole_path(sources, one, sources.len() as int, i);
    law_commands_are_chosen_by_the_whole_path(sources, other, sources.len() as int, i);
}

/// The commands are run in the order in which they are listed, none of them twice, and what is
/// chosen by its place is the command at that place.
pub proof fn law_commands_keep_their_order(sources: Seq<SourceFile>, path: Seq<Component>)
    requires
        sources.len() <= usize::MAX,
    ensures
        chosen(sources, path).len() == commands_for(sources, path, sources.len() as int).len(),
        forall|a: int|
            0 <= a < chosen(sources, path).len() ==> #[trigger] chosen(sources, path)[a]
                == sources[commands_for(sources, path, sources.len() as int)[a] as int],
        forall|a: int, b: int|
            0 <= a < b < commands_for(sources, path, sources.len() as int).len()
                ==> #[trigger] commands_for(sources, path, sources.len() as int)[a]
                < #[trigger] commands_for(sources, path, sources.len() as int)[b],
{
    law_commands_are_those_for_the_file(sources, path, sources.len() as int);
}

/// Two components of a path are the same where both are of one sort and hold the same bytes or
/// characters.
pub proof fn law_components_are_told_apart(a: PathComponent, b: PathComponent)
    ensures
        a@ == b@ <==> match (a, b) {
            (PathComponent::Prefix(x), PathComponent::Prefix(y)) => x@ == y@,
            (PathComponent::RootDir, PathComponent::RootDir) => true,
            (PathComponent::CurDir, PathComponent::CurDir) => true,
            (PathComponent::ParentDir, PathComponent::ParentDir) => true,
            (PathComponent::Normal(x), PathComponent::Normal(y)) => x@ == y@,
            _ => false,
        },
{
}

/// Two paths are the same where they have as many components, and the same ones at each place.
pub proof fn law_paths_are_told_apart(a: Seq<PathComponent>, b: Seq<PathComponent>)
    ensures
        components(a) == components(b) <==> a.len() == b.len() && forall|i: int|
            0 <= i < a.len() ==> (#[trigger] a[i])@ == b[i]@,
        components(a).len() == a.len(),
{
    if components(a) == components(b) {
        assert(components(a).len() == a.len() && components(b).len() == b.len());
        assert forall|i: int| 0 <= i < a.len() implies (#[trigger] a[i])@ == b[i]@ by {
            assert(components(a)[i] == a[i]@ && components(b)[i] == b[i]@);
        }
    }
    if a.len() == b.len() && forall|i: int| 0 <= i < a.len() ==> (#[trigger] a[i])@ == b[i]@ {
        assert(components(a) =~= components(b));
    }
}

/// The path of a request is looked for as it is, canonical or not.
pub proof fn law_request_path(path: Vec<PathComponent>)
    ensures
        UriConversion::Canonicalized(path).path() == components(path@),
        UriConversion::Unchecked(path).path() == components(path@),
{
}

/// Diagnostics are wanted where the file is assembly and the switch for them is set to on, and a
/// default command is wanted where the switch for it is.
pub proof fn law_switches(asm_uri: bool, cfg: Config)
    ensures
        wants_diagnostics(asm_uri, cfg) <==> asm_uri && cfg.opts is Some
            && cfg.opts->0.diagnostics == Some(true),
        cfg.wants_default() <==> cfg.opts is Some && cfg.opts->0.default_diagnostics == Some(true),
        cfg.is_loaded() <==> cfg.opts is Some && cfg.opts->0.diagnostics is Some,
{
}

/// The plan for an assembly file runs the commands that are for its path, each at its place in the
/// list, and the default command exactly where no command is for it and the switch for the default
/// is on. For other files there is no plan.
pub proof fn law_plan_runs_what_is_for_the_file(
    asm_uri: bool,
    path: Seq<Component>,
    cfg: Config,
    sources: Seq<SourceFile>,
    plan: Option<DiagnosticsPlan>,
    i: usize,
)
    requires
        sources.len() <= usize::MAX,
        is_planned(asm_uri, path, cfg, sources, plan),
    ensures
        plan is Some <==> asm_uri,
        plan is Some ==> {
            &&& plan->0.commands@.contains(i) <==> i < sources.len() && match sources[i as int] {
                SourceFile::All => true,
                SourceFile::File(Some(source)) => components(source@) == path,
                SourceFile::File(None) => false,
            }
            &&& plan->0.default_command <==> {
                &&& forall|k: int|
                    0 <= k < sources.len() ==> match #[trigger] sources[k] {
                        SourceFile::All => false,
                        SourceFile::File(Some(source)) => components(source@) != path,
                        SourceFile::File(None) => true,
                    }
                &&& cfg.opts is Some
                &&& cfg.opts->0.default_diagnostics == Some(true)
            }
        },
{
    let n = sources.len() as int;
    let commands = commands_for(sources, path, n);
    law_commands_are_chosen_by_the_whole_path(sources, path, n, i);
    if commands.len() == 0 {
        assert forall|k: int| 0 <= k < sources.len() implies match #[trigger] sources[k] {
            SourceFile::All => false,
            SourceFile::File(Some(source)) => components(source@) != path,
            SourceFile::File(None) => true,
        } by {
            law_commands_are_chosen_by_the_whole_path(sources, path, n, k as usize);
            assert(!commands.contains(k as usize));
        }
    } else {
        let first = commands[0];
        assert(commands.contains(first));
        law_commands_are_chosen_by_the_whole_path(sources, path, n, first);
        assert(sources[first as int] is All || sources[first as int] is File);
    }
}

/// Diagnostics are published under the method for that, for the file that they are of, all of them
/// and in their order, and for no version of it in particular.
pub proof fn law_diagnostics_are_published(
    published: PublishDiagnostics,
    uri: Seq<char>,
    diagnostics: Seq<lsp_types::Diagnostic>,
)
    requires
        published.publishes(uri, diagnostics),
    ensures
        published.method@ == "textDocument/publishDiagnostics"@,
        published.params.uri@ == uri,
        published.params.diagnostics@ == diagnostics,
        published.params.version is None,
{
}

/// What follows the prefix of a path is kept, and a path without the prefix is kept whole.
pub proof fn law_verbatim_prefix_is_stripped(rest: Seq<char>)
    ensures
        without_verbatim_prefix(seq!['\\', '\\', '?', '\\'] + rest) == rest,
        rest.take(4) != seq!['\\', '\\', '?', '\\'] ==> without_verbatim_prefix(rest) == rest,
        rest.len() < 4 ==> without_verbatim_prefix(rest) == rest,
{
    reveal_strlit("\\\\?\\");
    let prefix = seq!['\\', '\\', '?', '\\'];
    assert("\\\\?\\"@ =~= prefix);
    assert(prefix.is_prefix_of(prefix + rest));
    assert((prefix + rest).skip(4) =~= rest);
    if prefix.is_prefix_of(rest) {
        assert(rest.take(4) =~= prefix);
    }
}

} // verus!
