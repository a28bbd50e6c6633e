//! Which names are those of assembly, in terms of their characters.

use vstd::prelude::*;
use vstd::utf8::encode_utf8;

use crate::filter::is_asm_document;
use crate::filter::is_asm_extension;
use crate::filter::is_asm_language;
use crate::filter::is_asm_path;
use crate::filter::is_asm_uri;
use crate::filter::may_be_asm;
use crate::path::extension;
use crate::path::host_may_find;
use crate::path::is_behind_share;
use crate::path::last_position;
use crate::path::lemma_last_position;
use crate::path::may_find_none;
use crate::path::may_have_prefix;
use crate::text::ascii_lowercase;
use crate::text::document_sized;
use crate::text::lower;
use crate::text::within_limit;
use crate::uri::is_uri;
use crate::uri::uri_path;
use crate::uri::Uri;

verus! {

/// Small letters stand in for ASCII capital letters, and every other character for itself.
pub proof fn law_lowercase(text: Seq<char>, c: char)
    ensures
        'A' <= c <= 'Z' ==> lower(c) as u32 == c as u32 + 32,
        !('A' <= c <= 'Z') ==> lower(c) == c,
        ascii_lowercase(text).len() == text.len(),
        forall|i: int|
            0 <= i < text.len() ==> #[trigger] ascii_lowercase(text)[i] == lower(text[i]),
{
}

/// The languages of assembly are `asm` and `assembly`, in whatever case.
pub proof fn law_languages_of_assembly(language_id: Seq<char>)
    ensures
        is_asm_language(language_id) <==> ascii_lowercase(language_id) == "asm"@ || ascii_lowercase(
            language_id,
        ) == "assembly"@,
{
}

/// The extensions of assembly are `asm` and `s`, in whatever case.
pub proof fn law_extensions_of_assembly(ext: Seq<char>)
    ensures
        is_asm_extension(Some(ext)) <==> ascii_lowercase(ext) == "asm"@ || ascii_lowercase(ext)
            == "s"@,
        !is_asm_extension(None),
{
}

/// A document is assembly by its URI, whatever its language, and by its language, whatever its URI.
pub proof fn law_language_or_uri(asm_uri: bool, language_id: Seq<char>)
    ensures
        is_asm_document(asm_uri, Some(language_id)) <==> asm_uri || ascii_lowercase(language_id)
            == "asm"@ || ascii_lowercase(language_id) == "assembly"@,
        is_asm_document(asm_uri, None) <==> asm_uri,
{
}

/// A URI names an assembly file where the extension of its path is one of assembly.
pub proof fn law_uris_of_assembly(uri: Seq<char>, path: Seq<char>)
    requires
        uri_path(uri) == Some(path),
    ensures
        is_asm_uri(uri) == is_asm_path(path),
        is_asm_path(path) <==> extension(path) is Some && (ascii_lowercase(extension(path)->0)
            == "asm"@ || ascii_lowercase(extension(path)->0) == "s"@),
{
}

/// A parsed URI is taken for that of an assembly file where the extension that the system at hand
/// finds in its path is one of assembly.
pub proof fn law_parsed_uris_of_assembly(uri: Uri)
    ensures
        uri.is_asm() <==> uri.extension() is Some && (ascii_lowercase(uri.extension()->0) == "asm"@
            || ascii_lowercase(uri.extension()->0) == "s"@),
{
}

/// The extension that the system at hand finds is that of the path, but where the path begins with
/// a character and a colon or with two slashes: there it may find none.
pub proof fn law_found_extensions(path: Seq<char>, found: Option<Seq<char>>)
    requires
        host_may_find(path, found),
    ensures
        found is Some ==> found == extension(path),
        path.len() < 2 || path[1] != ':' && !(path[0] == '/' && path[1] == '/') ==> found
            == extension(path),
{
}

/// What the system at hand says of a URI is what its extension says, but where its path begins with
/// a character and a colon or with two slashes: there it may not take it for assembly.
pub proof fn law_uris_on_this_system(uri: Seq<char>, path: Seq<char>, asm_uri: bool)
    requires
        uri_path(uri) == Some(path),
        may_be_asm(uri, asm_uri),
    ensures
        asm_uri ==> is_asm_uri(uri),
        path.len() < 2 || path[1] != ':' && !(path[0] == '/' && path[1] == '/') ==> asm_uri
            == is_asm_uri(uri),
{
}

/// What may be a prefix is a character and a colon, or two slashes, at the front of a path.
pub proof fn law_prefixes(path: Seq<char>)
    ensures
        may_have_prefix(path) <==> path.len() >= 2 && (path[1] == ':' || (path[0] == '/' && path[1]
            == '/')),
{
}

proof fn lemma_name_after(directory: Seq<char>, name: Seq<char>)
    requires
        directory.len() == 0 || directory.last() == '/',
        !name.contains('/'),
    ensures
        last_position(directory + name, '/') == directory.len() - 1,
        (directory + name).skip(directory.len() as int) == name,
{
    let path = directory + name;
    let at = last_position(path, '/');
    lemma_last_position(path, '/');
    assert(path.skip(directory.len() as int) =~= name);
    if at >= directory.len() {
        assert(name[at - directory.len()] == '/');
    }
    if directory.len() > 0 {
        assert(path[directory.len() - 1] == '/');
    }
}

/// The extension of a file is what follows the last dot of its name, whatever directory it is in.
pub proof fn law_extension_follows_the_last_dot(
    directory: Seq<char>,
    stem: Seq<char>,
    ext: Seq<char>,
)
    requires
        directory.len() == 0 || directory.last() == '/',
        stem.len() > 0,
        !stem.contains('/'),
        !ext.contains('/'),
        !ext.contains('.'),
        stem != seq!['.'] || ext.len() > 0,
    ensures
        extension(directory + (stem + seq!['.'] + ext)) == Some(ext),
{
    let name = stem + seq!['.'] + ext;
    let n = stem.len() as int;
    assert(!name.contains('/')) by {
        if name.contains('/') {
            let i = choose|i: int| 0 <= i < name.len() && name[i] == '/';
            if i < n {
                assert(stem[i] == '/');
            } else if i > n {
                assert(ext[i - n - 1] == '/');
            }
        }
    }
    lemma_name_after(directory, name);
    assert(name[n] == '.');
    if name == seq!['.', '.'] {
        assert(name.len() == 2);
        assert(ext.len() == 0 && stem[0] == name[0]);
        assert(stem =~= seq!['.']);
    }
    lemma_last_position(name, '.');
    let dot = last_position(name, '.');
    if dot > n {
        assert(ext[dot - n - 1] == '.');
    }
    assert(name.skip(n + 1) =~= ext);
}

/// A name without a dot, or with none but at its front, has no extension. Neither have `..` and the
/// empty path.
pub proof fn law_names_without_extension(directory: Seq<char>, name: Seq<char>)
    requires
        directory.len() == 0 || directory.last() == '/',
        name.len() > 0,
        name != seq!['.'],
        !name.contains('/'),
        forall|i: int| 1 <= i < name.len() ==> name[i] != '.',
    ensures
        extension(directory + name) is None,
        extension(directory + seq!['.', '.']) is None,
        extension(Seq::empty()) is None,
        extension(seq!['.']) is None,
        extension(seq!['/']) is None,
{
    lemma_name_after(directory, name);
    lemma_last_position(name, '.');
    assert(name != seq!['.', '.']) by {
        if name == seq!['.', '.'] {
            assert(name[1] == '.');
        }
    }
    let parent = seq!['.', '.'];
    assert(!parent.contains('/')) by {
        assert(parent[0] == '.' && parent[1] == '.');
    }
    lemma_name_after(directory, parent);
    assert(parent != seq!['.']) by {
        assert(parent.len() == 2 && seq!['.'].len() == 1);
    }
    let nothing = Seq::<char>::empty();
    assert(last_position(nothing, '/') == -1);
    assert(nothing.skip(0) =~= nothing);
    let here = seq!['.'];
    assert(!here.contains('/')) by {
        assert(here[0] == '.');
    }
    assert(nothing + here =~= here);
    lemma_name_after(nothing, here);
    let root = seq!['/'];
    assert(root + nothing =~= root);
    lemma_name_after(root, nothing);
    assert(root.take(0) =~= nothing);
    assert(crate::path::file_name(nothing) is None);
    assert(crate::path::file_name(root) is None);
}

/// A slash at the end of a path, or a slash and a dot, does not change its extension.
pub proof fn law_trailing_slashes(path: Seq<char>)
    ensures
        extension(path.push('/')) == extension(path),
        extension(path.push('/').push('.')) == extension(path),
{
    let n = path.len() as int;
    let slashed = path.push('/');
    assert(last_position(slashed, '/') == n);
    assert(slashed.skip(n + 1) =~= Seq::<char>::empty());
    assert(slashed.take(n) =~= path);
    let dotted = slashed.push('.');
    assert(dotted.drop_last() =~= slashed);
    assert(last_position(dotted, '/') == n);
    assert(dotted.skip(n + 1) =~= seq!['.']);
    assert(dotted.take(n) =~= path);
}

/// A file on a drive is found where there is an extension behind the drive.
pub proof fn law_extensions_behind_a_drive_are_found(path: Seq<char>, found: Option<Seq<char>>)
    requires
        path.len() >= 2,
        path[1] == ':',
        extension(path.skip(2)) is Some,
        host_may_find(path, found),
    ensures
        found == extension(path),
{
}

/// A file on a share of a server, in whatever directory, is found.
pub proof fn law_extensions_behind_a_share_are_found(
    server: Seq<char>,
    share: Seq<char>,
    directory: Seq<char>,
    stem: Seq<char>,
    ext: Seq<char>,
    found: Option<Seq<char>>,
)
    requires
        server.len() > 0,
        !server.contains('/'),
        server[0] != ':',
        share.len() > 0,
        !share.contains('/'),
        directory.len() > 0,
        directory[0] == '/',
        directory.last() == '/',
        stem.len() > 0,
        !stem.contains('/'),
        !ext.contains('/'),
        !ext.contains('.'),
        stem != seq!['.'] || ext.len() > 0,
        host_may_find(
            seq!['/', '/'] + server + seq!['/'] + share + (directory + (stem + seq!['.'] + ext)),
            found,
        ),
    ensures
        found == Some(ext),
{
    let file = directory + (stem + seq!['.'] + ext);
    let front = seq!['/', '/'] + server + seq!['/'] + share;
    let path = front + file;
    law_extension_follows_the_last_dot(directory, stem, ext);
    law_extension_follows_the_last_dot(front + directory, stem, ext);
    assert(path =~= front + directory + (stem + seq!['.'] + ext));
    if may_find_none(path) {
        let (a, gap, b, rest) = choose|
            a: Seq<char>,
            gap: Seq<char>,
            b: Seq<char>,
            rest: Seq<char>,
        |
            #[trigger] is_behind_share(path, a, gap, b, rest) && extension(rest) is None;
        assert(is_behind_share(path, a, gap, b, rest));
        let n = server.len() as int;
        let m = share.len() as int;
        assert(path[2 + n] == '/');
        assert(path[a.len() + 2int] == gap[0]);
        if a.len() < n {
            assert(path[a.len() + 2int] == server[a.len() as int]);
        } else if a.len() > n {
            assert(a[n] == path[2 + n]);
        }
        assert(a.len() == n);
        if gap.len() > 1 {
            assert(path[2 + n + 1] == gap[1]);
            assert(path[2 + n + 1] == share[0]);
        }
        assert(gap.len() == 1);
        assert(path[3 + n + m] == file[0]);
        if b.len() < m {
            assert(rest.len() > 0);
            assert(path[3 + n + b.len()] == rest[0]);
            assert(path[3 + n + b.len()] == share[b.len() as int]);
        } else if b.len() > m {
            assert(b[m] == path[3 + n + m]);
        }
        assert(b.len() == m);
        assert(rest =~= path.skip(3 + n + m));
        assert(file =~= path.skip(3 + n + m));
    }
}

/// Sizes are counted in bytes of UTF-8. A URI has a path.
pub proof fn law_sizes(text: Seq<char>)
    ensures
        within_limit(text) <==> encode_utf8(text).len() <= 0x7fff_ffff,
        document_sized(text) <==> encode_utf8(text).len() <= 0xffff_ffff,
        is_uri(text) <==> encode_utf8(text).len() <= 0x7fff_ffff && uri_path(text) is Some,
{
}

} // verus!
