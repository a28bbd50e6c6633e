//! The file name and the extension of a slash-separated path.

use vstd::prelude::*;

verus! {

/// The position of the last `c` in `s`, or -1 where `s` holds none.
pub open spec fn last_position(s: Seq<char>, c: char) -> int
    decreases s.len(),
{
    if s.len() == 0 {
        -1
    } else if s.last() == c {
        s.len() - 1
    } else {
        last_position(s.drop_last(), c)
    }
}

/// The last component of `path` that names a file or a directory.
///
/// Empty components and `.` are passed over, so a trailing slash does not count. A path that ends
/// in `..`, or that has no other component, names nothing.
pub open spec fn file_name(path: Seq<char>) -> Option<Seq<char>>
    decreases path.len(),
{
    let slash = last_position(path, '/');
    let last = path.skip(slash + 1);
    if last == Seq::<char>::empty() || last == seq!['.'] {
        if slash < 0 {
            None
        } else {
            proof {
                lemma_last_position(path, '/');
            }
            file_name(path.take(slash))
        }
    } else if last == seq!['.', '.'] {
        None
    } else {
        Some(last)
    }
}

/// What follows the last dot of a file name, unless that dot is its first character.
pub open spec fn name_extension(name: Seq<char>) -> Option<Seq<char>> {
    let dot = last_position(name, '.');
    if dot <= 0 {
        None
    } else {
        Some(name.skip(dot + 1))
    }
}

/// The extension of the file that `path` names.
pub open spec fn extension(path: Seq<char>) -> Option<Seq<char>> {
    match file_name(path) {
        Some(name) => name_extension(name),
        None => None,
    }
}

/// The last position is where it is said to be: `c` stands there, and nowhere after it.
pub proof fn lemma_last_position(s: Seq<char>, c: char)
    ensures
        -1 <= last_position(s, c) < s.len(),
        last_position(s, c) >= 0 ==> s[last_position(s, c)] == c,
        forall|i: int| last_position(s, c) < i < s.len() ==> s[i] != c,
    decreases s.len(),
{
    if s.len() > 0 && s.last() != c {
        lemma_last_position(s.drop_last(), c);
        assert forall|i: int| last_position(s, c) < i < s.len() implies s[i] != c by {
            if i < s.len() - 1 {
                assert(s.drop_last()[i] == s[i]);
            }
        }
    }
}

/// Whether some system takes the beginning of `path` for a prefix, such as a drive (`C:`) or the
/// name of a server and its share (`//server/share`), which is not part of a file name.
pub open spec fn may_have_prefix(path: Seq<char>) -> bool {
    path.len() >= 2 && (path[1] == ':' || path[0] == '/' && path[1] == '/')
}

/// Whether `path` is `rest` behind the name of a server and its share.
pub open spec fn is_behind_share(
    path: Seq<char>,
    server: Seq<char>,
    gap: Seq<char>,
    share: Seq<char>,
    rest: Seq<char>,
) -> bool {
    &&& path == seq!['/', '/'] + server + gap + share + rest
    &&& !server.contains('/')
    &&& !share.contains('/')
    &&& gap.len() > 0
    &&& forall|i: int| 0 <= i < gap.len() ==> gap[i] == '/'
    &&& rest.len() == 0 || rest[0] == '/'
}

/// Whether some system finds no extension in `path` because there is none behind what it takes for
/// a prefix.
pub open spec fn may_find_none(path: Seq<char>) -> bool {
    &&& path.len() >= 2
    &&& {
        ||| path[1] == ':' && extension(path.skip(2)) is None
        ||| exists|server: Seq<char>, gap: Seq<char>, share: Seq<char>, rest: Seq<char>|
            #[trigger] is_behind_share(path, server, gap, share, rest) && extension(rest) is None
    }
}

/// Whether `found` can be the extension of `path` on the system at hand: it is the extension,
/// unless the system finds none because there is none behind what it takes for a prefix.
pub open spec fn host_may_find(path: Seq<char>, found: Option<Seq<char>>) -> bool {
    found == extension(path) || found is None && may_find_none(path)
}

/// Calls `std::path::Path::extension`: what follows the last dot of the path's file name, unless
/// this has none but at its front, or there is no file name.
///
/// Systems differ in what they take for a prefix of a path and not for its file name: some take a
/// drive for one, or two slashes, the name of a server and that of a share. They then look only
/// behind it. What is left unsaid is whether a path that may have such a prefix has one on the
/// system at hand.
#[verifier::external_body]
pub(crate) fn host_extension(path: &str) -> (r: Option<String>)
    requires
        !path@.contains('\\'),
    ensures
        match r {
            Some(found) => host_may_find(path@, Some(found@)),
            None => host_may_find(path@, None),
        },
{
    let extension = std::path::Path::new(path).extension()?;
    extension.to_str().map(|extension| extension.to_string())
}

} // verus!
