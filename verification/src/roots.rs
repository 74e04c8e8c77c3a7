//! Where themes are looked for.

use crate::ini::{pieces, pieces_from, texts};
use crate::paths::{join_path, joined_path};
use vstd::prelude::*;

verus! {

/// Each of `dirs` with `leaf` joined to it.
pub open spec fn each_joined(dirs: Seq<Seq<char>>, leaf: Seq<char>) -> Seq<Seq<char>> {
    dirs.map_values(|dir: Seq<char>| joined_path(dir, leaf))
}

/// The search roots in priority order: `.icons` in the home directory, where one is
/// known; then `icons` in each of the data directories, or the two system
/// directories where no data directories are given.
pub open spec fn roots_of(home: Option<&str>, data_dirs: Option<&str>) -> Seq<Seq<char>> {
    let own = match home {
        Some(home) => seq![joined_path(home@, ".icons"@)],
        None => Seq::empty(),
    };
    let shared = match data_dirs {
        Some(dirs) => each_joined(pieces(dirs@, ':'), "icons"@),
        None => seq!["/usr/share/local/icons"@, "/usr/share/icons"@],
    };
    own + shared
}

/// Splits `text` at every `separator`.
pub fn split(text: &str, separator: char) -> (parts: Vec<String>)
    ensures
        texts(parts@) == pieces(text@, separator),
{
    let len: usize = text.unicode_len();
    let mut parts: Vec<String> = Vec::new();
    let mut start: usize = 0;
    let mut at: usize = 0;
    assert(texts(parts@) =~= Seq::<Seq<char>>::empty());
    while at < len
        invariant
            start <= at <= len,
            len == text@.len(),
            texts(parts@) + pieces_from(text@, separator, start as nat, at as nat) == pieces(
                text@,
                separator,
            ),
        decreases len - at,
    {
        if text.get_char(at) == separator {
            let ghost before = texts(parts@);
            let part: String = text.substring_char(start, at).to_owned();
            parts.push(part);
            assert(texts(parts@) =~= before + seq![text@.subrange(start as int, at as int)]);
            assert(texts(parts@) + pieces_from(text@, separator, (at + 1) as nat, (at + 1) as nat)
                =~= before + pieces_from(text@, separator, start as nat, at as nat));
            start = at + 1;
        }
        at += 1;
    }
    let ghost before = texts(parts@);
    let part: String = text.substring_char(start, len).to_owned();
    parts.push(part);
    assert(texts(parts@) =~= before + seq![text@.subrange(start as int, len as int)]);
    parts
}

/// The search roots in priority order, from the home directory and the list of data
/// directories as the environment gives them.
pub fn search_dirs(home: Option<&str>, data_dirs: Option<&str>) -> (roots: Vec<String>)
    ensures
        texts(roots@) == roots_of(home, data_dirs),
{
    let mut roots: Vec<String> = Vec::new();
    match home {
        Some(home) => {
            roots.push(join_path(home, ".icons"));
        },
        None => {},
    }
    let ghost own = texts(roots@);
    assert(own =~= match home {
        Some(home) => seq![joined_path(home@, ".icons"@)],
        None => Seq::empty(),
    });
    match data_dirs {
        Some(dirs) => {
            let parts: Vec<String> = split(dirs, ':');
            let mut i: usize = 0;
            while i < parts.len()
                invariant
                    i <= parts@.len(),
                    texts(parts@) == pieces(dirs@, ':'),
                    texts(roots@) == own + each_joined(pieces(dirs@, ':'), "icons"@).subrange(
                        0,
                        i as int,
                    ),
                decreases parts@.len() - i,
            {
                let ghost before = texts(roots@);
                assert(texts(parts@)[i as int] == parts@[i as int]@);
                roots.push(join_path(parts[i].as_str(), "icons"));
                assert(texts(roots@) =~= before.push(joined_path(parts@[i as int]@, "icons"@)));
                assert(texts(roots@) =~= own + each_joined(pieces(dirs@, ':'), "icons"@).subrange(
                    0,
                    i + 1,
                ));
                i += 1;
            }
            assert(texts(roots@) =~= roots_of(home, data_dirs));
        },
        None => {
            roots.push("/usr/share/local/icons".to_owned());
            roots.push("/usr/share/icons".to_owned());
            assert(texts(roots@) =~= roots_of(home, data_dirs));
        },
    }
    roots
}

} // verus!
