//! Paths, held as text and combined by the standard library.

use vstd::prelude::*;

verus! {

/// What `std::path::Path::join` makes of a base path and a path to add to it, on
/// systems whose paths are separated by `/`: a path that starts at the root replaces
/// the base; any other is put behind the base, with a `/` between the two unless the
/// base is empty or ends in one.
pub open spec fn joined_path(base: Seq<char>, rest: Seq<char>) -> Seq<char> {
    if rest.len() > 0 && rest[0] == '/' {
        rest
    } else if base.len() == 0 || base.last() == '/' {
        base + rest
    } else {
        base + seq!['/'] + rest
    }
}

/// What `std::path::Path::extension` finds at the end of a path, if anything.
pub uninterp spec fn extension_of(path: Seq<char>) -> Option<Seq<char>>;

/// `std::path::Path::join`. Trusted: the join is the one that `joined_path` spells out.
#[verifier::external_body]
pub(crate) fn join_path(base: &str, rest: &str) -> (joined: String)
    ensures
        joined@ == joined_path(base@, rest@),
{
    std::path::Path::new(base).join(rest).to_string_lossy().into_owned()
}

/// `std::path::Path::extension`. Trusted: the extension depends on the path alone.
#[verifier::external_body]
pub(crate) fn path_extension(path: &str) -> (extension: Option<String>)
    ensures
        extension is Some == extension_of(path@) is Some,
        extension matches Some(e) ==> Some(e@) == extension_of(path@),
{
    std::path::Path::new(path).extension().map(|e| e.to_string_lossy().into_owned())
}

/// The position of the last dot among the first `n` characters of a file name.
pub open spec fn last_dot(file_name: Seq<char>, n: nat) -> Option<nat>
    decreases n,
{
    if n == 0 {
        None
    } else if file_name[n - 1] == '.' {
        Some((n - 1) as nat)
    } else {
        last_dot(file_name, (n - 1) as nat)
    }
}

/// The name under which a file is indexed: the file name without its extension, that
/// is up to its last dot; the whole file name where it holds no dot.
pub open spec fn stem_of(file_name: Seq<char>) -> Seq<char> {
    match last_dot(file_name, file_name.len()) {
        Some(cut) => file_name.subrange(0, cut as int),
        None => file_name,
    }
}

/// What `last_dot` finds is a dot with no dot behind it; it finds nothing exactly
/// where the first `n` characters hold no dot.
pub proof fn last_dot_is_last(file_name: Seq<char>, n: nat)
    requires
        n <= file_name.len(),
    ensures
        match last_dot(file_name, n) {
            Some(cut) => {
                &&& cut < n
                &&& file_name[cut as int] == '.'
                &&& forall|i: int| cut < i < n ==> file_name[i] != '.'
            },
            None => forall|i: int| 0 <= i < n ==> file_name[i] != '.',
        },
    decreases n,
{
    if n > 0 && file_name[n - 1] != '.' {
        last_dot_is_last(file_name, (n - 1) as nat);
    }
}

/// A file name without a dot is its own stem.
pub proof fn stem_without_dot_is_whole(file_name: Seq<char>)
    requires
        forall|i: int| 0 <= i < file_name.len() ==> file_name[i] != '.',
    ensures
        stem_of(file_name) == file_name,
{
    last_dot_is_last(file_name, file_name.len());
}

/// The icon name of a file: its name without the last extension.
pub fn stem(file_name: &str) -> (name: String)
    ensures
        name@ == stem_of(file_name@),
{
    let len: usize = file_name.unicode_len();
    let mut n: usize = len;
    while n > 0
        invariant
            n <= len,
            len == file_name@.len(),
            last_dot(file_name@, len as nat) == last_dot(file_name@, n as nat),
        decreases n,
    {
        if file_name.get_char(n - 1) == '.' {
            return file_name.substring_char(0, n - 1).to_owned();
        }
        n -= 1;
    }
    file_name.to_owned()
}

} // verus!
