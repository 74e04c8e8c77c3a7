//! Directory listings, as the caller read them from disk.

use crate::err::ThemeError;
use crate::paths::{stem, stem_of};
use vstd::prelude::*;

verus! {

/// Why a directory or one of its entries could not be read.
#[derive(Clone, Copy, Debug, PartialEq, Eq, Structural)]
pub enum ReadFailure {
    NotFound,
    PermissionDenied,
    Other,
}

/// One entry of a directory.
pub enum DirEntry {
    /// Anything that is not a directory, with its file name.
    File { file_name: String },
    /// A subdirectory, or an entry whose name is not text.
    Skipped,
    /// An entry that could not be read.
    Failed { cause: ReadFailure },
}

/// What reading one directory gave.
pub enum Listing {
    Entries { entries: Vec<DirEntry> },
    Failed { cause: ReadFailure },
}

/// A file found in a listing, under the name it is indexed by.
pub struct FoundIcon {
    pub name: String,
    pub file_name: String,
}

/// A failure that is not tolerated: anything but absence and missing permissions.
pub open spec fn is_fatal(cause: ReadFailure) -> bool {
    cause == ReadFailure::Other
}

/// Whether one of the first `n` entries failed fatally.
pub open spec fn fails_within(entries: Seq<DirEntry>, n: nat) -> bool
    decreases n,
{
    n > 0 && (fails_within(entries, (n - 1) as nat) || match entries[n - 1] {
        DirEntry::Failed { cause } => is_fatal(cause),
        _ => false,
    })
}

/// Whether a listing aborts the scan it belongs to.
pub open spec fn listing_fails(listing: Listing) -> bool {
    match listing {
        Listing::Entries { entries } => fails_within(entries@, entries@.len()),
        Listing::Failed { cause } => is_fatal(cause),
    }
}

/// The file names among the first `n` entries, in order.
pub open spec fn file_names(entries: Seq<DirEntry>, n: nat) -> Seq<Seq<char>>
    decreases n,
{
    if n == 0 {
        Seq::empty()
    } else {
        let before = file_names(entries, (n - 1) as nat);
        match entries[n - 1] {
            DirEntry::File { file_name } => before.push(file_name@),
            _ => before,
        }
    }
}

/// The file names of a listing; none where the directory could not be read.
pub open spec fn listed_files(listing: Listing) -> Seq<Seq<char>> {
    match listing {
        Listing::Entries { entries } => file_names(entries@, entries@.len()),
        Listing::Failed { .. } => Seq::empty(),
    }
}

/// Sorts a failed read into tolerated (`Ok(None)`) and fatal; a successful one passes through.
pub fn filter_io_errors<T>(r: Result<T, ReadFailure>) -> (filtered: Result<Option<T>, ThemeError>)
    ensures
        match r {
            Ok(v) => filtered == Ok::<Option<T>, ThemeError>(Some(v)),
            Err(cause) => if is_fatal(cause) {
                filtered == Err::<Option<T>, ThemeError>(ThemeError::TraverseDir)
            } else {
                filtered == Ok::<Option<T>, ThemeError>(None)
            },
        },
{
    match r {
        Ok(v) => Ok(Some(v)),
        Err(ReadFailure::PermissionDenied) => Ok(None),
        Err(ReadFailure::NotFound) => Ok(None),
        Err(ReadFailure::Other) => Err(ThemeError::TraverseDir),
    }
}

/// The icons of one directory: each file under its name without the extension, in the
/// order of the listing. Unreadable directories and entries count as absent, unless the
/// failure is fatal.
pub fn find_dir_icons(listing: &Listing) -> (found: Result<Vec<FoundIcon>, ThemeError>)
    ensures
        match found {
            Ok(icons) => {
                &&& !listing_fails(*listing)
                &&& icons@.len() == listed_files(*listing).len()
                &&& forall|i: int|
                    0 <= i < icons@.len() ==> {
                        &&& (#[trigger] icons@[i]).file_name@ == listed_files(*listing)[i]
                        &&& icons@[i].name@ == stem_of(listed_files(*listing)[i])
                    }
            },
            Err(e) => e == ThemeError::TraverseDir && listing_fails(*listing),
        },
{
    let mut icons: Vec<FoundIcon> = Vec::new();
    match listing {
        Listing::Failed { cause } => {
            match filter_io_errors::<()>(Err(*cause)) {
                Ok(_) => Ok(icons),
                Err(e) => Err(e),
            }
        },
        Listing::Entries { entries } => {
            let mut i: usize = 0;
            while i < entries.len()
                invariant
                    i <= entries@.len(),
                    listing_fails(*listing) == fails_within(entries@, entries@.len()),
                    !fails_within(entries@, i as nat),
                    icons@.len() == file_names(entries@, i as nat).len(),
                    forall|k: int|
                        0 <= k < icons@.len() ==> {
                            &&& (#[trigger] icons@[k]).file_name@ == file_names(
                                entries@,
                                i as nat,
                            )[k]
                            &&& icons@[k].name@ == stem_of(file_names(entries@, i as nat)[k])
                        },
                decreases entries@.len() - i,
            {
                match &entries[i] {
                    DirEntry::File { file_name } => {
                        let name: String = stem(file_name.as_str());
                        icons.push(FoundIcon { name, file_name: file_name.clone() });
                    },
                    DirEntry::Skipped => {},
                    DirEntry::Failed { cause } => {
                        match filter_io_errors::<()>(Err(*cause)) {
                            Ok(_) => {},
                            Err(e) => {
                                proof {
                                    fatal_entry_fails(entries@, i as int, entries@.len());
                                }
                                return Err(e);
                            },
                        }
                    },
                }
                i += 1;
            }
            Ok(icons)
        },
    }
}

/// A fatal entry makes every prefix that reaches it fail.
pub proof fn fatal_entry_fails(entries: Seq<DirEntry>, i: int, n: nat)
    requires
        0 <= i < n <= entries.len(),
        entries[i] matches DirEntry::Failed { cause } && is_fatal(cause),
    ensures
        fails_within(entries, n),
    decreases n,
{
    if n - 1 > i {
        fatal_entry_fails(entries, i, (n - 1) as nat);
    }
}

} // verus!
