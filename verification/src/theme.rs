//! One loaded theme: its declared directories and the index of its icons.

use crate::directory::{declared_directory, Directory};
use crate::err::ThemeError;
use crate::ini::{ini_entries, ini_from_text, ini_get_list, list_fields, parsed_entries, texts, Entries};
use crate::listing::{find_dir_icons, listed_files, listing_fails, FoundIcon, Listing};
use crate::paths::{extension_of, join_path, joined_path, path_extension, stem_of};
use crate::table::NameTable;
use vstd::prelude::*;

verus! {

/// An icon file as contracts see it: its path below the theme root and the sizing
/// policy of the directory it lies in.
pub struct IconModel {
    pub path: Seq<char>,
    pub directory: Directory,
}

/// Information about a found icon.
pub struct IconInfo {
    pub path: String,
    pub directory: Directory,
}

impl View for IconInfo {
    type V = IconModel;

    open spec fn view(&self) -> IconModel {
        IconModel { path: self.path@, directory: self.directory }
    }
}

/// The views of a list of icons.
pub open spec fn models(icons: Seq<IconInfo>) -> Seq<IconModel> {
    icons.map_values(|i: IconInfo| i@)
}

impl IconInfo {
    pub fn is_svg(&self) -> (svg: bool)
        ensures
            svg == (extension_of(self.path@) == Some("svg"@)),
    {
        has_extension(self.path.as_str(), "svg")
    }

    pub fn is_png(&self) -> (png: bool)
        ensures
            png == (extension_of(self.path@) == Some("png"@)),
    {
        has_extension(self.path.as_str(), "png")
    }

    pub fn size(&self) -> (s: u16)
        ensures
            s == self.directory.size,
    {
        self.directory.size()
    }

    pub fn scale(&self) -> (s: u16)
        ensures
            s == self.directory.scale,
    {
        self.directory.scale()
    }

    pub fn directory(&self) -> (d: Directory)
        ensures
            d == self.directory,
    {
        self.directory
    }
}

/// Whether `path` ends in the extension `wanted`.
pub fn has_extension(path: &str, wanted: &str) -> (same: bool)
    ensures
        same == (extension_of(path@) == Some(wanted@)),
{
    match path_extension(path) {
        Some(extension) => crate::directory::text_is(&extension, wanted),
        None => false,
    }
}

/// A directory that the descriptor declares with a complete sizing policy.
pub struct PlannedDir {
    pub name: String,
    pub spec: Directory,
}

/// What the descriptor of a theme asks for: the themes it inherits from and the
/// directories to scan, in declaration order.
pub struct ThemePlan {
    pub path: String,
    pub inherits: Vec<String>,
    pub directories: Vec<PlannedDir>,
}

pub open spec fn theme_section() -> Seq<char> {
    "Icon Theme"@
}

/// The list stored under a key of the theme section; empty where the key is absent.
pub open spec fn theme_list(entries: Entries, key: Seq<char>) -> Seq<Seq<char>> {
    if entries.contains_key((theme_section(), key)) {
        list_fields(entries[(theme_section(), key)])
    } else {
        Seq::empty()
    }
}

/// The directory names a descriptor declares: the plain ones, then the scaled ones.
pub open spec fn declared_names(entries: Entries) -> Seq<Seq<char>> {
    theme_list(entries, "Directories"@) + theme_list(entries, "ScaledDirectories"@)
}

/// A name together with its sizing policy.
pub struct PlannedModel {
    pub name: Seq<char>,
    pub spec: Directory,
}

impl View for PlannedDir {
    type V = PlannedModel;

    open spec fn view(&self) -> PlannedModel {
        PlannedModel { name: self.name@, spec: self.spec }
    }
}

/// Of the first `n` declared names, those whose section holds a complete sizing
/// policy, each with that policy; the others are left out.
pub open spec fn planned(entries: Entries, names: Seq<Seq<char>>, n: nat) -> Seq<PlannedModel>
    decreases n,
{
    if n == 0 {
        Seq::empty()
    } else {
        let before = planned(entries, names, (n - 1) as nat);
        match declared_directory(entries, names[n - 1]) {
            Some(spec) => before.push(PlannedModel { name: names[n - 1], spec }),
            None => before,
        }
    }
}

/// The planned directories as contracts see them.
pub open spec fn plan_models(directories: Seq<PlannedDir>) -> Seq<PlannedModel> {
    directories.map_values(|d: PlannedDir| d@)
}

/// Whether `plan` is what a descriptor with these entries asks for.
pub open spec fn plan_matches(plan: ThemePlan, path: Seq<char>, entries: Entries) -> bool {
    &&& plan.path@ == path
    &&& texts(plan.inherits@) == theme_list(entries, "Inherits"@)
    &&& plan_models(plan.directories@) == planned(
        entries,
        declared_names(entries),
        declared_names(entries).len(),
    )
}

/// Whether a descriptor declares the list of directories that every theme must have.
pub open spec fn declares_directories(entries: Entries) -> bool {
    entries.contains_key((theme_section(), "Directories"@))
}

/// What reading the descriptor file of a theme gave.
pub enum IndexRead {
    /// The file could not be opened.
    Missing,
    /// The file was opened and its content could not be read as text.
    Unreadable { source: tini::Error },
    /// The content of the file.
    Text { text: String },
}

impl ThemePlan {
    /// The plan of the theme at `path`, from what reading its descriptor gave: a
    /// descriptor that could not be opened is missing, one that could not be read or
    /// parsed is invalid.
    pub fn read(path: String, outcome: IndexRead) -> (r: Result<ThemePlan, ThemeError>)
        ensures
            match outcome {
                IndexRead::Missing => r matches Err(ThemeError::ThemeIndexMissing { path: at })
                    && at@ == path@,
                IndexRead::Unreadable { source } => r matches Err(
                    ThemeError::InvalidIndex { path: at, source: cause },
                ) && at@ == path@ && cause == source,
                IndexRead::Text { text } => match r {
                    Ok(plan) => {
                        &&& parsed_entries(text@) matches Some(entries)
                        &&& declares_directories(entries)
                        &&& plan_matches(plan, path@, entries)
                    },
                    Err(ThemeError::InvalidIndex { path: at, .. }) => {
                        &&& parsed_entries(text@) is None
                        &&& at@ == path@
                    },
                    Err(ThemeError::InvalidTheme { reason }) => {
                        &&& parsed_entries(text@) matches Some(entries)
                        &&& !declares_directories(entries)
                        &&& reason matches Some(why)
                        &&& why@ == "\"[Icon Theme].Directories\" has invalid value"@
                    },
                    Err(_) => false,
                },
            },
    {
        match outcome {
            IndexRead::Missing => Err(ThemeError::ThemeIndexMissing { path }),
            IndexRead::Unreadable { source } => Err(ThemeError::InvalidIndex { path, source }),
            IndexRead::Text { text } => ThemePlan::parse(path, text.as_str()),
        }
    }

    /// Reads the plan of the theme at `path` from the text of its descriptor.
    pub fn parse(path: String, text: &str) -> (r: Result<ThemePlan, ThemeError>)
        ensures
            match r {
                Ok(plan) => {
                    &&& parsed_entries(text@) matches Some(entries)
                    &&& declares_directories(entries)
                    &&& plan_matches(plan, path@, entries)
                },
                Err(ThemeError::InvalidIndex { path: at, .. }) => {
                    &&& parsed_entries(text@) is None
                    &&& at@ == path@
                },
                Err(ThemeError::InvalidTheme { reason }) => {
                    &&& parsed_entries(text@) matches Some(entries)
                    &&& !declares_directories(entries)
                    &&& reason matches Some(text)
                    &&& text@ == "\"[Icon Theme].Directories\" has invalid value"@
                },
                Err(_) => false,
            },
    {
        match ini_from_text(text) {
            Ok(ini) => ThemePlan::from_index(path, &ini),
            Err(source) => Err(ThemeError::InvalidIndex { path, source }),
        }
    }

    /// Reads the plan of the theme at `path` from its parsed descriptor.
    pub fn from_index(path: String, ini: &tini::Ini) -> (r: Result<ThemePlan, ThemeError>)
        ensures
            match r {
                Ok(plan) => {
                    &&& declares_directories(ini_entries(*ini))
                    &&& plan_matches(plan, path@, ini_entries(*ini))
                },
                Err(ThemeError::InvalidTheme { reason }) => {
                    &&& !declares_directories(ini_entries(*ini))
                    &&& reason matches Some(text)
                    &&& text@ == "\"[Icon Theme].Directories\" has invalid value"@
                },
                Err(_) => false,
            },
    {
        let ghost entries = ini_entries(*ini);
        let inherits: Vec<String> = match ini_get_list(ini, "Icon Theme", "Inherits") {
            Some(list) => list,
            None => Vec::new(),
        };
        assert(texts(inherits@) =~= theme_list(entries, "Inherits"@));
        let plain: Vec<String> = match ini_get_list(ini, "Icon Theme", "Directories") {
            Some(list) => list,
            None => {
                let reason: String = "\"[Icon Theme].Directories\" has invalid value".to_owned();
                return Err(ThemeError::InvalidTheme { reason: Some(reason) });
            },
        };
        let scaled: Vec<String> = match ini_get_list(ini, "Icon Theme", "ScaledDirectories") {
            Some(list) => list,
            None => Vec::new(),
        };
        assert(texts(scaled@) =~= theme_list(entries, "ScaledDirectories"@));
        let ghost names = declared_names(entries);
        let mut directories: Vec<PlannedDir> = Vec::new();
        let mut i: usize = 0;
        while i < plain.len()
            invariant
                i <= plain@.len(),
                entries == ini_entries(*ini),
                names == texts(plain@) + texts(scaled@),
                plan_models(directories@) == planned(entries, names, i as nat),
            decreases plain@.len() - i,
        {
            assert(names[i as int] == plain@[i as int]@);
            match Directory::read(ini, plain[i].as_str()) {
                Some(spec) => {
                    directories.push(PlannedDir { name: plain[i].clone(), spec });
                    assert(plan_models(directories@) =~= planned(entries, names, (i + 1) as nat));
                },
                None => {},
            }
            i += 1;
        }
        let mut j: usize = 0;
        while j < scaled.len()
            invariant
                j <= scaled@.len(),
                entries == ini_entries(*ini),
                names == texts(plain@) + texts(scaled@),
                plan_models(directories@) == planned(entries, names, (plain@.len() + j) as nat),
            decreases scaled@.len() - j,
        {
            assert(names[plain@.len() + j] == scaled@[j as int]@);
            match Directory::read(ini, scaled[j].as_str()) {
                Some(spec) => {
                    directories.push(PlannedDir { name: scaled[j].clone(), spec });
                    assert(plan_models(directories@) =~= planned(
                        entries,
                        names,
                        (plain@.len() + j + 1) as nat,
                    ));
                },
                None => {},
            }
            j += 1;
        }
        Ok(ThemePlan { path, inherits, directories })
    }
}

/// An index of icons as contracts see it: for each icon name its candidates, in the
/// order in which they were found.
pub type IconIndex = Map<Seq<char>, Seq<IconModel>>;

/// The candidates that an index holds for `name`; none where the name is unknown.
pub open spec fn candidates_in(index: IconIndex, name: Seq<char>) -> Seq<IconModel> {
    if index.contains_key(name) {
        index[name]
    } else {
        Seq::empty()
    }
}

/// The index after the first `n` of `files`, found in the directory `folder`, were
/// added to `index`: each file joins the candidates of its name, at the end.
pub open spec fn add_files(
    index: IconIndex,
    folder: PlannedModel,
    files: Seq<Seq<char>>,
    n: nat,
) -> IconIndex
    decreases n,
{
    if n == 0 {
        index
    } else {
        let before = add_files(index, folder, files, (n - 1) as nat);
        let name = stem_of(files[n - 1]);
        before.insert(
            name,
            candidates_in(before, name).push(
                IconModel {
                    path: joined_path(folder.name, files[n - 1]),
                    directory: folder.spec,
                },
            ),
        )
    }
}

/// The index of a theme after the first `n` planned directories were scanned. A
/// directory without a listing, or with one that could not be read, adds nothing.
pub open spec fn scanned(folders: Seq<PlannedModel>, listings: Seq<Listing>, n: nat) -> IconIndex
    decreases n,
{
    if n == 0 {
        Map::empty()
    } else {
        let before = scanned(folders, listings, (n - 1) as nat);
        if n - 1 < listings.len() {
            let files = listed_files(listings[n - 1]);
            add_files(before, folders[n - 1], files, files.len())
        } else {
            before
        }
    }
}

/// Whether one of the first `n` listings fails fatally.
pub open spec fn scan_fails(listings: Seq<Listing>, n: nat) -> bool
    decreases n,
{
    n > 0 && (scan_fails(listings, (n - 1) as nat) || (n - 1 < listings.len() && listing_fails(
        listings[n - 1],
    )))
}

/// One occurrence of a theme below one search root.
pub struct Theme {
    pub path: String,
    pub icon_infos: NameTable<Vec<IconInfo>>,
    pub inherits: Vec<String>,
}

/// A candidate picked in a theme.
pub struct IconSearch<'a> {
    pub theme: &'a Theme,
    pub info: &'a IconInfo,
}

/// A strategy that picks one of the candidates found for an icon name in one theme.
pub trait Ranker {
    /// The position that the strategy picks among `candidates`, if it picks any. A
    /// strategy that does not say what it picks is taken to pick none.
    open spec fn choice(&self, candidates: Seq<IconInfo>) -> Option<usize> {
        None
    }

    fn rank(&self, candidates: &[IconInfo]) -> (picked: Option<usize>)
        ensures
            picked == self.choice(candidates@),
    ;
}

impl Theme {
    pub open spec fn wf(&self) -> bool {
        self.icon_infos.wf()
    }

    /// The index of the theme: its candidates by icon name.
    pub open spec fn index(&self) -> IconIndex {
        Map::new(
            |name: Seq<char>| self.icon_infos.has(name),
            |name: Seq<char>| models(self.icon_infos.list_of(name)),
        )
    }

    /// Whether this theme is what `plan` and the listings of its directories give.
    pub open spec fn built_from(&self, plan: ThemePlan, listings: Seq<Listing>) -> bool {
        &&& self.wf()
        &&& self.path@ == plan.path@
        &&& texts(self.inherits@) == texts(plan.inherits@)
        &&& self.index() == scanned(
            plan_models(plan.directories@),
            listings,
            plan.directories@.len(),
        )
    }

    /// Builds the theme from its plan and the listings of the planned directories, one
    /// listing for each directory and in the same order.
    pub fn new(plan: ThemePlan, listings: &Vec<Listing>) -> (r: Result<Theme, ThemeError>)
        ensures
            match r {
                Ok(theme) => {
                    &&& !scan_fails(listings@, plan.directories@.len())
                    &&& theme.built_from(plan, listings@)
                },
                Err(e) => e == ThemeError::TraverseDir && scan_fails(
                    listings@,
                    plan.directories@.len(),
                ),
            },
    {
        let ghost folders = plan_models(plan.directories@);
        let mut icon_infos: NameTable<Vec<IconInfo>> = NameTable::new();
        let ghost mut index: IconIndex = Map::empty();
        let mut i: usize = 0;
        assert(Theme { path: plan.path, icon_infos, inherits: plan.inherits }.index() =~= index);
        while i < plan.directories.len()
            invariant
                i <= plan.directories@.len(),
                folders == plan_models(plan.directories@),
                icon_infos.wf(),
                !scan_fails(listings@, i as nat),
                index == scanned(folders, listings@, i as nat),
                forall|name: Seq<char>| #[trigger] icon_infos.has(name) == index.contains_key(name),
                forall|name: Seq<char>|
                    models(#[trigger] icon_infos.list_of(name)) == candidates_in(index, name),
            decreases plan.directories@.len() - i,
        {
            if i < listings.len() {
                let found: Vec<FoundIcon> = match find_dir_icons(&listings[i]) {
                    Ok(found) => found,
                    Err(e) => {
                        proof {
                            scan_failure_stays(listings@, i as int, plan.directories@.len());
                        }
                        return Err(e);
                    },
                };
                let folder: &PlannedDir = &plan.directories[i];
                let ghost files = listed_files(listings@[i as int]);
                let ghost start = index;
                let mut j: usize = 0;
                while j < found.len()
                    invariant
                        j <= found@.len(),
                        i < plan.directories@.len(),
                        folders == plan_models(plan.directories@),
                        *folder == plan.directories@[i as int],
                        icon_infos.wf(),
                        found@.len() == files.len(),
                        forall|k: int|
                            0 <= k < found@.len() ==> {
                                &&& (#[trigger] found@[k]).file_name@ == files[k]
                                &&& found@[k].name@ == stem_of(files[k])
                            },
                        index == add_files(start, folders[i as int], files, j as nat),
                        forall|name: Seq<char>|
                            #[trigger] icon_infos.has(name) == index.contains_key(name),
                        forall|name: Seq<char>|
                            models(#[trigger] icon_infos.list_of(name)) == candidates_in(
                                index,
                                name,
                            ),
                    decreases found@.len() - j,
                {
                    let icon: &FoundIcon = &found[j];
                    let path: String = join_path(folder.name.as_str(), icon.file_name.as_str());
                    let info = IconInfo { path, directory: folder.spec };
                    let ghost before = icon_infos;
                    let ghost key = icon.name@;
                    icon_infos.append(icon.name.clone(), info);
                    proof {
                        let next = index.insert(key, candidates_in(index, key).push(info@));
                        assert(models(before.list_of(key).push(info)) =~= models(
                            before.list_of(key),
                        ).push(info@));
                        assert forall|name: Seq<char>|
                            models(#[trigger] icon_infos.list_of(name)) == candidates_in(
                                next,
                                name,
                            ) by {
                            if name != key {
                                assert(icon_infos.list_of(name) == before.list_of(name));
                            }
                        }
                        index = next;
                    }
                    j += 1;
                }
            }
            i += 1;
        }
        let theme = Theme { path: plan.path, icon_infos, inherits: plan.inherits };
        assert(theme.index() =~= index);
        Ok(theme)
    }

    /// The candidate that `ranker` picks among those found for `name`, if the name is
    /// known and the pick is one of them.
    pub open spec fn found<R: Ranker>(&self, name: Seq<char>, ranker: &R) -> Option<IconInfo> {
        if !self.icon_infos.has(name) {
            None
        } else {
            let candidates = self.icon_infos.list_of(name);
            match ranker.choice(candidates) {
                Some(at) => if at < candidates.len() {
                    Some(candidates[at as int])
                } else {
                    None
                },
                None => None,
            }
        }
    }

    /// Looks `name` up in this theme alone and lets `ranker` pick among its candidates.
    pub fn icon_search<'a, R: Ranker>(&'a self, name: &String, ranker: &R) -> (r: Option<
        IconSearch<'a>,
    >)
        requires
            self.wf(),
        ensures
            match r {
                Some(search) => *search.theme == *self && self.found(name@, ranker) == Some(
                    *search.info,
                ),
                None => self.found(name@, ranker) is None,
            },
    {
        let icons: &Vec<IconInfo> = match self.icon_infos.list(name) {
            Some(icons) => icons,
            None => { return None; },
        };
        match ranker.rank(icons.as_slice()) {
            Some(at) => {
                if at < icons.len() {
                    Some(IconSearch { theme: self, info: &icons[at] })
                } else {
                    None
                }
            },
            None => None,
        }
    }

    pub fn inherits(&self) -> (names: &Vec<String>)
        ensures
            *names == self.inherits,
    {
        &self.inherits
    }
}

impl<'a> IconSearch<'a> {
    /// The path of the picked icon: its path within the theme, joined to the theme's root.
    pub fn path(&self) -> (full: String)
        ensures
            full@ == joined_path(self.theme.path@, self.info.path@),
    {
        join_path(self.theme.path.as_str(), self.info.path.as_str())
    }
}

/// Once a listing has failed fatally, every longer scan fails too.
pub proof fn scan_failure_stays(listings: Seq<Listing>, i: int, n: nat)
    requires
        0 <= i < n,
        i < listings.len(),
        listing_fails(listings[i]),
    ensures
        scan_fails(listings, n),
    decreases n,
{
    if n - 1 > i {
        scan_failure_stays(listings, i, (n - 1) as nat);
    }
}

/// Building a theme is deterministic: two themes built from the same plan and the same
/// listings hold the same candidates under every icon name, and inherit from the same
/// themes.
pub proof fn construction_is_deterministic(
    first: Theme,
    second: Theme,
    plan: ThemePlan,
    listings: Seq<Listing>,
)
    requires
        first.built_from(plan, listings),
        second.built_from(plan, listings),
    ensures
        first.index() == second.index(),
        first.path@ == second.path@,
        texts(first.inherits@) == texts(second.inherits@),
{
}

} // verus!
