//! The cache of loaded themes and the search through it.

use crate::err::ThemeError;
use crate::listing::{find_dir_icons, listed_files, listing_fails, FoundIcon, Listing};
use crate::paths::{join_path, joined_path, stem_of};
use crate::rank::BestFit;
use crate::table::NameTable;
use crate::theme::{IconInfo, IconSearch, Ranker, Theme};
use vstd::prelude::*;

verus! {

/// The theme that is searched where none is named.
pub const DEFAULT_THEME: &'static str = "hicolor";

/// The directory of icons that belong to no theme.
pub const PIXMAPS_DIR: &'static str = "/usr/share/pixmaps";

/// How deep a chain of inherited themes is followed.
pub const MAX_DEPTH: usize = 10;

/// Icon cache. Themes are loaded into it explicitly, before any lookup.
pub struct Cache {
    pub themes: NameTable<Vec<Theme>>,
    pub pixmaps: NameTable<String>,
}

/// Search parameters for [`Cache::lookup_param`].
pub struct LookupParam<'a> {
    pub name: &'a str,
    pub theme: Option<&'a str>,
    pub size: Option<u16>,
    pub scale: Option<u16>,
}

/// The fallback paths after the first `n` of `files` were recorded: each file under its
/// name without extension, a later file replacing an earlier one of the same name.
pub open spec fn pixmaps_of(files: Seq<Seq<char>>, n: nat) -> Map<Seq<char>, Seq<char>>
    decreases n,
{
    if n == 0 {
        Map::empty()
    } else {
        pixmaps_of(files, (n - 1) as nat).insert(
            stem_of(files[n - 1]),
            joined_path(PIXMAPS_DIR@, files[n - 1]),
        )
    }
}

/// The first of the occurrences from `from` on in which `ranker` picks a candidate
/// for `name`, with that candidate.
pub open spec fn first_hit<R: Ranker>(
    occurrences: Seq<Theme>,
    name: Seq<char>,
    ranker: &R,
    from: nat,
) -> Option<(Theme, IconInfo)>
    decreases occurrences.len() - from,
{
    if from >= occurrences.len() {
        None
    } else {
        match occurrences[from as int].found(name, ranker) {
            Some(info) => Some((occurrences[from as int], info)),
            None => first_hit(occurrences, name, ranker, from + 1),
        }
    }
}

/// The name of the theme to search: the one asked for, or the default.
pub open spec fn theme_or_default(theme: Option<&str>) -> Seq<char> {
    match theme {
        Some(name) => name@,
        None => DEFAULT_THEME@,
    }
}

impl Cache {
    /// No name occurs twice, and every loaded theme is well formed.
    pub open spec fn wf(&self) -> bool {
        &&& self.themes.wf()
        &&& self.pixmaps.wf()
        &&& forall|name: Seq<char>, i: int|
            self.themes.has(name) && 0 <= i < self.themes.list_of(name).len() ==> (
            #[trigger] self.themes.list_of(name)[i]).wf()
    }

    /// Whether a theme of this name was loaded.
    pub open spec fn loaded(&self, theme: Seq<char>) -> bool {
        self.themes.has(theme)
    }

    /// The occurrences loaded under a theme name, in the order of the search roots.
    pub open spec fn occurrences(&self, theme: Seq<char>) -> Seq<Theme> {
        self.themes.list_of(theme)
    }

    /// The fallback paths by icon name.
    pub open spec fn pixmap_paths(&self) -> Map<Seq<char>, Seq<char>> {
        Map::new(
            |name: Seq<char>| self.pixmaps.has(name),
            |name: Seq<char>| self.pixmaps.value_of(name)@,
        )
    }

    /// What a search for `name` finds from `theme` on, `depth` levels below the theme
    /// that was asked for: the first pick in the theme's own occurrences, else the first
    /// one found through the inherited themes. Nothing is found below the depth limit or
    /// in a theme that was not loaded.
    pub open spec fn search<R: Ranker>(
        &self,
        theme: Seq<char>,
        name: Seq<char>,
        ranker: &R,
        depth: nat,
    ) -> Option<(Theme, IconInfo)>
        decreases 11 - depth, 1nat, 0nat, 0nat,
    {
        if depth > 10 || !self.loaded(theme) {
            None
        } else {
            match first_hit(self.occurrences(theme), name, ranker, 0) {
                Some(hit) => Some(hit),
                None => self.search_inherited(self.occurrences(theme), name, ranker, depth, 0, 0),
            }
        }
    }

    /// What a search finds through the inherited themes of `occurrences`, starting at
    /// parent `p` of occurrence `t` and going on in declaration order.
    pub open spec fn search_inherited<R: Ranker>(
        &self,
        occurrences: Seq<Theme>,
        name: Seq<char>,
        ranker: &R,
        depth: nat,
        t: nat,
        p: nat,
    ) -> Option<(Theme, IconInfo)>
        decreases 11 - depth, 0nat, occurrences.len() - t, if t < occurrences.len() {
            occurrences[t as int].inherits@.len() - p
        } else {
            0
        },
    {
        if depth > 10 || t >= occurrences.len() {
            None
        } else if p >= occurrences[t as int].inherits@.len() {
            self.search_inherited(occurrences, name, ranker, depth, t + 1, 0)
        } else {
            match self.search(occurrences[t as int].inherits@[p as int]@, name, ranker, depth + 1) {
                Some(hit) => Some(hit),
                None => self.search_inherited(occurrences, name, ranker, depth, t, p + 1),
            }
        }
    }

    /// The path that a lookup returns: that of the themed pick, else the fallback path.
    pub open spec fn resolved<R: Ranker>(&self, name: Seq<char>, theme: Seq<char>, ranker: &R) -> Option<
        Seq<char>,
    > {
        match self.search(theme, name, ranker, 0) {
            Some(hit) => Some(joined_path(hit.0.path@, hit.1.path@)),
            None => if self.pixmaps.has(name) {
                Some(self.pixmaps.value_of(name)@)
            } else {
                None
            },
        }
    }

    /// Creates a cache with no theme loaded, from the listing of the fallback directory.
    pub fn new(pixmaps: &Listing) -> (r: Result<Cache, ThemeError>)
        ensures
            match r {
                Ok(cache) => {
                    &&& !listing_fails(*pixmaps)
                    &&& cache.wf()
                    &&& forall|name: Seq<char>| !cache.loaded(name)
                    &&& cache.themes.slots@.len() == 0
                    &&& cache.pixmap_paths() == pixmaps_of(
                        listed_files(*pixmaps),
                        listed_files(*pixmaps).len(),
                    )
                },
                Err(e) => e == ThemeError::TraverseDir && listing_fails(*pixmaps),
            },
    {
        let found: Vec<FoundIcon> = match find_dir_icons(pixmaps) {
            Ok(found) => found,
            Err(e) => { return Err(e); },
        };
        let ghost files = listed_files(*pixmaps);
        let mut cache = Cache { themes: NameTable::new(), pixmaps: NameTable::new() };
        assert(cache.pixmap_paths() =~= pixmaps_of(files, 0));
        let mut i: usize = 0;
        while i < found.len()
            invariant
                i <= found@.len(),
                found@.len() == files.len(),
                forall|k: int|
                    0 <= k < found@.len() ==> {
                        &&& (#[trigger] found@[k]).file_name@ == files[k]
                        &&& found@[k].name@ == stem_of(files[k])
                    },
                cache.wf(),
                cache.themes.slots@.len() == 0,
                cache.pixmap_paths() == pixmaps_of(files, i as nat),
            decreases found@.len() - i,
        {
            let ghost before = cache;
            let path: String = join_path(PIXMAPS_DIR, found[i].file_name.as_str());
            cache.pixmaps.insert(found[i].name.clone(), path);
            proof {
                assert(cache.pixmaps@ == before.pixmaps@.insert(found@[i as int].name@, path));
                assert forall|name: Seq<char>|
                    cache.pixmaps.has(name) == (before.pixmaps.has(name) || name
                        == found@[i as int].name@) by {
                    assert(cache.pixmaps@.contains_key(name) == cache.pixmaps.has(name));
                    assert(before.pixmaps@.contains_key(name) == before.pixmaps.has(name));
                }
                assert forall|name: Seq<char>| cache.pixmaps.has(name) implies cache.pixmaps.value_of(
                    name,
                ) == (if name == found@[i as int].name@ {
                    path
                } else {
                    before.pixmaps.value_of(name)
                }) by {
                    assert(cache.pixmaps@[name] == cache.pixmaps.value_of(name));
                    assert(before.pixmaps@.contains_key(name) == before.pixmaps.has(name));
                    if name != found@[i as int].name@ {
                        assert(before.pixmaps@[name] == before.pixmaps.value_of(name));
                    }
                }
                assert(cache.pixmap_paths() =~= pixmaps_of(files, (i + 1) as nat));
            }
            i += 1;
        }
        assert forall|name: Seq<char>| !cache.loaded(name) by {
            if cache.themes.has(name) {
                let j = choose|j: int| cache.themes.holds_at(name, j);
                assert(cache.themes.holds_at(name, j));
            }
        }
        Ok(cache)
    }

    /// The names of the loaded themes.
    pub fn themes(&self) -> (names: Vec<String>)
        ensures
            names@.len() == self.themes.slots@.len(),
            forall|i: int|
                0 <= i < names@.len() ==> (#[trigger] names@[i])@ == self.themes.slots@[i].key@,
            forall|i: int| 0 <= i < names@.len() ==> self.loaded(#[trigger] names@[i]@),
            forall|name: Seq<char>|
                self.loaded(name) ==> exists|i: int| 0 <= i < names@.len() && names@[i]@ == name,
    {
        let names = self.themes.names();
        assert forall|i: int| 0 <= i < names@.len() implies self.loaded(#[trigger] names@[i]@) by {
            assert(self.themes.holds_at(names@[i]@, i));
        }
        assert forall|name: Seq<char>| self.loaded(name) implies exists|i: int|
            0 <= i < names@.len() && names@[i]@ == name by {
            let j = choose|j: int| self.themes.holds_at(name, j);
            assert(self.themes.holds_at(name, j));
            assert(names@[j]@ == name);
        }
        names
    }

    /// Whether a theme of this name was loaded.
    pub fn is_loaded(&self, theme: &String) -> (yes: bool)
        ensures
            yes == self.loaded(theme@),
    {
        self.themes.position(theme).is_some()
    }

    /// Records one more occurrence of the theme `name`, behind those already there.
    pub fn store(&mut self, name: String, theme: Theme)
        requires
            old(self).wf(),
            theme.wf(),
        ensures
            final(self).wf(),
            final(self).pixmaps == old(self).pixmaps,
            final(self).loaded(name@),
            final(self).occurrences(name@) == old(self).occurrences(name@).push(theme),
            forall|other: Seq<char>|
                other != name@ ==> (#[trigger] final(self).loaded(other) == old(self).loaded(
                    other,
                )),
            forall|other: Seq<char>|
                other != name@ ==> (#[trigger] final(self).occurrences(other) == old(
                    self,
                ).occurrences(other)),
    {
        let ghost before = *self;
        let ghost key = name@;
        self.themes.append(name, theme);
        proof {
            assert forall|n: Seq<char>, i: int|
                self.themes.has(n) && 0 <= i < self.themes.list_of(n).len() implies (
                #[trigger] self.themes.list_of(n)[i]).wf() by {
                if n != key {
                    assert(self.themes.has(n) == before.themes.has(n));
                    assert(self.themes.list_of(n) == before.themes.list_of(n));
                    assert(before.themes.list_of(n)[i].wf());
                } else {
                    if i < before.themes.list_of(n).len() {
                        assert(before.themes.has(n));
                        assert(before.themes.list_of(n)[i].wf());
                    }
                }
            }
        }
    }

    /// Searches `theme` and the themes it inherits from, `depth` levels below the theme
    /// that the lookup named.
    pub fn lookup_themed<'a, R: Ranker>(
        &'a self,
        theme: &String,
        icon_name: &String,
        ranker: &R,
        depth: usize,
    ) -> (r: Option<IconSearch<'a>>)
        requires
            self.wf(),
        ensures
            match r {
                Some(hit) => self.search(theme@, icon_name@, ranker, depth as nat) == Some(
                    (*hit.theme, *hit.info),
                ),
                None => self.search(theme@, icon_name@, ranker, depth as nat) is None,
            },
        decreases 11 - depth,
    {
        if depth > MAX_DEPTH {
            return None;
        }
        let themes: &Vec<Theme> = match self.themes.list(theme) {
            Some(themes) => themes,
            None => { return None; },
        };
        let mut t: usize = 0;
        while t < themes.len()
            invariant
                t <= themes@.len(),
                depth <= 10,
                self.wf(),
                self.themes.has(theme@),
                themes@ == self.themes.list_of(theme@),
                first_hit(themes@, icon_name@, ranker, 0) == first_hit(
                    themes@,
                    icon_name@,
                    ranker,
                    t as nat,
                ),
            decreases themes@.len() - t,
        {
            assert(self.themes.list_of(theme@)[t as int].wf());
            match themes[t].icon_search(icon_name, ranker) {
                Some(hit) => { return Some(hit); },
                None => {},
            }
            t += 1;
        }
        let mut t: usize = 0;
        while t < themes.len()
            invariant
                t <= themes@.len(),
                depth <= 10,
                self.wf(),
                self.themes.has(theme@),
                themes@ == self.themes.list_of(theme@),
                first_hit(themes@, icon_name@, ranker, 0) is None,
                self.search_inherited(themes@, icon_name@, ranker, depth as nat, 0, 0)
                    == self.search_inherited(themes@, icon_name@, ranker, depth as nat, t as nat, 0),
            decreases themes@.len() - t,
        {
            let parents: &Vec<String> = themes[t].inherits();
            let mut p: usize = 0;
            while p < parents.len()
                invariant
                    t < themes@.len(),
                    p <= parents@.len(),
                    depth <= 10,
                    *parents == themes@[t as int].inherits,
                    self.wf(),
                    self.themes.has(theme@),
                    themes@ == self.themes.list_of(theme@),
                    first_hit(themes@, icon_name@, ranker, 0) is None,
                    self.search_inherited(themes@, icon_name@, ranker, depth as nat, 0, 0)
                        == self.search_inherited(
                        themes@,
                        icon_name@,
                        ranker,
                        depth as nat,
                        t as nat,
                        p as nat,
                    ),
                decreases parents@.len() - p,
            {
                match self.lookup_themed(&parents[p], icon_name, ranker, depth + 1) {
                    Some(hit) => { return Some(hit); },
                    None => {},
                }
                p += 1;
            }
            t += 1;
        }
        None
    }

    /// Looks an icon up in `theme` (the default theme where none is named) and the
    /// themes it inherits from, with `ranker` picking among the candidates of each
    /// theme; falls back to the icons that belong to no theme.
    pub fn lookup_advanced<R: Ranker>(&self, name: &str, theme: Option<&str>, ranker: &R) -> (r:
        Option<String>)
        requires
            self.wf(),
        ensures
            match r {
                Some(path) => self.resolved(name@, theme_or_default(theme), ranker) == Some(path@),
                None => self.resolved(name@, theme_or_default(theme), ranker) is None,
            },
    {
        let theme_name: String = match theme {
            Some(theme) => theme.to_owned(),
            None => DEFAULT_THEME.to_owned(),
        };
        let icon_name: String = name.to_owned();
        match self.lookup_themed(&theme_name, &icon_name, ranker, 0) {
            Some(hit) => Some(hit.path()),
            None => match self.pixmaps.get(&icon_name) {
                Some(path) => Some(path.clone()),
                None => None,
            },
        }
    }

    /// Looks an icon up for the given size and scale, 48 and 1 where they are not given.
    pub fn lookup(&self, name: &str, theme: Option<&str>, size: Option<u16>, scale: Option<u16>) -> (r:
        Option<String>)
        requires
            self.wf(),
        ensures
            match r {
                Some(path) => self.resolved(
                    name@,
                    theme_or_default(theme),
                    &param_ranker(size, scale),
                ) == Some(path@),
                None => self.resolved(name@, theme_or_default(theme), &param_ranker(size, scale))
                    is None,
            },
    {
        self.lookup_param(LookupParam { name, theme, size, scale })
    }

    /// Looks an icon up as `param` describes: the first exact fit among the candidates
    /// of a theme, else the nearest one.
    pub fn lookup_param<'a>(&'a self, param: LookupParam<'a>) -> (r: Option<String>)
        requires
            self.wf(),
        ensures
            match r {
                Some(path) => self.resolved(
                    param.name@,
                    theme_or_default(param.theme),
                    &param_ranker(param.size, param.scale),
                ) == Some(path@),
                None => self.resolved(
                    param.name@,
                    theme_or_default(param.theme),
                    &param_ranker(param.size, param.scale),
                ) is None,
            },
    {
        let ranker = BestFit { size: param.size(), scale: param.scale() };
        self.lookup_advanced(param.name, param.theme, &ranker)
    }
}

/// The default strategy for a wanted size and scale, 48 and 1 where they are not given.
pub open spec fn param_ranker(size: Option<u16>, scale: Option<u16>) -> BestFit {
    BestFit {
        size: match size {
            Some(size) => size,
            None => 48,
        },
        scale: match scale {
            Some(scale) => scale,
            None => 1,
        },
    }
}

impl<'a> LookupParam<'a> {
    pub fn new(name: &'a str) -> (param: Self)
        ensures
            param.name == name,
            param.theme is None,
            param.size is None,
            param.scale is None,
    {
        LookupParam { name, theme: None, size: None, scale: None }
    }

    pub fn with_theme(self, theme: Option<&'a str>) -> (param: Self)
        ensures
            param.theme == theme,
            param.name == self.name,
            param.size == self.size,
            param.scale == self.scale,
    {
        LookupParam { name: self.name, theme, size: self.size, scale: self.scale }
    }

    pub fn with_size(self, size: u16) -> (param: Self)
        ensures
            param.size == Some(size),
            param.name == self.name,
            param.theme == self.theme,
            param.scale == self.scale,
    {
        LookupParam { name: self.name, theme: self.theme, size: Some(size), scale: self.scale }
    }

    pub fn with_scale(self, scale: u16) -> (param: Self)
        ensures
            param.scale == Some(scale),
            param.name == self.name,
            param.theme == self.theme,
            param.size == self.size,
    {
        LookupParam { name: self.name, theme: self.theme, size: self.size, scale: Some(scale) }
    }

    /// The wanted size, 48 where none was given.
    pub fn size(&self) -> (size: u16)
        ensures
            size == param_ranker(self.size, self.scale).size,
    {
        match self.size {
            Some(size) => size,
            None => 48,
        }
    }

    /// The wanted scale, 1 where none was given.
    pub fn scale(&self) -> (scale: u16)
        ensures
            scale == param_ranker(self.size, self.scale).scale,
    {
        match self.scale {
            Some(scale) => scale,
            None => 1,
        }
    }
}

/// A theme that was never loaded contributes nothing: the lookup returns the fallback
/// path of the name, or nothing.
pub proof fn unloaded_theme_finds_only_fallback<R: Ranker>(
    cache: Cache,
    name: Seq<char>,
    theme: Seq<char>,
    ranker: &R,
)
    requires
        !cache.loaded(theme),
    ensures
        cache.search(theme, name, ranker, 0) is None,
        cache.resolved(name, theme, ranker) == if cache.pixmap_paths().contains_key(name) {
            Some(cache.pixmap_paths()[name])
        } else {
            None
        },
{
}

/// A name that no theme along the chain holds resolves to its fallback path.
pub proof fn fallback_serves_unthemed_names<R: Ranker>(
    cache: Cache,
    name: Seq<char>,
    theme: Seq<char>,
    ranker: &R,
)
    requires
        cache.search(theme, name, ranker, 0) is None,
        cache.pixmap_paths().contains_key(name),
    ensures
        cache.resolved(name, theme, ranker) == Some(cache.pixmap_paths()[name]),
{
}

} // verus!
