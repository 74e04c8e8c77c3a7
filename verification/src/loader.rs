//! Loading a theme and the themes it inherits from, one probe of the disk at a time.
//!
//! The cache decides what to look at next; the caller looks, and reports what it saw.

use crate::err::ThemeError;
use crate::ini::texts;
use crate::lookup::{Cache, DEFAULT_THEME, MAX_DEPTH};
use crate::paths::{join_path, joined_path};
use crate::theme::Theme;
use vstd::prelude::*;

verus! {

/// One theme name on its way into the cache.
pub struct Frame {
    pub name: String,
    /// The search root that is looked at next, or that `held` was found under.
    pub root: usize,
    /// An occurrence that was read and waits for the themes it inherits from.
    pub held: Option<Theme>,
    /// How many of the inherited themes of `held` were dealt with.
    pub parent: usize,
}

/// The themes being loaded, the one that was asked for first and the one that is
/// looked at now last.
pub struct Loader {
    /// The search roots, in priority order.
    pub roots: Vec<String>,
    pub frames: Vec<Frame>,
}

/// What the caller saw at the place it was asked to look at.
pub enum LoadEvent {
    /// The search root holds no such theme.
    Absent,
    /// The theme is there and was read.
    Found { theme: Theme },
    /// The theme is there and could not be read.
    Broken { error: ThemeError },
}

/// What the caller is to do next.
pub enum LoadAction {
    /// Look for the theme below the search root of this number, at `path`, which is
    /// the search root joined with the name of the theme, and report.
    Probe { theme: String, root: usize, path: String },
    /// Everything is loaded.
    Done,
    /// The load was given up.
    Failed { error: ThemeError },
}

/// A frame as contracts see it.
pub struct FrameModel {
    pub name: Seq<char>,
    pub root: nat,
    pub held: Option<Theme>,
    pub parent: nat,
}

/// Cache and loader together, as contracts see them.
pub struct LoadState {
    pub frames: Seq<FrameModel>,
    pub themes: Map<Seq<char>, Seq<Theme>>,
}

/// An action as contracts see it.
pub enum Outcome {
    Probe { theme: Seq<char>, root: nat, path: Seq<char> },
    Done,
    Failed { error: ThemeError },
}

impl View for Frame {
    type V = FrameModel;

    open spec fn view(&self) -> FrameModel {
        FrameModel {
            name: self.name@,
            root: self.root as nat,
            held: self.held,
            parent: self.parent as nat,
        }
    }
}

impl View for LoadAction {
    type V = Outcome;

    open spec fn view(&self) -> Outcome {
        match *self {
            LoadAction::Probe { theme, root, path } => Outcome::Probe {
                theme: theme@,
                root: root as nat,
                path: path@,
            },
            LoadAction::Done => Outcome::Done,
            LoadAction::Failed { error } => Outcome::Failed { error },
        }
    }
}

/// The loaded occurrences by theme name.
pub open spec fn theme_map(cache: Cache) -> Map<Seq<char>, Seq<Theme>> {
    Map::new(|name: Seq<char>| cache.loaded(name), |name: Seq<char>| cache.occurrences(name))
}

/// Cache and loader as one state.
pub open spec fn state_of(cache: Cache, loader: Loader) -> LoadState {
    LoadState { frames: loader.frames@.map_values(|f: Frame| f@), themes: theme_map(cache) }
}

/// The occurrences stored under a name; none where the name is not loaded.
pub open spec fn stored(themes: Map<Seq<char>, Seq<Theme>>, name: Seq<char>) -> Seq<Theme> {
    if themes.contains_key(name) {
        themes[name]
    } else {
        Seq::empty()
    }
}

/// The first position from `from` on that names a theme which is not loaded; the
/// length of the list where there is none.
pub open spec fn next_unloaded(
    inherits: Seq<String>,
    themes: Map<Seq<char>, Seq<Theme>>,
    from: nat,
) -> nat
    decreases inherits.len() - from,
{
    if from >= inherits.len() {
        inherits.len()
    } else if !themes.contains_key(inherits[from as int]@) {
        from
    } else {
        next_unloaded(inherits, themes, from + 1)
    }
}

/// The request to look for `theme` below search root `root`.
pub open spec fn probe(roots: Seq<Seq<char>>, theme: Seq<char>, root: nat) -> Outcome {
    Outcome::Probe { theme, root, path: joined_path(roots[root as int], theme) }
}

/// The state in which the load next needs the caller, and what it needs.
///
/// The last frame decides. While it holds an occurrence, the first inherited theme
/// that is not loaded yet is loaded first, one level deeper; that gives up with
/// `CycleDetected` where the level would pass the limit. Once none is left the
/// occurrence is stored, and the theme is looked for below the next search root.
/// A frame whose search roots are used up is dropped. With no frame left the load
/// is done.
pub open spec fn settle(s: LoadState, roots: Seq<Seq<char>>) -> (LoadState, Outcome)
    decreases s.frames.len(),
{
    if s.frames.len() == 0 {
        (s, Outcome::Done)
    } else {
        let top = s.frames.last();
        let below = s.frames.drop_last();
        match top.held {
            Some(theme) => {
                let p = next_unloaded(theme.inherits@, s.themes, top.parent);
                if p < theme.inherits@.len() {
                    if s.frames.len() > 10 {
                        (
                            LoadState { frames: Seq::empty(), themes: s.themes },
                            Outcome::Failed { error: ThemeError::CycleDetected },
                        )
                    } else {
                        let waiting = FrameModel {
                            name: top.name,
                            root: top.root,
                            held: top.held,
                            parent: p + 1,
                        };
                        let child = FrameModel {
                            name: theme.inherits@[p as int]@,
                            root: 0,
                            held: None,
                            parent: 0,
                        };
                        (
                            LoadState { frames: below.push(waiting).push(child), themes: s.themes },
                            probe(roots, child.name, 0),
                        )
                    }
                } else {
                    let themes = s.themes.insert(top.name, stored(s.themes, top.name).push(theme));
                    if top.root + 1 < roots.len() {
                        let next = FrameModel {
                            name: top.name,
                            root: top.root + 1,
                            held: None,
                            parent: 0,
                        };
                        (
                            LoadState { frames: below.push(next), themes },
                            probe(roots, top.name, top.root + 1),
                        )
                    } else {
                        settle(LoadState { frames: below, themes }, roots)
                    }
                }
            },
            None => if top.root < roots.len() {
                (s, probe(roots, top.name, top.root))
            } else {
                settle(LoadState { frames: below, themes: s.themes }, roots)
            },
        }
    }
}

/// Whether the last frame waits for the caller's report.
pub open spec fn awaits(frames: Seq<FrameModel>, roots: Seq<Seq<char>>) -> bool {
    frames.len() > 0 && frames.last().held is None && frames.last().root < roots.len()
}

/// The state after the caller's report was taken in, and what is needed next. A
/// report that nothing waits for changes nothing.
pub open spec fn resumed(s: LoadState, event: LoadEvent, roots: Seq<Seq<char>>) -> (LoadState, Outcome) {
    if !awaits(s.frames, roots) {
        settle(s, roots)
    } else {
        let top = s.frames.last();
        let below = s.frames.drop_last();
        match event {
            LoadEvent::Absent => settle(
                LoadState {
                    frames: below.push(
                        FrameModel {
                            name: top.name,
                            root: top.root + 1,
                            held: None,
                            parent: top.parent,
                        },
                    ),
                    themes: s.themes,
                },
                roots,
            ),
            LoadEvent::Found { theme } => settle(
                LoadState {
                    frames: below.push(
                        FrameModel { name: top.name, root: top.root, held: Some(theme), parent: 0 },
                    ),
                    themes: s.themes,
                },
                roots,
            ),
            LoadEvent::Broken { error } => (
                LoadState { frames: Seq::empty(), themes: s.themes },
                Outcome::Failed { error },
            ),
        }
    }
}

/// The state in which a load of `theme` starts: nothing to do where the theme is
/// loaded or there is no search root, else one frame for the theme.
pub open spec fn started(themes: Map<Seq<char>, Seq<Theme>>, theme: Seq<char>, roots: Seq<Seq<char>>) -> LoadState {
    if themes.contains_key(theme) || roots.len() == 0 {
        LoadState { frames: Seq::empty(), themes }
    } else {
        LoadState {
            frames: seq![FrameModel { name: theme, root: 0, held: None, parent: 0 }],
            themes,
        }
    }
}

impl Loader {
    /// A loader for the search roots `roots`, with nothing under way.
    pub fn new(roots: Vec<String>) -> (loader: Loader)
        ensures
            loader.wf(),
            loader.roots == roots,
            loader.frames@.len() == 0,
    {
        Loader { roots, frames: Vec::new() }
    }

    /// At most eleven themes are under way, each below a search root that exists, and
    /// every occurrence that is held is well formed.
    pub open spec fn wf(&self) -> bool {
        &&& self.frames@.len() <= 11
        &&& forall|i: int|
            0 <= i < self.frames@.len() ==> {
                &&& (#[trigger] self.frames@[i]).root <= self.roots@.len()
                &&& (self.frames@[i].held matches Some(theme) ==> theme.wf() && self.frames@[i].root
                    < self.roots@.len())
            }
    }

    /// Whether the loader waits for a report.
    pub fn is_waiting(&self) -> (waiting: bool)
        ensures
            waiting == awaits(self.frames@.map_values(|f: Frame| f@), texts(self.roots@)),
    {
        let n: usize = self.frames.len();
        n > 0 && self.frames[n - 1].held.is_none() && self.frames[n - 1].root < self.roots.len()
    }
}

impl Cache {
    /// Starts loading the default theme.
    pub fn load_default(&mut self, loader: &mut Loader) -> (action: LoadAction)
        requires
            old(self).wf(),
            old(loader).wf(),
        ensures
            final(self).wf(),
            final(loader).wf(),
            final(loader).roots == old(loader).roots,
            final(self).pixmaps == old(self).pixmaps,
            (state_of(*final(self), *final(loader)), action@) == settle(
                started(theme_map(*old(self)), DEFAULT_THEME@, texts(old(loader).roots@)),
                texts(old(loader).roots@),
            ),
            old(self).loaded(DEFAULT_THEME@) ==> action is Done && *final(self) == *old(self),
    {
        self.load(loader, DEFAULT_THEME)
    }

    /// Starts loading `theme`, dropping whatever the loader had under way. A theme that
    /// is loaded already is done at once: the cache stays as it is and nothing is to be
    /// looked at.
    pub fn load(&mut self, loader: &mut Loader, theme: &str) -> (action: LoadAction)
        requires
            old(self).wf(),
            old(loader).wf(),
        ensures
            final(self).wf(),
            final(loader).wf(),
            final(loader).roots == old(loader).roots,
            final(self).pixmaps == old(self).pixmaps,
            (state_of(*final(self), *final(loader)), action@) == settle(
                started(theme_map(*old(self)), theme@, texts(old(loader).roots@)),
                texts(old(loader).roots@),
            ),
            old(self).loaded(theme@) ==> action is Done && *final(self) == *old(self),
    {
        let name: String = theme.to_owned();
        loader.frames = Vec::new();
        if self.is_loaded(&name) || loader.roots.len() == 0 {
            assert(state_of(*self, *loader).frames =~= Seq::empty());
            return LoadAction::Done;
        }
        loader.frames.push(Frame { name: name.clone(), root: 0, held: None, parent: 0 });
        assert(state_of(*self, *loader).frames =~= seq![
            FrameModel { name: theme@, root: 0, held: None, parent: 0 },
        ]);
        let path: String = join_path(loader.roots[0].as_str(), name.as_str());
        LoadAction::Probe { theme: name, root: 0, path }
    }

    /// Takes in what the caller saw where it was asked to look, and says what to do
    /// next.
    pub fn resume(&mut self, loader: &mut Loader, event: LoadEvent) -> (action: LoadAction)
        requires
            old(self).wf(),
            old(loader).wf(),
            event matches LoadEvent::Found { theme } ==> theme.wf(),
        ensures
            final(self).wf(),
            final(loader).wf(),
            final(loader).roots == old(loader).roots,
            final(self).pixmaps == old(self).pixmaps,
            (state_of(*final(self), *final(loader)), action@) == resumed(
                state_of(*old(self), *old(loader)),
                event,
                texts(old(loader).roots@),
            ),
    {
        let ghost before = state_of(*self, *loader);
        let count: usize = loader.roots.len();
        assert(texts(loader.roots@).len() == count);
        if !loader.is_waiting() {
            return self.load_inner(loader);
        }
        let top: Frame = match loader.frames.pop() {
            Some(top) => top,
            None => { return LoadAction::Done; },
        };
        assert(state_of(*self, *loader).frames =~= before.frames.drop_last());
        let Frame { name, root, held, parent } = top;
        match event {
            LoadEvent::Absent => {
                loader.frames.push(Frame { name, root: root + 1, held: None, parent });
                assert(state_of(*self, *loader).frames =~= before.frames.drop_last().push(
                    FrameModel {
                        name: name@,
                        root: (root + 1) as nat,
                        held: None,
                        parent: parent as nat,
                    },
                ));
                self.load_inner(loader)
            },
            LoadEvent::Found { theme } => {
                loader.frames.push(Frame { name, root, held: Some(theme), parent: 0 });
                assert(state_of(*self, *loader).frames =~= before.frames.drop_last().push(
                    FrameModel { name: name@, root: root as nat, held: Some(theme), parent: 0 },
                ));
                self.load_inner(loader)
            },
            LoadEvent::Broken { error } => {
                loader.frames = Vec::new();
                assert(state_of(*self, *loader).frames =~= Seq::empty());
                LoadAction::Failed { error }
            },
        }
    }

    /// Goes on with the load until the caller is needed again.
    pub fn load_inner(&mut self, loader: &mut Loader) -> (action: LoadAction)
        requires
            old(self).wf(),
            old(loader).wf(),
        ensures
            final(self).wf(),
            final(loader).wf(),
            final(loader).roots == old(loader).roots,
            final(self).pixmaps == old(self).pixmaps,
            (state_of(*final(self), *final(loader)), action@) == settle(
                state_of(*old(self), *old(loader)),
                texts(old(loader).roots@),
            ),
    {
        let ghost start = state_of(*self, *loader);
        let ghost roots = texts(loader.roots@);
        loop
            invariant
                self.wf(),
                loader.wf(),
                loader.roots == old(loader).roots,
                roots == texts(loader.roots@),
                start == state_of(*old(self), *old(loader)),
                self.pixmaps == old(self).pixmaps,
                settle(state_of(*self, *loader), roots) == settle(start, roots),
            decreases loader.frames@.len(),
        {
            let ghost here = state_of(*self, *loader);
            let count: usize = loader.roots.len();
            assert(roots.len() == count);
            let top: Frame = match loader.frames.pop() {
                Some(top) => top,
                None => {
                    return LoadAction::Done;
                },
            };
            assert(state_of(*self, *loader).frames =~= here.frames.drop_last());
            assert(here.frames.last() == top@);
            let Frame { name, root, held, parent } = top;
            match held {
                Some(theme) => {
                    let mut p: usize = parent;
                    let mut missing: bool = false;
                    while p < theme.inherits.len() && !missing
                        invariant
                            next_unloaded(theme.inherits@, theme_map(*self), parent as nat)
                                == next_unloaded(theme.inherits@, theme_map(*self), p as nat),
                            missing ==> p < theme.inherits@.len() && !self.loaded(
                                theme.inherits@[p as int]@,
                            ),
                        decreases theme.inherits@.len() - p + (if missing { 0int } else { 1int }),
                    {
                        if self.is_loaded(&theme.inherits[p]) {
                            p += 1;
                        } else {
                            missing = true;
                        }
                    }
                    if missing {
                        if loader.frames.len() + 1 > MAX_DEPTH {
                            loader.frames = Vec::new();
                            assert(state_of(*self, *loader).frames =~= Seq::empty());
                            return LoadAction::Failed { error: ThemeError::CycleDetected };
                        }
                        let child: String = theme.inherits[p].clone();
                        let wanted: String = child.clone();
                        loader.frames.push(Frame { name, root, held: Some(theme), parent: p + 1 });
                        loader.frames.push(Frame { name: child, root: 0, held: None, parent: 0 });
                        assert(state_of(*self, *loader).frames =~= here.frames.drop_last().push(
                            FrameModel {
                                name: name@,
                                root: root as nat,
                                held: Some(theme),
                                parent: (p + 1) as nat,
                            },
                        ).push(FrameModel { name: child@, root: 0, held: None, parent: 0 }));
                        let path: String = join_path(loader.roots[0].as_str(), wanted.as_str());
                        return LoadAction::Probe { theme: wanted, root: 0, path };
                    }
                    let ghost earlier = theme_map(*self);
                    self.store(name.clone(), theme);
                    assert(theme_map(*self) =~= earlier.insert(
                        name@,
                        stored(earlier, name@).push(theme),
                    ));
                    if root + 1 < count {
                        let wanted: String = name.clone();
                        loader.frames.push(Frame { name, root: root + 1, held: None, parent: 0 });
                        assert(state_of(*self, *loader).frames =~= here.frames.drop_last().push(
                            FrameModel {
                                name: name@,
                                root: (root + 1) as nat,
                                held: None,
                                parent: 0,
                            },
                        ));
                        let path: String = join_path(
                            loader.roots[root + 1].as_str(),
                            wanted.as_str(),
                        );
                        return LoadAction::Probe { theme: wanted, root: root + 1, path };
                    }
                },
                None => {
                    if root < count {
                        let wanted: String = name.clone();
                        loader.frames.push(Frame { name, root, held: None, parent });
                        assert(state_of(*self, *loader).frames =~= here.frames);
                        let path: String = join_path(loader.roots[root].as_str(), wanted.as_str());
                        return LoadAction::Probe { theme: wanted, root, path };
                    }
                },
            }
        }
    }
}

/// What `next_unloaded` finds is at or behind `from`, and where it finds a name, that
/// name is not loaded.
pub proof fn next_unloaded_is_unloaded(
    inherits: Seq<String>,
    themes: Map<Seq<char>, Seq<Theme>>,
    from: nat,
)
    ensures
        next_unloaded(inherits, themes, from) <= inherits.len(),
        from <= inherits.len() ==> from <= next_unloaded(inherits, themes, from),
        next_unloaded(inherits, themes, from) < inherits.len() ==> !themes.contains_key(
            inherits[next_unloaded(inherits, themes, from) as int]@,
        ),
    decreases inherits.len() - from,
{
    if from < inherits.len() && themes.contains_key(inherits[from as int]@) {
        next_unloaded_is_unloaded(inherits, themes, from + 1);
    }
}

/// The depth limit. Where the theme that is looked at inherits from a theme that is
/// not loaded, that theme is looked for next, one level deeper, as long as at most ten
/// themes are under way; with eleven under way the load is given up with
/// `CycleDetected`, and what was loaded stays as it is.
pub proof fn depth_limit_ends_the_load(s: LoadState, roots: Seq<Seq<char>>)
    requires
        s.frames.len() > 0,
        s.frames.last().held matches Some(theme) && next_unloaded(
            theme.inherits@,
            s.themes,
            s.frames.last().parent,
        ) < theme.inherits@.len(),
    ensures
        s.frames.len() > 10 ==> settle(s, roots) == (
            LoadState { frames: Seq::empty(), themes: s.themes },
            Outcome::Failed { error: ThemeError::CycleDetected },
        ),
        s.frames.len() <= 10 ==> {
            &&& settle(s, roots).1 matches Outcome::Probe { theme, root, .. }
            &&& root == 0
            &&& !s.themes.contains_key(theme)
            &&& settle(s, roots).0.frames.len() == s.frames.len() + 1
            &&& settle(s, roots).0.themes == s.themes
        },
{
    let theme = s.frames.last().held->Some_0;
    next_unloaded_is_unloaded(theme.inherits@, s.themes, s.frames.last().parent);
}

/// Loading a theme that is loaded already asks for nothing and changes nothing.
pub proof fn loaded_theme_needs_no_probe(
    themes: Map<Seq<char>, Seq<Theme>>,
    theme: Seq<char>,
    roots: Seq<Seq<char>>,
)
    requires
        themes.contains_key(theme),
    ensures
        settle(started(themes, theme, roots), roots) == (
            LoadState { frames: Seq::empty(), themes },
            Outcome::Done,
        ),
{
}

/// A load only adds: a theme that is loaded stays loaded, and its occurrences stay
/// where they are, in front of any that are added.
pub proof fn settle_keeps_what_is_loaded(s: LoadState, roots: Seq<Seq<char>>, name: Seq<char>)
    requires
        s.themes.contains_key(name),
    ensures
        settle(s, roots).0.themes.contains_key(name),
        s.themes[name].is_prefix_of(settle(s, roots).0.themes[name]),
    decreases s.frames.len(),
{
    if s.frames.len() > 0 {
        let top = s.frames.last();
        let below = s.frames.drop_last();
        match top.held {
            Some(theme) => {
                let p = next_unloaded(theme.inherits@, s.themes, top.parent);
                if p >= theme.inherits@.len() {
                    let themes = s.themes.insert(top.name, stored(s.themes, top.name).push(theme));
                    assert(s.themes[name].is_prefix_of(themes[name]));
                    if top.root + 1 >= roots.len() {
                        let next = LoadState { frames: below, themes };
                        settle_keeps_what_is_loaded(next, roots, name);
                        assert(s.themes[name].is_prefix_of(settle(next, roots).0.themes[name]));
                    }
                }
            },
            None => {
                if top.root >= roots.len() {
                    settle_keeps_what_is_loaded(
                        LoadState { frames: below, themes: s.themes },
                        roots,
                        name,
                    );
                }
            },
        }
    }
}

/// With at most eleven themes under way, going on with a load fails in one case only:
/// eleven themes are under way and the last of them inherits from a theme that is not
/// loaded. The failure is then `CycleDetected`.
pub proof fn load_fails_exactly_at_the_limit(s: LoadState, roots: Seq<Seq<char>>)
    requires
        s.frames.len() <= 11,
    ensures
        settle(s, roots).1 is Failed <==> {
            &&& s.frames.len() == 11
            &&& s.frames.last().held matches Some(theme)
            &&& next_unloaded(theme.inherits@, s.themes, s.frames.last().parent)
                < theme.inherits@.len()
        },
        settle(s, roots).1 is Failed ==> settle(s, roots).1 == (Outcome::Failed {
            error: ThemeError::CycleDetected,
        }),
        settle(s, roots).0.frames.len() <= 11,
    decreases s.frames.len(),
{
    if s.frames.len() > 0 {
        let top = s.frames.last();
        let below = s.frames.drop_last();
        match top.held {
            Some(theme) => {
                let p = next_unloaded(theme.inherits@, s.themes, top.parent);
                if p >= theme.inherits@.len() && top.root + 1 >= roots.len() {
                    let themes = s.themes.insert(top.name, stored(s.themes, top.name).push(theme));
                    load_fails_exactly_at_the_limit(LoadState { frames: below, themes }, roots);
                }
            },
            None => {
                if top.root >= roots.len() {
                    load_fails_exactly_at_the_limit(
                        LoadState { frames: below, themes: s.themes },
                        roots,
                    );
                }
            },
        }
    }
}

/// A whole load, as far as `probes` looks at the disk take it: each request of the
/// loader is answered by what `world` holds for that theme below that search root.
pub open spec fn run(
    s: LoadState,
    next: Outcome,
    world: spec_fn(Seq<char>, nat) -> LoadEvent,
    roots: Seq<Seq<char>>,
    probes: nat,
) -> (LoadState, Outcome)
    decreases probes,
{
    match next {
        Outcome::Probe { theme, root, .. } => if probes == 0 {
            (s, next)
        } else {
            let step = resumed(s, world(theme, root), roots);
            run(step.0, step.1, world, roots, (probes - 1) as nat)
        },
        _ => (s, next),
    }
}

/// A load of `theme` from its start, over what `world` holds.
pub open spec fn whole_load(
    themes: Map<Seq<char>, Seq<Theme>>,
    theme: Seq<char>,
    world: spec_fn(Seq<char>, nat) -> LoadEvent,
    roots: Seq<Seq<char>>,
    probes: nat,
) -> (LoadState, Outcome) {
    let first = settle(started(themes, theme, roots), roots);
    run(first.0, first.1, world, roots, probes)
}

/// A set of themes that a load never gets out of: none of them is loaded, each is
/// found below one of the search roots (`at` says which is the first), and the first
/// theme that its first occurrence inherits from and that is not loaded is again one
/// of the set. A cycle of themes is such a set.
pub open spec fn endless(
    chain: Set<Seq<char>>,
    themes: Map<Seq<char>, Seq<Theme>>,
    world: spec_fn(Seq<char>, nat) -> LoadEvent,
    roots: Seq<Seq<char>>,
    at: spec_fn(Seq<char>) -> nat,
) -> bool {
    forall|name: Seq<char>| #[trigger]
        chain.contains(name) ==> {
            &&& !themes.contains_key(name)
            &&& at(name) < roots.len()
            &&& forall|r: nat| r < at(name) ==> #[trigger] world(name, r) is Absent
            &&& world(name, at(name)) matches LoadEvent::Found { theme }
            &&& next_unloaded(theme.inherits@, themes, 0) < theme.inherits@.len()
            &&& chain.contains(
                theme.inherits@[next_unloaded(theme.inherits@, themes, 0) as int]@,
            )
        }
}

/// From any level of an endless chain the load runs into the depth limit.
pub proof fn endless_chain_is_refused_from(
    s: LoadState,
    world: spec_fn(Seq<char>, nat) -> LoadEvent,
    roots: Seq<Seq<char>>,
    chain: Set<Seq<char>>,
    at: spec_fn(Seq<char>) -> nat,
    probes: nat,
)
    requires
        1 <= s.frames.len() <= 11,
        s.frames.last().held is None,
        s.frames.last().root <= at(s.frames.last().name),
        chain.contains(s.frames.last().name),
        endless(chain, s.themes, world, roots, at),
        probes >= (11 - s.frames.len()) * roots.len() + (at(s.frames.last().name)
            - s.frames.last().root) + 1,
    ensures
        run(
            s,
            probe(roots, s.frames.last().name, s.frames.last().root),
            world,
            roots,
            probes,
        ) == (
            LoadState { frames: Seq::empty(), themes: s.themes },
            Outcome::Failed { error: ThemeError::CycleDetected },
        ),
    decreases 11 - s.frames.len(), at(s.frames.last().name) - s.frames.last().root,
{
    let top = s.frames.last();
    let below = s.frames.drop_last();
    let left = (probes - 1) as nat;
    assert(awaits(s.frames, roots));
    if top.root < at(top.name) {
        assert(world(top.name, top.root) is Absent);
        let moved = FrameModel {
            name: top.name,
            root: top.root + 1,
            held: None,
            parent: top.parent,
        };
        let s1 = LoadState { frames: below.push(moved), themes: s.themes };
        assert(s1.frames.last() == moved);
        assert(resumed(s, world(top.name, top.root), roots) == settle(s1, roots));
        assert(settle(s1, roots) == (s1, probe(roots, top.name, top.root + 1)));
        endless_chain_is_refused_from(s1, world, roots, chain, at, left);
        assert(run(s, probe(roots, top.name, top.root), world, roots, probes) == run(
            s1,
            probe(roots, top.name, top.root + 1),
            world,
            roots,
            left,
        ));
    } else {
        match world(top.name, top.root) {
            LoadEvent::Found { theme } => {
                let held = FrameModel {
                    name: top.name,
                    root: top.root,
                    held: Some(theme),
                    parent: 0,
                };
                let s1 = LoadState { frames: below.push(held), themes: s.themes };
                assert(resumed(s, world(top.name, top.root), roots) == settle(s1, roots));
                assert(s1.frames.last() == held);
                assert(s1.frames.drop_last() =~= below);
                assert(s1.frames.len() == s.frames.len());
                let p = next_unloaded(theme.inherits@, s.themes, 0);
                if s.frames.len() < 11 {
                    let waiting = FrameModel {
                        name: top.name,
                        root: top.root,
                        held: Some(theme),
                        parent: p + 1,
                    };
                    let child = FrameModel {
                        name: theme.inherits@[p as int]@,
                        root: 0,
                        held: None,
                        parent: 0,
                    };
                    let s2 = LoadState {
                        frames: below.push(waiting).push(child),
                        themes: s.themes,
                    };
                    assert(settle(s1, roots) == (s2, probe(roots, child.name, 0)));
                    assert(s2.frames.last() == child);
                    assert((11 - s.frames.len()) * roots.len() == (11 - s2.frames.len())
                        * roots.len() + roots.len()) by (nonlinear_arith)
                        requires
                            s2.frames.len() == s.frames.len() + 1,
                    ;
                    endless_chain_is_refused_from(s2, world, roots, chain, at, left);
                } else {
                    let end = LoadState { frames: Seq::empty(), themes: s.themes };
                    let refused = Outcome::Failed { error: ThemeError::CycleDetected };
                    assert(settle(s1, roots) == (end, refused));
                    assert(run(end, refused, world, roots, left) == (end, refused));
                }
                assert(run(s, probe(roots, top.name, top.root), world, roots, probes) == run(
                    settle(s1, roots).0,
                    settle(s1, roots).1,
                    world,
                    roots,
                    left,
                ));
            },
            _ => {},
        }
    }
}

/// Loading a theme of an endless chain, such as a cycle of themes that inherit from
/// one another, is given up with `CycleDetected`, whatever the number of search roots
/// and wherever below them the themes lie, and leaves the loaded themes as they were.
pub proof fn endless_chain_ends_in_cycle_error(
    themes: Map<Seq<char>, Seq<Theme>>,
    theme: Seq<char>,
    world: spec_fn(Seq<char>, nat) -> LoadEvent,
    roots: Seq<Seq<char>>,
    chain: Set<Seq<char>>,
    at: spec_fn(Seq<char>) -> nat,
    probes: nat,
)
    requires
        chain.contains(theme),
        endless(chain, themes, world, roots, at),
        probes >= 11 * roots.len(),
    ensures
        whole_load(themes, theme, world, roots, probes) == (
            LoadState { frames: Seq::empty(), themes },
            Outcome::Failed { error: ThemeError::CycleDetected },
        ),
{
    let s = started(themes, theme, roots);
    assert(s.frames.last() == FrameModel { name: theme, root: 0, held: None, parent: 0 });
    assert(settle(s, roots) == (s, probe(roots, theme, 0)));
    assert(11 * roots.len() == 10 * roots.len() + roots.len()) by (nonlinear_arith);
    endless_chain_is_refused_from(s, world, roots, chain, at, probes);
}

} // verus!
