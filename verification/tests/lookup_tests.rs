use icon_lookup::err::ThemeError;
use icon_lookup::listing::{DirEntry, Listing, ReadFailure};
use icon_lookup::loader::{LoadAction, LoadEvent, Loader};
use icon_lookup::lookup::{Cache, LookupParam};
use icon_lookup::rank::BestFit;
use icon_lookup::table::NameTable;
use icon_lookup::theme::{Theme, ThemePlan};

fn entries(names: &[&str]) -> Listing {
    Listing::Entries {
        entries: names.iter().map(|n| DirEntry::File { file_name: n.to_string() }).collect(),
    }
}

fn roots(n: usize) -> Vec<String> {
    (0..n).map(|i| format!("/r{}", i)).collect()
}

fn empty_cache() -> Cache {
    Cache::new(&entries(&["ghost.png", "xterm.xpm", "xterm.png"])).unwrap()
}

fn theme(path: &str, inherits: &str, icons: &[&str]) -> Theme {
    let parents = if inherits.is_empty() { String::new() } else { format!("Inherits={}\n", inherits) };
    let text = format!(
        "[Icon Theme]\n{}Directories=48x48/apps,32x32/apps\n[48x48/apps]\nSize=48\nType=Fixed\n[32x32/apps]\nSize=32\nType=Fixed\n",
        parents
    );
    let plan = ThemePlan::parse(path.to_string(), &text).unwrap();
    Theme::new(plan, &vec![entries(icons), entries(icons)]).unwrap()
}

fn chain_event(name: &str, root: usize, last: usize) -> LoadEvent {
    let at: usize = name[1..].parse().unwrap();
    if root != 0 {
        return LoadEvent::Absent;
    }
    let parent = if at < last { format!("t{}", at + 1) } else { String::new() };
    let text = if parent.is_empty() {
        "[Icon Theme]\nDirectories=a\n".to_string()
    } else {
        format!("[Icon Theme]\nInherits={}\nDirectories=a\n", parent)
    };
    let plan = ThemePlan::parse(format!("/icons/{}", name), &text).unwrap();
    LoadEvent::Found { theme: Theme::new(plan, &Vec::new()).unwrap() }
}

fn load_chain(cache: &mut Cache, last: usize) -> (Result<(), ThemeError>, usize) {
    let mut loader = Loader::new(roots(2));
    let mut probes = 0;
    let mut action = cache.load(&mut loader, "t0");
    loop {
        match action {
            LoadAction::Done => return (Ok(()), probes),
            LoadAction::Failed { error } => return (Err(error), probes),
            LoadAction::Probe { theme, root, .. } => {
                probes += 1;
                action = cache.resume(&mut loader, chain_event(&theme, root, last));
            }
        }
    }
}

#[test]
fn new_cache_has_no_themes_and_holds_pixmaps() {
    let cache = empty_cache();
    assert!(cache.themes().is_empty());
    assert_eq!(cache.lookup("ghost", None, None, None), Some("/usr/share/pixmaps/ghost.png".to_string()));
    // The later file of the same name replaces the earlier one.
    assert_eq!(cache.lookup("xterm", None, None, None), Some("/usr/share/pixmaps/xterm.png".to_string()));
    assert_eq!(cache.lookup("absent", None, None, None), None);
}

#[test]
fn new_cache_fails_on_fatal_listing() {
    assert!(matches!(
        Cache::new(&Listing::Failed { cause: ReadFailure::Other }),
        Err(ThemeError::TraverseDir)
    ));
    assert!(Cache::new(&Listing::Failed { cause: ReadFailure::NotFound }).is_ok());
}

#[test]
fn lookup_finds_exact_size() {
    let mut cache = empty_cache();
    cache.store("Adwaita".to_string(), theme("/usr/share/icons/Adwaita", "", &["firefox.png"]));
    assert_eq!(
        cache.lookup("firefox", Some("Adwaita"), Some(48), Some(1)),
        Some("/usr/share/icons/Adwaita/48x48/apps/firefox.png".to_string())
    );
    assert_eq!(
        cache.lookup("firefox", Some("Adwaita"), Some(32), None),
        Some("/usr/share/icons/Adwaita/32x32/apps/firefox.png".to_string())
    );
    // Nothing fits 36 exactly; 32 is nearer than 48.
    assert_eq!(
        cache.lookup("firefox", Some("Adwaita"), Some(36), Some(1)),
        Some("/usr/share/icons/Adwaita/32x32/apps/firefox.png".to_string())
    );
    // Size and scale default to 48 and 1, each on its own.
    assert_eq!(
        cache.lookup("firefox", Some("Adwaita"), None, None),
        Some("/usr/share/icons/Adwaita/48x48/apps/firefox.png".to_string())
    );
    assert_eq!(
        cache.lookup_param(LookupParam::new("firefox").with_theme(Some("Adwaita")).with_size(32).with_scale(1)),
        Some("/usr/share/icons/Adwaita/32x32/apps/firefox.png".to_string())
    );
}

#[test]
fn lookup_param_defaults() {
    let p = LookupParam::new("x");
    assert_eq!(p.size(), 48);
    assert_eq!(p.scale(), 1);
    let p = LookupParam::new("x").with_size(32);
    assert_eq!(p.size(), 32);
    assert_eq!(p.scale(), 1);
    let p = LookupParam::new("x").with_scale(2).with_theme(Some("t"));
    assert_eq!(p.size(), 48);
    assert_eq!(p.scale(), 2);
    assert_eq!(p.theme, Some("t"));
    assert_eq!(p.name, "x");
}

#[test]
fn lookup_uses_default_theme() {
    let mut cache = empty_cache();
    cache.store("hicolor".to_string(), theme("/usr/share/icons/hicolor", "", &["vim.png"]));
    assert_eq!(
        cache.lookup("vim", None, None, None),
        Some("/usr/share/icons/hicolor/48x48/apps/vim.png".to_string())
    );
}

#[test]
fn lookup_walks_inherited_themes() {
    let mut cache = empty_cache();
    cache.store("base".to_string(), theme("/i/base", "", &["vim.png", "gimp.png"]));
    cache.store("mid".to_string(), theme("/i/mid", "never-loaded, base", &["gimp.png"]));
    cache.store("top".to_string(), theme("/i/top", "mid", &[]));
    assert_eq!(cache.lookup("vim", Some("top"), None, None), Some("/i/base/48x48/apps/vim.png".to_string()));
    assert_eq!(cache.lookup("gimp", Some("top"), None, None), Some("/i/mid/48x48/apps/gimp.png".to_string()));
    assert_eq!(cache.lookup("ghost", Some("top"), None, None), Some("/usr/share/pixmaps/ghost.png".to_string()));
    assert_eq!(cache.lookup("nothing", Some("top"), None, None), None);
}

#[test]
fn lookup_searches_occurrences_in_root_order() {
    let mut cache = empty_cache();
    cache.store("t".to_string(), theme("/home/.icons/t", "", &["a.png"]));
    cache.store("t".to_string(), theme("/usr/share/icons/t", "", &["a.png", "b.png"]));
    assert_eq!(cache.themes(), vec!["t".to_string()]);
    assert_eq!(cache.lookup("a", Some("t"), None, None), Some("/home/.icons/t/48x48/apps/a.png".to_string()));
    assert_eq!(cache.lookup("b", Some("t"), None, None), Some("/usr/share/icons/t/48x48/apps/b.png".to_string()));
}

#[test]
fn lookup_in_unloaded_theme_finds_nothing() {
    let mut cache = empty_cache();
    cache.store("t".to_string(), theme("/i/t", "", &["a.png"]));
    assert_eq!(cache.lookup("a", Some("other"), None, None), None);
    assert_eq!(cache.lookup("a", None, None, None), None);
    assert_eq!(cache.themes(), vec!["t".to_string()]);
    assert_eq!(cache.lookup("ghost", Some("other"), None, None), Some("/usr/share/pixmaps/ghost.png".to_string()));
}

#[test]
fn lookup_survives_cyclic_inheritance() {
    let mut cache = empty_cache();
    cache.store("a".to_string(), theme("/i/a", "b", &[]));
    cache.store("b".to_string(), theme("/i/b", "a", &[]));
    assert_eq!(cache.lookup("x", Some("a"), None, None), None);
}

#[test]
fn lookup_advanced_uses_the_given_ranker() {
    let mut cache = empty_cache();
    cache.store("t".to_string(), theme("/i/t", "", &["a.png"]));
    assert_eq!(
        cache.lookup_advanced("a", Some("t"), &BestFit { size: 30, scale: 1 }),
        Some("/i/t/32x32/apps/a.png".to_string())
    );
    let hit = cache.lookup_themed(&"t".to_string(), &"a".to_string(), &BestFit { size: 48, scale: 1 }, 0).unwrap();
    assert_eq!(hit.theme.path, "/i/t");
    assert!(cache.lookup_themed(&"t".to_string(), &"a".to_string(), &BestFit { size: 48, scale: 1 }, 11).is_none());
}

#[test]
fn load_follows_a_chain_of_nine() {
    let mut cache = empty_cache();
    let (r, _) = load_chain(&mut cache, 9);
    assert!(r.is_ok());
    assert_eq!(cache.themes().len(), 10);
    assert!(cache.is_loaded(&"t0".to_string()));
    assert!(cache.is_loaded(&"t9".to_string()));
}

#[test]
fn load_follows_a_chain_to_the_limit() {
    let mut cache = empty_cache();
    let (r, _) = load_chain(&mut cache, 10);
    assert!(r.is_ok());
    assert_eq!(cache.themes().len(), 11);
}

#[test]
fn load_refuses_a_chain_of_eleven() {
    let mut cache = empty_cache();
    let (r, _) = load_chain(&mut cache, 11);
    assert!(matches!(r, Err(ThemeError::CycleDetected)));
    assert!(!cache.is_loaded(&"t0".to_string()));
}

#[test]
fn load_detects_a_cycle() {
    let mut cache = empty_cache();
    let mut loader = Loader::new(roots(1));
    let mut action = cache.load(&mut loader, "a");
    let result = loop {
        match action {
            LoadAction::Done => break Ok(()),
            LoadAction::Failed { error } => break Err(error),
            LoadAction::Probe { theme: name, .. } => {
                let parent = if name == "a" { "b" } else { "a" };
                action = cache.resume(
                    &mut loader,
                    LoadEvent::Found { theme: theme(&format!("/i/{}", name), parent, &[]) },
                );
            }
        }
    };
    assert!(matches!(result, Err(ThemeError::CycleDetected)));
    assert!(cache.themes().is_empty());
}

#[test]
fn load_twice_probes_nothing_more() {
    let mut cache = empty_cache();
    let (r, probes) = load_chain(&mut cache, 3);
    assert!(r.is_ok());
    assert_eq!(probes, 8);
    let names = cache.themes();
    let (r, probes) = load_chain(&mut cache, 3);
    assert!(r.is_ok());
    assert_eq!(probes, 0);
    assert_eq!(cache.themes(), names);
}

#[test]
fn load_keeps_every_occurrence() {
    let mut cache = empty_cache();
    let mut loader = Loader::new(roots(3));
    let mut action = cache.load_default(&mut loader);
    let mut asked: Vec<(String, usize)> = Vec::new();
    let mut paths: Vec<String> = Vec::new();
    loop {
        match action {
            LoadAction::Probe { theme: name, root, path } => {
                asked.push((name.clone(), root));
                paths.push(path);
                let event = if root == 1 {
                    LoadEvent::Absent
                } else {
                    LoadEvent::Found { theme: theme(&format!("/r{}/{}", root, name), "", &["a.png"]) }
                };
                action = cache.resume(&mut loader, event);
            }
            LoadAction::Done => break,
            LoadAction::Failed { .. } => panic!("load failed"),
        }
    }
    assert_eq!(
        asked,
        vec![("hicolor".to_string(), 0), ("hicolor".to_string(), 1), ("hicolor".to_string(), 2)]
    );
    assert_eq!(paths, vec!["/r0/hicolor", "/r1/hicolor", "/r2/hicolor"]);
    assert_eq!(cache.themes.list(&"hicolor".to_string()).unwrap().len(), 2);
    assert_eq!(cache.lookup("a", None, None, None), Some("/r0/hicolor/48x48/apps/a.png".to_string()));
    assert!(!loader.is_waiting());
}

#[test]
fn load_passes_on_a_broken_theme() {
    let mut cache = empty_cache();
    let mut loader = Loader::new(roots(1));
    let action = cache.load(&mut loader, "t");
    assert!(matches!(action, LoadAction::Probe { root: 0, .. }));
    assert!(loader.is_waiting());
    let action = cache.resume(&mut loader, LoadEvent::Broken { error: ThemeError::TraverseDir });
    assert!(matches!(action, LoadAction::Failed { error: ThemeError::TraverseDir }));
    assert!(cache.themes().is_empty());
    assert!(matches!(cache.load_inner(&mut loader), LoadAction::Done));
}

#[test]
fn load_without_roots_is_done_at_once() {
    let mut cache = empty_cache();
    let mut loader = Loader::new(roots(0));
    assert!(matches!(cache.load(&mut loader, "t"), LoadAction::Done));
    assert!(cache.themes().is_empty());
}

#[test]
fn table_replaces_and_appends() {
    let mut t: NameTable<u8> = NameTable::new();
    t.insert("a".to_string(), 1);
    t.insert("b".to_string(), 2);
    t.insert("a".to_string(), 3);
    assert_eq!(t.get(&"a".to_string()), Some(&3));
    assert_eq!(t.get(&"b".to_string()), Some(&2));
    assert_eq!(t.get(&"c".to_string()), None);
    assert!(t.contains(&"a".to_string()));
    assert_eq!(t.position(&"b".to_string()), Some(1));
    assert_eq!(t.names(), vec!["a".to_string(), "b".to_string()]);
    let mut l: NameTable<Vec<u8>> = NameTable::new();
    l.append("x".to_string(), 1);
    l.append("y".to_string(), 2);
    l.append("x".to_string(), 3);
    assert_eq!(l.list(&"x".to_string()), Some(&vec![1, 3]));
    assert_eq!(l.list(&"y".to_string()), Some(&vec![2]));
}

struct LastCandidate;

impl icon_lookup::theme::Ranker for LastCandidate {
    fn rank(&self, candidates: &[icon_lookup::theme::IconInfo]) -> Option<usize> {
        candidates.len().checked_sub(1)
    }
}

struct OutOfRange;

impl icon_lookup::theme::Ranker for OutOfRange {
    fn rank(&self, candidates: &[icon_lookup::theme::IconInfo]) -> Option<usize> {
        Some(candidates.len())
    }
}

#[test]
fn lookup_advanced_with_a_ranker_of_the_callers() {
    let mut cache = empty_cache();
    cache.store("base".to_string(), theme("/i/base", "", &["a.png", "ghost.png"]));
    cache.store("t".to_string(), theme("/i/t", "base", &["a.png"]));
    assert_eq!(
        cache.lookup_advanced("a", Some("t"), &LastCandidate),
        Some("/i/t/32x32/apps/a.png".to_string())
    );
    // A pick outside the candidates counts as none: the search goes on to the
    // inherited themes, then to the icons outside themes.
    assert_eq!(cache.lookup_advanced("a", Some("t"), &OutOfRange), None);
    assert_eq!(
        cache.lookup_advanced("ghost", Some("t"), &OutOfRange),
        Some("/usr/share/pixmaps/ghost.png".to_string())
    );
}

#[test]
fn load_detects_a_cycle_below_a_later_root() {
    let mut cache = empty_cache();
    cache.store("base".to_string(), theme("/i/base", "", &["a.png"]));
    let mut loader = Loader::new(roots(3));
    let mut action = cache.load(&mut loader, "a");
    let mut probes = 0;
    let result = loop {
        match action {
            LoadAction::Done => break Ok(()),
            LoadAction::Failed { error } => break Err(error),
            LoadAction::Probe { theme: name, root, path } => {
                probes += 1;
                assert_eq!(path, format!("/r{}/{}", root, name));
                let event = if root < 1 {
                    LoadEvent::Absent
                } else {
                    // "base" is loaded already and is passed over; the other parent closes the cycle.
                    let parents = if name == "a" { "base, b" } else { "base,c" };
                    let parents = if name == "c" { "a" } else { parents };
                    LoadEvent::Found { theme: theme(&path, parents, &[]) }
                };
                action = cache.resume(&mut loader, event);
            }
        }
    };
    assert!(matches!(result, Err(ThemeError::CycleDetected)));
    assert_eq!(probes, 22);
    assert_eq!(cache.themes(), vec!["base".to_string()]);
    assert!(!loader.is_waiting());
}
