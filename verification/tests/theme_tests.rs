use icon_lookup::directory::{Directory, DirectoryKind};
use icon_lookup::err::ThemeError;
use icon_lookup::listing::{filter_io_errors, find_dir_icons, DirEntry, Listing, ReadFailure};
use icon_lookup::paths::stem;
use icon_lookup::rank::BestFit;
use icon_lookup::theme::{has_extension, IconInfo, IndexRead, Ranker, Theme, ThemePlan};

const INDEX: &str = "[Icon Theme]\n\
Name=Sample\n\
Inherits= base , hicolor\n\
Directories=48x48/apps,scalable/apps,broken,nosuch,odd,half\n\
ScaledDirectories=48x48@2/apps,near/apps\n\
\n\
[48x48/apps]\nSize=48\nType=Fixed\n\
[scalable/apps]\nSize=64\nType=Scalable\nMinSize=16\nMaxSize=256\n\
[broken]\nType=Fixed\n\
[odd]\nSize=10\nType=Sparkling\n\
[half]\nSize=10\nType=Scalable\nMinSize=8\n\
[48x48@2/apps]\nSize=48\nScale=2\nType=Fixed\n\
[near/apps]\nSize=32\nType=Threshold\n";

fn file(name: &str) -> DirEntry {
    DirEntry::File { file_name: name.to_string() }
}

fn entries(names: &[&str]) -> Listing {
    Listing::Entries { entries: names.iter().map(|n| file(n)).collect() }
}

fn sample_theme() -> Theme {
    let plan = ThemePlan::parse("/usr/share/icons/Sample".to_string(), INDEX).unwrap();
    let listings = vec![
        entries(&["firefox.png", "gimp.png"]),
        entries(&["firefox.svg"]),
        entries(&["firefox.png"]),
        entries(&["gimp.png"]),
    ];
    Theme::new(plan, &listings).unwrap()
}

#[test]
fn plan_reads_inherits_and_directories() {
    let plan = ThemePlan::parse("/t".to_string(), INDEX).unwrap();
    assert_eq!(plan.path, "/t");
    assert_eq!(plan.inherits, vec!["base".to_string(), "hicolor".to_string()]);
    let names: Vec<&str> = plan.directories.iter().map(|d| d.name.as_str()).collect();
    assert_eq!(names, vec!["48x48/apps", "scalable/apps", "48x48@2/apps", "near/apps"]);
    assert_eq!(plan.directories[0].spec, Directory::new(48, 1, DirectoryKind::Fixed));
    assert_eq!(
        plan.directories[1].spec,
        Directory::new(64, 1, DirectoryKind::Scalable { min_size: 16, max_size: 256 })
    );
    assert_eq!(plan.directories[2].spec, Directory::new(48, 2, DirectoryKind::Fixed));
    assert_eq!(
        plan.directories[3].spec,
        Directory::new(32, 1, DirectoryKind::Threshold { threshold: 2 })
    );
}

#[test]
fn plan_without_inherits_has_no_parents() {
    let plan = ThemePlan::parse("/t".to_string(), "[Icon Theme]\nDirectories=a\n").unwrap();
    assert!(plan.inherits.is_empty());
    assert!(plan.directories.is_empty());
}

#[test]
fn plan_from_parsed_descriptor() {
    let ini = tini::Ini::from_string("[Icon Theme]\nDirectories=a\n[a]\nSize=22\nType=Threshold\nThreshold=4\n")
        .unwrap();
    let plan = ThemePlan::from_index("/t".to_string(), &ini).unwrap();
    assert_eq!(plan.directories.len(), 1);
    assert_eq!(
        plan.directories[0].spec,
        Directory::new(22, 1, DirectoryKind::Threshold { threshold: 4 })
    );
    assert_eq!(Directory::read(&ini, "a"), Some(plan.directories[0].spec));
    assert_eq!(Directory::read(&ini, "b"), None);
}

#[test]
fn plan_without_directories_is_invalid_theme() {
    match ThemePlan::parse("/t".to_string(), "[Icon Theme]\nInherits=x\n") {
        Err(ThemeError::InvalidTheme { reason }) => {
            assert_eq!(reason, Some("\"[Icon Theme].Directories\" has invalid value".to_string()));
        }
        _ => panic!("expected an invalid theme"),
    }
}

#[test]
fn malformed_descriptor_is_invalid_index() {
    match ThemePlan::parse("/t".to_string(), "[Icon Theme\nDirectories=a\n") {
        Err(ThemeError::InvalidIndex { path, .. }) => assert_eq!(path, "/t"),
        _ => panic!("expected an invalid index"),
    }
}

#[test]
fn error_messages() {
    assert_eq!(ThemeError::CycleDetected.message(), "inheritance cycle detected");
    assert_eq!(ThemeError::TraverseDir.message(), "error at icon dir traversing");
    assert_eq!(ThemeError::ThemeNotFound.message(), "theme not found");
    assert_eq!(ThemeError::InvalidTheme { reason: None }.message(), "invalid theme");
    assert_eq!(
        ThemeError::ThemeIndexMissing { path: "/t".to_string() }.message(),
        "icon theme index is missing"
    );
}

#[test]
fn stem_cuts_at_the_last_dot() {
    assert_eq!(stem("firefox.png"), "firefox");
    assert_eq!(stem("org.gnome.Files.svg"), "org.gnome.Files");
    assert_eq!(stem("noextension"), "noextension");
    assert_eq!(stem("firefox"), "firefox");
    assert_eq!(stem(".hidden"), "");
    assert_eq!(stem(""), "");
    assert_eq!(stem("caf\u{e9}.png"), "caf\u{e9}");
}

#[test]
fn tolerated_and_fatal_failures() {
    assert!(matches!(filter_io_errors(Ok::<u8, ReadFailure>(3)), Ok(Some(3))));
    assert!(matches!(filter_io_errors(Err::<u8, ReadFailure>(ReadFailure::NotFound)), Ok(None)));
    assert!(matches!(
        filter_io_errors(Err::<u8, ReadFailure>(ReadFailure::PermissionDenied)),
        Ok(None)
    ));
    assert!(matches!(
        filter_io_errors(Err::<u8, ReadFailure>(ReadFailure::Other)),
        Err(ThemeError::TraverseDir)
    ));
}

#[test]
fn listing_gives_files_in_order() {
    let listing = Listing::Entries {
        entries: vec![
            file("b.png"),
            DirEntry::Skipped,
            DirEntry::Failed { cause: ReadFailure::NotFound },
            file("a.svg"),
            DirEntry::Failed { cause: ReadFailure::PermissionDenied },
        ],
    };
    let found = find_dir_icons(&listing).unwrap();
    let pairs: Vec<(&str, &str)> =
        found.iter().map(|f| (f.name.as_str(), f.file_name.as_str())).collect();
    assert_eq!(pairs, vec![("b", "b.png"), ("a", "a.svg")]);
}

#[test]
fn unreadable_directory_counts_as_empty() {
    let found = find_dir_icons(&Listing::Failed { cause: ReadFailure::NotFound }).unwrap();
    assert!(found.is_empty());
    let found = find_dir_icons(&Listing::Failed { cause: ReadFailure::PermissionDenied }).unwrap();
    assert!(found.is_empty());
}

#[test]
fn fatal_failure_aborts_the_listing() {
    assert!(matches!(
        find_dir_icons(&Listing::Failed { cause: ReadFailure::Other }),
        Err(ThemeError::TraverseDir)
    ));
    let listing = Listing::Entries {
        entries: vec![file("a.png"), DirEntry::Failed { cause: ReadFailure::Other }, file("b.png")],
    };
    assert!(matches!(find_dir_icons(&listing), Err(ThemeError::TraverseDir)));
}

#[test]
fn theme_indexes_files_by_name_in_declaration_order() {
    let theme = sample_theme();
    assert_eq!(theme.path, "/usr/share/icons/Sample");
    assert_eq!(theme.inherits(), &vec!["base".to_string(), "hicolor".to_string()]);
    let firefox = theme.icon_infos.list(&"firefox".to_string()).unwrap();
    let paths: Vec<&str> = firefox.iter().map(|i| i.path.as_str()).collect();
    assert_eq!(
        paths,
        vec!["48x48/apps/firefox.png", "scalable/apps/firefox.svg", "48x48@2/apps/firefox.png"]
    );
    assert_eq!(firefox[0].size(), 48);
    assert_eq!(firefox[0].scale(), 1);
    assert_eq!(firefox[2].scale(), 2);
    assert_eq!(firefox[1].directory(), Directory::new(64, 1, DirectoryKind::Scalable { min_size: 16, max_size: 256 }));
    let gimp = theme.icon_infos.list(&"gimp".to_string()).unwrap();
    let paths: Vec<&str> = gimp.iter().map(|i| i.path.as_str()).collect();
    assert_eq!(paths, vec!["48x48/apps/gimp.png", "near/apps/gimp.png"]);
    assert!(theme.icon_infos.list(&"absent".to_string()).is_none());
}

#[test]
fn theme_construction_is_repeatable() {
    let a = sample_theme();
    let b = sample_theme();
    assert_eq!(a.icon_infos.names(), b.icon_infos.names());
    for name in a.icon_infos.names() {
        let left: Vec<(&str, Directory)> =
            a.icon_infos.list(&name).unwrap().iter().map(|i| (i.path.as_str(), i.directory())).collect();
        let right: Vec<(&str, Directory)> =
            b.icon_infos.list(&name).unwrap().iter().map(|i| (i.path.as_str(), i.directory())).collect();
        assert_eq!(left, right);
    }
}

#[test]
fn theme_without_listings_is_empty() {
    let plan = ThemePlan::parse("/t".to_string(), INDEX).unwrap();
    let theme = Theme::new(plan, &Vec::new()).unwrap();
    assert!(theme.icon_infos.names().is_empty());
}

#[test]
fn theme_tolerates_unreadable_directories() {
    let plan = ThemePlan::parse("/t".to_string(), INDEX).unwrap();
    let listings = vec![Listing::Failed { cause: ReadFailure::NotFound }, entries(&["a.svg"])];
    let theme = Theme::new(plan, &listings).unwrap();
    assert_eq!(theme.icon_infos.names(), vec!["a".to_string()]);
}

#[test]
fn theme_construction_aborts_on_fatal_failure() {
    let plan = ThemePlan::parse("/t".to_string(), INDEX).unwrap();
    let listings = vec![entries(&["a.svg"]), Listing::Failed { cause: ReadFailure::Other }];
    assert!(matches!(Theme::new(plan, &listings), Err(ThemeError::TraverseDir)));
}

#[test]
fn search_picks_exact_fit_first() {
    let theme = sample_theme();
    let name = "firefox".to_string();
    let hit = theme.icon_search(&name, &BestFit { size: 48, scale: 1 }).unwrap();
    assert_eq!(hit.info.path, "48x48/apps/firefox.png");
    assert_eq!(hit.path(), "/usr/share/icons/Sample/48x48/apps/firefox.png");
    let hit = theme.icon_search(&name, &BestFit { size: 48, scale: 2 }).unwrap();
    assert_eq!(hit.path(), "/usr/share/icons/Sample/48x48@2/apps/firefox.png");
    let hit = theme.icon_search(&name, &BestFit { size: 128, scale: 1 }).unwrap();
    assert_eq!(hit.path(), "/usr/share/icons/Sample/scalable/apps/firefox.svg");
    assert!(theme.icon_search(&"absent".to_string(), &BestFit { size: 48, scale: 1 }).is_none());
}

#[test]
fn search_falls_back_to_the_nearest() {
    let theme = sample_theme();
    let name = "gimp".to_string();
    // 48 fixed is 8 away from 40, the 30..34 range is 6 away.
    let hit = theme.icon_search(&name, &BestFit { size: 40, scale: 1 }).unwrap();
    assert_eq!(hit.info.path, "near/apps/gimp.png");
    // Both are 7 away from 41: the first one wins.
    let hit = theme.icon_search(&name, &BestFit { size: 41, scale: 1 }).unwrap();
    assert_eq!(hit.info.path, "48x48/apps/gimp.png");
}

#[test]
fn best_fit_on_no_candidates_picks_nothing() {
    let none: Vec<IconInfo> = Vec::new();
    assert_eq!(BestFit { size: 48, scale: 1 }.rank(&none), None);
}

#[test]
fn extensions() {
    let svg = IconInfo { path: "scalable/apps/a.svg".to_string(), directory: Directory::new(1, 1, DirectoryKind::Fixed) };
    let png = IconInfo { path: "48x48/apps/a.png".to_string(), directory: Directory::new(1, 1, DirectoryKind::Fixed) };
    assert!(svg.is_svg());
    assert!(!svg.is_png());
    assert!(png.is_png());
    assert!(!png.is_svg());
    assert!(has_extension("a/b.tar.gz", "gz"));
    assert!(!has_extension("a/b", "b"));
}

#[test]
fn default_search_dirs() {
    // The fallback directory is handled separately as it has no themes.
    assert_eq!(
        vec!["/tmp/.icons", "/usr/share/local/icons", "/usr/share/icons"],
        icon_lookup::roots::search_dirs(Some("/tmp"), None)
    );
}

#[test]
fn search_dirs_from_data_dirs() {
    assert_eq!(
        icon_lookup::roots::search_dirs(Some("/home/u"), Some("/usr/local/share:/usr/share")),
        vec!["/home/u/.icons", "/usr/local/share/icons", "/usr/share/icons"]
    );
    assert_eq!(
        icon_lookup::roots::search_dirs(None, Some("/opt/share")),
        vec!["/opt/share/icons"]
    );
    assert_eq!(
        icon_lookup::roots::search_dirs(None, None),
        vec!["/usr/share/local/icons", "/usr/share/icons"]
    );
}

#[test]
fn split_keeps_empty_pieces() {
    assert_eq!(icon_lookup::roots::split("a:b", ':'), vec!["a", "b"]);
    assert_eq!(icon_lookup::roots::split("", ':'), vec![""]);
    assert_eq!(icon_lookup::roots::split(":a::", ':'), vec!["", "a", "", ""]);
}

#[test]
fn file_without_extension_is_indexed_under_its_name() {
    let found = find_dir_icons(&entries(&["firefox"])).unwrap();
    assert_eq!(found.len(), 1);
    assert_eq!(found[0].name, "firefox");
    assert_eq!(found[0].file_name, "firefox");
    let plan = ThemePlan::parse("/p".to_string(), "[Icon Theme]\nDirectories=a\n[a]\nSize=48\nType=Fixed\n").unwrap();
    let theme = Theme::new(plan, &vec![entries(&["firefox"])]).unwrap();
    let hit = theme.icon_search(&"firefox".to_string(), &BestFit { size: 48, scale: 1 }).unwrap();
    assert_eq!(hit.path(), "/p/a/firefox");
}

#[test]
fn unsound_sections_are_passed_over() {
    let text = "[Icon Theme]\nDirectories=zero,crossed,level,fine\n\
[zero]\nSize=48\nScale=0\nType=Fixed\n\
[crossed]\nSize=48\nType=Scalable\nMinSize=64\nMaxSize=16\n\
[level]\nSize=48\nType=Scalable\nMinSize=48\nMaxSize=48\n\
[fine]\nSize=48\nScale=3\nType=Fixed\n";
    let plan = ThemePlan::parse("/t".to_string(), text).unwrap();
    let names: Vec<&str> = plan.directories.iter().map(|d| d.name.as_str()).collect();
    assert_eq!(names, vec!["level", "fine"]);
    assert_eq!(
        plan.directories[0].spec,
        Directory::new(48, 1, DirectoryKind::Scalable { min_size: 48, max_size: 48 })
    );
    assert_eq!(plan.directories[1].spec, Directory::new(48, 3, DirectoryKind::Fixed));
}

#[test]
fn plan_from_what_reading_gave() {
    match ThemePlan::read("/t".to_string(), IndexRead::Missing) {
        Err(ThemeError::ThemeIndexMissing { path }) => assert_eq!(path, "/t"),
        _ => panic!("expected a missing index"),
    }
    let cause = tini::Error::from(std::io::Error::new(std::io::ErrorKind::InvalidData, "not text"));
    match ThemePlan::read("/t".to_string(), IndexRead::Unreadable { source: cause }) {
        Err(ThemeError::InvalidIndex { path, source: tini::Error::Io(_) }) => assert_eq!(path, "/t"),
        _ => panic!("expected an invalid index"),
    }
    let text = "[Icon Theme]\nDirectories=a\n".to_string();
    let plan = ThemePlan::read("/t".to_string(), IndexRead::Text { text }).unwrap();
    assert_eq!(plan.path, "/t");
    assert!(matches!(
        ThemePlan::read("/t".to_string(), IndexRead::Text { text: "[broken".to_string() }),
        Err(ThemeError::InvalidIndex { .. })
    ));
}

#[test]
fn list_fields_are_split_at_commas_and_trimmed() {
    let plan = ThemePlan::parse(
        "/t".to_string(),
        "[Icon Theme]\nInherits=  a b ,, c\nDirectories=x\n",
    )
    .unwrap();
    assert_eq!(plan.inherits, vec!["a b".to_string(), "".to_string(), "c".to_string()]);
}

#[test]
fn joining_paths() {
    let dirs = icon_lookup::roots::search_dirs(Some("/home/u/"), Some(":/abs:rel"));
    assert_eq!(dirs, vec!["/home/u/.icons", "icons", "/abs/icons", "rel/icons"]);
    let info = IconInfo { path: "/elsewhere/a.png".to_string(), directory: Directory::new(1, 1, DirectoryKind::Fixed) };
    let theme = Theme::new(ThemePlan::parse("/t".to_string(), "[Icon Theme]\nDirectories=x\n").unwrap(), &Vec::new()).unwrap();
    let hit = icon_lookup::theme::IconSearch { theme: &theme, info: &info };
    assert_eq!(hit.path(), "/elsewhere/a.png");
}
