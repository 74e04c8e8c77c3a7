use icon_lookup::directory::{scaled_size, Directory, DirectoryKind};

fn fixed(size: u16, scale: u16) -> Directory {
    Directory::new(size, scale, DirectoryKind::Fixed)
}

fn scalable(size: u16, scale: u16, min_size: u16, max_size: u16) -> Directory {
    Directory::new(size, scale, DirectoryKind::Scalable { min_size, max_size })
}

fn threshold(size: u16, scale: u16, threshold: u16) -> Directory {
    Directory::new(size, scale, DirectoryKind::Threshold { threshold })
}

#[test]
fn fixed_matches_only_its_size_and_scale() {
    let d = fixed(48, 1);
    assert!(d.is_matches(48, 1));
    assert!(!d.is_matches(47, 1));
    assert!(!d.is_matches(49, 1));
    assert!(!d.is_matches(48, 2));
}

#[test]
fn scalable_matches_between_bounds() {
    let d = scalable(48, 1, 16, 256);
    assert!(d.is_matches(16, 1));
    assert!(d.is_matches(256, 1));
    assert!(d.is_matches(100, 1));
    assert!(!d.is_matches(15, 1));
    assert!(!d.is_matches(257, 1));
    assert!(!d.is_matches(100, 2));
}

#[test]
fn threshold_matches_within_reach() {
    let d = threshold(48, 1, 2);
    assert!(d.is_matches(46, 1));
    assert!(d.is_matches(50, 1));
    assert!(!d.is_matches(45, 1));
    assert!(!d.is_matches(51, 1));
    assert!(!d.is_matches(48, 3));
}

#[test]
fn threshold_near_zero_does_not_wrap() {
    let d = threshold(1, 1, 5);
    assert!(d.is_matches(0, 1));
    assert!(d.is_matches(6, 1));
    assert!(!d.is_matches(7, 1));
    assert!(!d.is_matches(60000, 1));
    assert_eq!(d.size_distance_range(), (0, 6));
    assert_eq!(d.size_distance(0, 1), 0);
    assert_eq!(d.size_distance(10, 1), 4);
}

#[test]
fn threshold_at_the_top_does_not_wrap() {
    let d = threshold(65535, 1, 10);
    assert!(d.is_matches(65535, 1));
    assert!(d.is_matches(65525, 1));
    assert!(!d.is_matches(65524, 1));
    assert_eq!(d.size_distance_range(), (65525, 65545));
}

#[test]
fn distance_is_the_gap_to_the_range() {
    let d = fixed(48, 1);
    assert_eq!(d.size_distance(48, 1), 0);
    assert_eq!(d.size_distance(32, 1), 16);
    assert_eq!(d.size_distance(64, 1), 16);
    assert_eq!(d.size_distance(24, 2), 0);
    let d = fixed(48, 2);
    assert_eq!(d.size_distance_range(), (96, 96));
    assert_eq!(d.size_distance(48, 2), 0);
    assert_eq!(d.size_distance(48, 1), 48);
    let d = scalable(48, 2, 16, 64);
    assert_eq!(d.size_distance_range(), (32, 128));
    assert_eq!(d.size_distance(10, 2), 12);
    assert_eq!(d.size_distance(16, 2), 0);
    assert_eq!(d.size_distance(64, 2), 0);
    assert_eq!(d.size_distance(70, 2), 12);
    let d = threshold(48, 1, 2);
    assert_eq!(d.size_distance_range(), (46, 50));
    assert_eq!(d.size_distance(40, 1), 6);
    assert_eq!(d.size_distance(52, 1), 2);
}

#[test]
fn distance_is_zero_exactly_on_a_match() {
    let dirs = [fixed(48, 1), scalable(48, 2, 16, 64), threshold(48, 1, 2)];
    for d in dirs.iter() {
        for size in 0u16..200 {
            assert_eq!(d.size_distance(size, d.scale()) == 0, d.is_matches(size, d.scale()));
        }
    }
}

#[test]
fn distance_does_not_overflow() {
    let d = fixed(65535, 65535);
    assert_eq!(d.size_distance(0, 0), 65535 * 65535);
    assert_eq!(d.size_distance(65535, 65535), 0);
    assert_eq!(scaled_size(65535, 65535), 4294836225);
    assert_eq!(scaled_size(48, 2), 96);
}

#[test]
fn getters_return_the_fields() {
    let d = scalable(48, 2, 16, 64);
    assert_eq!(d.size(), 48);
    assert_eq!(d.scale(), 2);
    assert_eq!(d.kind(), DirectoryKind::Scalable { min_size: 16, max_size: 64 });
}
