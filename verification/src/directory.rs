//! Sizing policy of one theme subdirectory.

use crate::ini::{ini_entries, ini_get_text, ini_get_u16, parsed_u16, Entries};
use vstd::prelude::*;

verus! {

/// The number stored under `section` and `key`, if the key is there and holds one.
pub open spec fn number_at(entries: Entries, section: Seq<char>, key: Seq<char>) -> Option<u16> {
    if entries.contains_key((section, key)) {
        parsed_u16(entries[(section, key)])
    } else {
        None
    }
}

/// The sizing policy that the section `folder` declares, if it declares a sound one in
/// full: a size, a known type, a scale that is not 0, and for a scalable directory both
/// bounds, in order. The scale defaults to 1 and the threshold to 2.
pub open spec fn declared_directory(entries: Entries, folder: Seq<char>) -> Option<Directory> {
    let size = number_at(entries, folder, "Size"@);
    let scale = number_at(entries, folder, "Scale"@);
    let min_size = number_at(entries, folder, "MinSize"@);
    let max_size = number_at(entries, folder, "MaxSize"@);
    let threshold = number_at(entries, folder, "Threshold"@);
    if size is None || scale == Some(0u16) || !entries.contains_key((folder, "Type"@)) {
        None
    } else {
        let kind = entries[(folder, "Type"@)];
        let scale = if scale is Some { scale.unwrap() } else { 1u16 };
        if kind == "Fixed"@ {
            Some(Directory { size: size.unwrap(), scale, kind: DirectoryKind::Fixed })
        } else if kind == "Scalable"@ {
            if min_size is Some && max_size is Some && min_size.unwrap() <= max_size.unwrap() {
                Some(
                    Directory {
                        size: size.unwrap(),
                        scale,
                        kind: DirectoryKind::Scalable {
                            min_size: min_size.unwrap(),
                            max_size: max_size.unwrap(),
                        },
                    },
                )
            } else {
                None
            }
        } else if kind == "Threshold"@ {
            Some(
                Directory {
                    size: size.unwrap(),
                    scale,
                    kind: DirectoryKind::Threshold {
                        threshold: if threshold is Some { threshold.unwrap() } else { 2u16 },
                    },
                },
            )
        } else {
            None
        }
    }
}

/// Every directory that a descriptor declares is valid.
pub proof fn declared_directory_is_valid(entries: Entries, folder: Seq<char>)
    ensures
        declared_directory(entries, folder) matches Some(directory) ==> directory.valid(),
{
}

/// Whether `text` reads exactly as `word`.
pub fn text_is(text: &String, word: &str) -> (same: bool)
    ensures
        same == (text@ == word@),
{
    let owned: String = word.to_owned();
    *text == owned
}

/// How a directory relates the size of its icons to a requested size.
#[derive(Clone, Copy, Debug, PartialEq, Eq, Structural)]
pub enum DirectoryKind {
    Fixed,
    Scalable { min_size: u16, max_size: u16 },
    Threshold { threshold: u16 },
}

/// Nominal size, display scale and sizing policy of one theme subdirectory.
#[derive(Clone, Copy, Debug, PartialEq, Eq, Structural)]
pub struct Directory {
    pub size: u16,
    pub scale: u16,
    pub kind: DirectoryKind,
}

/// Lower edge of a threshold interval, clamped at zero.
pub open spec fn threshold_low(size: u16, threshold: u16) -> int {
    if size >= threshold {
        size - threshold
    } else {
        0
    }
}

/// Distance from `point` to the closed interval `[low, high]`.
pub open spec fn gap(low: int, high: int, point: int) -> int {
    if low > point {
        low - point
    } else if high < point {
        point - high
    } else {
        0
    }
}

impl Directory {
    /// What every directory of a sound theme meets: a scale of at least 1, and for a
    /// scalable directory bounds in order.
    pub open spec fn valid(self) -> bool {
        self.scale >= 1 && match self.kind {
            DirectoryKind::Scalable { min_size, max_size } => min_size <= max_size,
            _ => true,
        }
    }

    /// Whether an icon of `icon_size` at `icon_scale` fits this directory exactly.
    pub open spec fn matches(self, icon_size: u16, icon_scale: u16) -> bool {
        self.scale == icon_scale && match self.kind {
            DirectoryKind::Fixed => self.size == icon_size,
            DirectoryKind::Scalable { min_size, max_size } => min_size <= icon_size <= max_size,
            DirectoryKind::Threshold { threshold } => {
                -(threshold as int) <= icon_size - self.size <= threshold as int
            },
        }
    }

    /// Lower edge of the range of scaled sizes this directory accepts.
    pub open spec fn range_low(self) -> int {
        match self.kind {
            DirectoryKind::Fixed => self.size * self.scale,
            DirectoryKind::Scalable { min_size, max_size } => min_size * self.scale,
            DirectoryKind::Threshold { threshold } => threshold_low(self.size, threshold),
        }
    }

    /// Upper edge of the range of scaled sizes this directory accepts.
    pub open spec fn range_high(self) -> int {
        match self.kind {
            DirectoryKind::Fixed => self.size * self.scale,
            DirectoryKind::Scalable { min_size, max_size } => max_size * self.scale,
            DirectoryKind::Threshold { threshold } => self.size + threshold,
        }
    }

    /// How far the scaled request `icon_size * icon_scale` lies outside the accepted range.
    pub open spec fn distance(self, icon_size: u16, icon_scale: u16) -> int {
        gap(self.range_low(), self.range_high(), icon_size * icon_scale)
    }

    pub fn new(size: u16, scale: u16, kind: DirectoryKind) -> (d: Directory)
        ensures
            d.size == size,
            d.scale == scale,
            d.kind == kind,
    {
        Directory { size, scale, kind }
    }

    /// Reads the sizing policy of the directory `folder` from the theme descriptor. A
    /// section that declares a scale of 0, or scalable bounds out of order, is passed
    /// over like an incomplete one, so every directory that is read is valid.
    pub fn read(ini: &tini::Ini, folder: &str) -> (d: Option<Directory>)
        ensures
            d == declared_directory(ini_entries(*ini), folder@),
            d matches Some(directory) ==> directory.valid(),
    {
        let size: u16 = match ini_get_u16(ini, folder, "Size") {
            Some(size) => size,
            None => { return None; },
        };
        let scale: u16 = match ini_get_u16(ini, folder, "Scale") {
            Some(scale) => scale,
            None => 1,
        };
        if scale == 0 {
            return None;
        }
        let kind: String = match ini_get_text(ini, folder, "Type") {
            Some(kind) => kind,
            None => { return None; },
        };
        if text_is(&kind, "Fixed") {
            Some(Directory { size, scale, kind: DirectoryKind::Fixed })
        } else if text_is(&kind, "Scalable") {
            let min_size: u16 = match ini_get_u16(ini, folder, "MinSize") {
                Some(bound) => bound,
                None => { return None; },
            };
            let max_size: u16 = match ini_get_u16(ini, folder, "MaxSize") {
                Some(bound) => bound,
                None => { return None; },
            };
            if min_size > max_size {
                return None;
            }
            Some(Directory { size, scale, kind: DirectoryKind::Scalable { min_size, max_size } })
        } else if text_is(&kind, "Threshold") {
            let threshold: u16 = match ini_get_u16(ini, folder, "Threshold") {
                Some(threshold) => threshold,
                None => 2,
            };
            Some(Directory { size, scale, kind: DirectoryKind::Threshold { threshold } })
        } else {
            None
        }
    }

    pub fn is_matches(&self, icon_size: u16, icon_scale: u16) -> (hit: bool)
        ensures
            hit == self.matches(icon_size, icon_scale),
    {
        if self.scale() != icon_scale {
            return false;
        }
        match self.kind() {
            DirectoryKind::Fixed => self.size() == icon_size,
            DirectoryKind::Scalable { min_size, max_size } => {
                min_size <= icon_size && icon_size <= max_size
            },
            DirectoryKind::Threshold { threshold } => {
                let low: u16 = self.size().saturating_sub(threshold);
                let high: u16 = self.size().saturating_add(threshold);
                low <= icon_size && icon_size <= high
            },
        }
    }

    /// The accepted range of scaled sizes, as `(low, high)`.
    pub fn size_distance_range(&self) -> (range: (u32, u32))
        ensures
            range.0 == self.range_low(),
            range.1 == self.range_high(),
    {
        match self.kind() {
            DirectoryKind::Fixed => {
                let scaled: u32 = scaled_size(self.size(), self.scale());
                (scaled, scaled)
            },
            DirectoryKind::Scalable { min_size, max_size } => (
                scaled_size(min_size, self.scale()),
                scaled_size(max_size, self.scale()),
            ),
            DirectoryKind::Threshold { threshold } => {
                let low: u16 = self.size().saturating_sub(threshold);
                let size: u32 = self.size().into();
                let reach: u32 = threshold.into();
                (low.into(), size + reach)
            },
        }
    }

    pub fn size_distance(&self, icon_size: u16, icon_scale: u16) -> (d: u32)
        ensures
            d == self.distance(icon_size, icon_scale),
    {
        let wanted: u32 = scaled_size(icon_size, icon_scale);
        let (left, right) = self.size_distance_range();
        if left > wanted {
            left - wanted
        } else if right < wanted {
            wanted - right
        } else {
            0
        }
    }

    pub fn scale(&self) -> (s: u16)
        ensures
            s == self.scale,
    {
        self.scale
    }

    pub fn size(&self) -> (s: u16)
        ensures
            s == self.size,
    {
        self.size
    }

    pub fn kind(&self) -> (k: DirectoryKind)
        ensures
            k == self.kind,
    {
        self.kind
    }
}

/// `size * scale`, which always fits in 32 bits.
pub fn scaled_size(size: u16, scale: u16) -> (scaled: u32)
    ensures
        scaled == size * scale,
{
    assert(0 <= size * scale <= 65535 * 65535) by (nonlinear_arith)
        requires
            0 <= size <= 65535,
            0 <= scale <= 65535,
    ;
    let wide_size: u32 = size.into();
    let wide_scale: u32 = scale.into();
    wide_size * wide_scale
}

/// A fixed directory matches exactly its own size at its own scale.
pub proof fn fixed_matches_own_size_only(d: Directory, icon_size: u16, icon_scale: u16)
    requires
        d.kind == DirectoryKind::Fixed,
    ensures
        d.matches(icon_size, icon_scale) <==> (icon_scale == d.scale && icon_size == d.size),
{
}

/// A scalable directory matches exactly the sizes between its bounds, at its own scale;
/// the sizes next to the bounds on the outside do not match.
pub proof fn scalable_matches_within_bounds(
    d: Directory,
    min_size: u16,
    max_size: u16,
    icon_size: u16,
    icon_scale: u16,
)
    requires
        d.kind == (DirectoryKind::Scalable { min_size, max_size }),
    ensures
        d.matches(icon_size, icon_scale) <==> (icon_scale == d.scale && min_size <= icon_size
            <= max_size),
        icon_size + 1 == min_size ==> !d.matches(icon_size, icon_scale),
        icon_size == max_size + 1 ==> !d.matches(icon_size, icon_scale),
{
}

/// A threshold directory matches exactly the sizes no further than the threshold from
/// its nominal size, at its own scale; the lower edge never wraps below zero.
pub proof fn threshold_matches_within_reach(
    d: Directory,
    threshold: u16,
    icon_size: u16,
    icon_scale: u16,
)
    requires
        d.kind == (DirectoryKind::Threshold { threshold }),
    ensures
        d.matches(icon_size, icon_scale) <==> (icon_scale == d.scale && vstd::math::abs(
            icon_size - d.size,
        ) <= threshold),
        icon_size == d.size + threshold ==> d.matches(icon_size, d.scale),
        icon_size == d.size + threshold + 1 ==> !d.matches(icon_size, icon_scale),
        d.size < threshold ==> d.matches(0, d.scale),
{
}

/// At the directory's own scale, the distance is zero exactly for the requests that
/// match, and positive for the others. A threshold directory is left out unless its
/// scale is 1: its range is not scaled, while the request is.
pub proof fn distance_zero_iff_matches(d: Directory, icon_size: u16)
    requires
        d.valid(),
        d.kind is Threshold ==> d.scale == 1,
    ensures
        d.distance(icon_size, d.scale) == 0 <==> d.matches(icon_size, d.scale),
        d.distance(icon_size, d.scale) >= 0,
{
    let s = d.scale as int;
    let x = icon_size as int;
    match d.kind {
        DirectoryKind::Fixed => {
            let n = d.size as int;
            assert((x * s == n * s) <==> x == n) by (nonlinear_arith)
                requires
                    s >= 1,
            ;
        },
        DirectoryKind::Scalable { min_size, max_size } => {
            let lo = min_size as int;
            let hi = max_size as int;
            assert((lo * s <= x * s) <==> lo <= x) by (nonlinear_arith)
                requires
                    s >= 1,
            ;
            assert((x * s <= hi * s) <==> x <= hi) by (nonlinear_arith)
                requires
                    s >= 1,
            ;
        },
        DirectoryKind::Threshold { threshold } => {
            assert(x * s == x) by (nonlinear_arith)
                requires
                    s == 1,
            ;
        },
    }
}

/// The accepted range of a valid directory is not empty.
pub proof fn range_is_ordered(d: Directory)
    requires
        d.valid(),
    ensures
        0 <= d.range_low() <= d.range_high(),
{
    let s = d.scale as int;
    match d.kind {
        DirectoryKind::Scalable { min_size, max_size } => {
            let lo = min_size as int;
            let hi = max_size as int;
            assert(0 <= lo * s <= hi * s) by (nonlinear_arith)
                requires
                    s >= 1,
                    0 <= lo <= hi,
            ;
        },
        DirectoryKind::Fixed => {
            let n = d.size as int;
            assert(0 <= n * s) by (nonlinear_arith)
                requires
                    s >= 1,
                    0 <= n,
            ;
        },
        DirectoryKind::Threshold { .. } => {},
    }
}

/// The distance is the displacement from the accepted range: never negative, zero inside
/// the range, and growing one for one as the scaled request moves away on either side.
pub proof fn distance_grows_with_displacement(
    d: Directory,
    near_size: u16,
    near_scale: u16,
    far_size: u16,
    far_scale: u16,
)
    requires
        d.valid(),
        (d.range_high() <= near_size * near_scale <= far_size * far_scale) || (far_size * far_scale
            <= near_size * near_scale <= d.range_low()),
    ensures
        d.distance(near_size, near_scale) >= 0,
        d.distance(far_size, far_scale) - d.distance(near_size, near_scale) == vstd::math::abs(
            far_size * far_scale - near_size * near_scale,
        ),
{
    range_is_ordered(d);
}

} // verus!
