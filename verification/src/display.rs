//! The displays that the compositor reports.

use vstd::prelude::*;

verus! {

/// One display of the compositor.
#[derive(Clone, Debug)]
pub struct DisplayInfo {
    pub name: String,
    pub x: i32,
    pub y: i32,
    pub width: i32,
    pub height: i32,
    pub logical_size: Option<(i32, i32)>,
    /// The rotation in degrees.
    pub transform: i32,
}

/// All displays, and which of them is the main one.
#[derive(Clone, Debug)]
pub struct Displays {
    pub primary: usize,
    pub displays: Vec<DisplayInfo>,
}

/// A signed length as an unsigned one; a negative length wraps around.
pub open spec fn extent_of(v: i32) -> int {
    if v >= 0 {
        v as int
    } else {
        v + usize::MAX + 1
    }
}

/// Converts a signed length.
pub fn extent(v: i32) -> (r: usize)
    ensures
        r == extent_of(v),
{
    proof {
        assert(v < 0 ==> v as u64 == v + 0x1_0000_0000_0000_0000) by (bit_vector);
        assert(v < 0 ==> v as u32 == v + 0x1_0000_0000) by (bit_vector);
        if usize::BITS == 64 {
            assert(usize::BITS == 64 ==> v as usize == v as u64) by (bit_vector);
        } else {
            assert(usize::BITS == 32 ==> v as usize == v as u32) by (bit_vector);
        }
    }
    v as usize
}

impl DisplayInfo {
    /// The size of the panel as it stands, before rotation.
    pub open spec fn native_size(self) -> (usize, usize) {
        (extent_of(self.width) as usize, extent_of(self.height) as usize)
    }

    /// The size after rotation: a quarter turn swaps width and height.
    pub open spec fn rotated_size(self) -> (usize, usize) {
        if self.transform == 90 || self.transform == 270 {
            (self.native_size().1, self.native_size().0)
        } else {
            self.native_size()
        }
    }

    /// The upper left corner.
    pub open spec fn corner(self) -> (i32, i32) {
        (self.x, self.y)
    }

    /// Whether the panel has this size.
    pub fn has_native_size(&self, size: (usize, usize)) -> (r: bool)
        ensures
            r == (self.native_size() == size),
    {
        size.0 == extent(self.width) && size.1 == extent(self.height)
    }

    /// The size after rotation.
    pub fn get_rotated_size(&self) -> (r: (usize, usize))
        ensures
            r == self.rotated_size(),
    {
        let w: usize = extent(self.width);
        let h: usize = extent(self.height);
        if self.transform == 90 || self.transform == 270 {
            (h, w)
        } else {
            (w, h)
        }
    }
}

/// The first display with its upper left corner at `pos`.
pub open spec fn first_at(displays: Seq<DisplayInfo>, pos: (i32, i32)) -> Option<DisplayInfo>
    decreases displays.len(),
{
    if displays.len() == 0 {
        None
    } else if displays[0].corner() == pos {
        Some(displays[0])
    } else {
        first_at(displays.drop_first(), pos)
    }
}

/// Finds the first display with its upper left corner at `pos`.
pub fn find_at(displays: &Vec<DisplayInfo>, pos: (i32, i32)) -> (r: Option<&DisplayInfo>)
    ensures
        match r {
            Some(d) => first_at(displays@, pos) == Some(*d),
            None => first_at(displays@, pos) is None,
        },
{
    let mut i: usize = 0;
    assert(displays@.skip(0) == displays@);
    while i < displays.len()
        invariant
            i <= displays@.len(),
            first_at(displays@, pos) == first_at(displays@.skip(i as int), pos),
        decreases displays.len() - i,
    {
        let d = &displays[i];
        assert(displays@.skip(i as int).drop_first() == displays@.skip(i + 1));
        if d.x == pos.0 && d.y == pos.1 {
            return Some(d);
        }
        i += 1;
    }
    None
}

/// A signed length is converted as a cast does.
pub proof fn law_lengths_wrap_like_casts(v: i32)
    ensures
        extent_of(v) == v as usize,
        v >= 0 ==> extent_of(v) == v,
{
    assert(v < 0 ==> v as u64 == v + 0x1_0000_0000_0000_0000) by (bit_vector);
    assert(v < 0 ==> v as u32 == v + 0x1_0000_0000) by (bit_vector);
    if usize::BITS == 64 {
        assert(usize::BITS == 64 ==> v as usize == v as u64) by (bit_vector);
    } else {
        assert(usize::BITS == 32 ==> v as usize == v as u32) by (bit_vector);
    }
}

/// The size of a panel is its width and its height, and a quarter turn swaps them, whatever the
/// logical size is. Its corner is where it lies, turned or not.
pub proof fn law_sizes_turn_with_the_panel(d: DisplayInfo)
    ensures
        d.corner() == (d.x, d.y),
        d.native_size() == (d.width as usize, d.height as usize),
        d.transform == 90 || d.transform == 270 ==> d.rotated_size() == (
            d.height as usize,
            d.width as usize,
        ),
        d.transform != 90 && d.transform != 270 ==> d.rotated_size() == (
            d.width as usize,
            d.height as usize,
        ),
{
    law_lengths_wrap_like_casts(d.width);
    law_lengths_wrap_like_casts(d.height);
}

/// Of the displays with their corner at a place the first one is found.
pub proof fn law_first_display_at_a_place_is_found(
    displays: Seq<DisplayInfo>,
    pos: (i32, i32),
    k: int,
)
    requires
        0 <= k <= displays.len(),
        k < displays.len() ==> displays[k].x == pos.0 && displays[k].y == pos.1,
        forall|i: int|
            0 <= i < k ==> (#[trigger] displays[i]).x != pos.0 || displays[i].y != pos.1,
    ensures
        k < displays.len() ==> first_at(displays, pos) == Some(displays[k]),
        k == displays.len() ==> first_at(displays, pos) is None,
    decreases displays.len(),
{
    if displays.len() > 0 && k > 0 {
        let rest = displays.drop_first();
        assert(displays[0].x != pos.0 || displays[0].y != pos.1);
        assert forall|i: int| 0 <= i < k - 1 implies (#[trigger] rest[i]).x != pos.0 || rest[i].y
            != pos.1 by {
            assert(rest[i] == displays[i + 1]);
        }
        law_first_display_at_a_place_is_found(rest, pos, k - 1);
    }
}

} // verus!
