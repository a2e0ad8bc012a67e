//! Interactive areas of a pinned image window.  The web view cannot pass the
//! mouse through per pixel, so these rectangles decide where the window
//! takes mouse input.
use vstd::prelude::*;

verus! {

/// A rectangle `(x, y, w, h)` relative to the window.
pub type Rect = (u32, u32, u32, u32);

/// The interactive areas of a pinned window.
pub struct Hitbox {
    /// The bottom 48-pixel tool bar.
    pub toolbar: Option<Rect>,
    /// The 8x8 resize corners.
    pub resize_handles: Vec<Rect>,
    /// The close button.
    pub close_button: Option<Rect>,
}

/// `(px, py)` lies in `r`.
pub open spec fn in_rect(r: Rect, px: u32, py: u32) -> bool {
    r.0 <= px < r.0 + r.2 && r.1 <= py < r.1 + r.3
}

/// The rectangle's far edges fit in `u32`.
pub open spec fn rect_fits(r: Rect) -> bool {
    r.0 + r.2 <= u32::MAX && r.1 + r.3 <= u32::MAX
}

impl Hitbox {
    /// Every rectangle's far edges fit in `u32`.
    pub open spec fn fits(&self) -> bool {
        &&& (self.toolbar matches Some(r) ==> rect_fits(r))
        &&& (self.close_button matches Some(r) ==> rect_fits(r))
        &&& forall|i: int| 0 <= i < self.resize_handles@.len() ==> rect_fits(#[trigger] self.resize_handles@[i])
    }

    /// The point is in one of the interactive areas.
    pub open spec fn hits(&self, px: u32, py: u32) -> bool {
        ||| (self.toolbar matches Some(r) && in_rect(r, px, py))
        ||| (self.close_button matches Some(r) && in_rect(r, px, py))
        ||| exists|i: int| 0 <= i < self.resize_handles@.len() && in_rect(#[trigger] self.resize_handles@[i], px, py)
    }

    /// The default layout for a `width` x `height` window: a 48-pixel tool
    /// bar along the bottom (when the window is taller than that), the four
    /// 8x8 corners and a 32x32 close button near the top-right corner.
    pub fn for_window(width: u32, height: u32) -> (res: Self)
        requires
            width >= 36,
            height >= 8,
        ensures
            res.toolbar == (if height > 48 { Some((0u32, (height - 48) as u32, width, 48u32)) } else { None }),
            res.resize_handles@ == seq![
                (0u32, 0u32, 8u32, 8u32),
                ((width - 8) as u32, 0u32, 8u32, 8u32),
                (0u32, (height - 8) as u32, 8u32, 8u32),
                ((width - 8) as u32, (height - 8) as u32, 8u32, 8u32),
            ],
            res.close_button == Some(((width - 36) as u32, 4u32, 32u32, 32u32)),
            res.fits(),
    {
        let bar_h = 48u32;
        let mut handles: Vec<Rect> = Vec::new();
        handles.push((0, 0, 8, 8));
        handles.push((width - 8, 0, 8, 8));
        handles.push((0, height - 8, 8, 8));
        handles.push((width - 8, height - 8, 8, 8));
        let res = Hitbox {
            toolbar: if height > bar_h { Some((0, height - bar_h, width, bar_h)) } else { None },
            resize_handles: handles,
            close_button: Some((width - 36, 4, 32, 32)),
        };
        assert(res.resize_handles@ =~= seq![
            (0u32, 0u32, 8u32, 8u32),
            ((width - 8) as u32, 0u32, 8u32, 8u32),
            (0u32, (height - 8) as u32, 8u32, 8u32),
            ((width - 8) as u32, (height - 8) as u32, 8u32, 8u32),
        ]);
        res
    }

    /// Whether the window point `(wx, wy)` is in an interactive area.
    pub fn hit_test(&self, wx: u32, wy: u32) -> (res: bool)
        requires
            self.fits(),
        ensures
            res == self.hits(wx, wy),
    {
        if let Some((x, y, w, h)) = self.toolbar {
            if wx >= x && wx < x + w && wy >= y && wy < y + h {
                return true;
            }
        }
        if let Some((x, y, w, h)) = self.close_button {
            if wx >= x && wx < x + w && wy >= y && wy < y + h {
                return true;
            }
        }
        let mut i: usize = 0;
        while i < self.resize_handles.len()
            invariant
                self.fits(),
                i <= self.resize_handles@.len(),
                !(self.toolbar matches Some(r) && in_rect(r, wx, wy)),
                !(self.close_button matches Some(r) && in_rect(r, wx, wy)),
                forall|k: int| 0 <= k < i ==> !in_rect(#[trigger] self.resize_handles@[k], wx, wy),
            decreases self.resize_handles@.len() - i,
        {
            let (x, y, w, h) = self.resize_handles[i];
            assert(rect_fits(self.resize_handles@[i as int]));
            if wx >= x && wx < x + w && wy >= y && wy < y + h {
                return true;
            }
            i = i + 1;
        }
        false
    }
}

/// Layout law: on a window taller than 48 pixels, every point of the bottom
/// 48-pixel strip takes mouse input.
pub proof fn lemma_toolbar_strip_interactive(width: u32, height: u32, px: u32, py: u32, hb: Hitbox)
    requires
        width >= 36,
        height > 48,
        px < width,
        height - 48 <= py < height,
        hb.toolbar == Some((0u32, (height - 48) as u32, width, 48u32)),
    ensures
        hb.hits(px, py),
{
}

/// Layout law: every point of the four 8x8 corners takes mouse input.
pub proof fn lemma_corners_interactive(width: u32, height: u32, px: u32, py: u32, hb: Hitbox)
    requires
        width >= 36,
        height >= 8,
        px < width,
        py < height,
        px < 8 || px >= width - 8,
        py < 8 || py >= height - 8,
        hb.resize_handles@ == seq![
            (0u32, 0u32, 8u32, 8u32),
            ((width - 8) as u32, 0u32, 8u32, 8u32),
            (0u32, (height - 8) as u32, 8u32, 8u32),
            ((width - 8) as u32, (height - 8) as u32, 8u32, 8u32),
        ],
    ensures
        hb.hits(px, py),
{
    if px < 8 && py < 8 {
        assert(in_rect(hb.resize_handles@[0], px, py));
    } else if py < 8 {
        assert(in_rect(hb.resize_handles@[1], px, py));
    } else if px < 8 {
        assert(in_rect(hb.resize_handles@[2], px, py));
    } else {
        assert(in_rect(hb.resize_handles@[3], px, py));
    }
}

/// Layout law: the inside of a window taller than 48 pixels, away from the
/// corners, the close button and the tool bar, lets the mouse through.
pub proof fn lemma_interior_passes_through(width: u32, height: u32, px: u32, py: u32, hb: Hitbox)
    requires
        width >= 36,
        height > 48,
        8 <= px < width - 36,
        36 <= py < height - 48,
        hb.toolbar == Some((0u32, (height - 48) as u32, width, 48u32)),
        hb.resize_handles@ == seq![
            (0u32, 0u32, 8u32, 8u32),
            ((width - 8) as u32, 0u32, 8u32, 8u32),
            (0u32, (height - 8) as u32, 8u32, 8u32),
            ((width - 8) as u32, (height - 8) as u32, 8u32, 8u32),
        ],
        hb.close_button == Some(((width - 36) as u32, 4u32, 32u32, 32u32)),
    ensures
        !hb.hits(px, py),
{
    assert forall|i: int| 0 <= i < hb.resize_handles@.len() implies !in_rect(
        #[trigger] hb.resize_handles@[i],
        px,
        py,
    ) by {
        assert(0 <= i < 4);
    }
}

} // verus!
