//! The remote cursor's image, as the front-end shows it.
use vstd::prelude::*;

verus! {

/// The cursor pixel that the pointer position refers to.
#[derive(Clone, Copy, Debug, PartialEq, Eq, Structural)]
pub struct Hotspot(pub usize, pub usize);

/// Width and height of the cursor image.
#[derive(Clone, Copy, Debug, PartialEq, Eq, Structural)]
pub struct CursorSize(pub usize, pub usize);

impl CursorSize {
    pub fn stride(&self) -> (r: usize)
        requires
            4 * self.0 <= usize::MAX,
        ensures
            r == 4 * self.0,
    {
        4 * self.0
    }

    pub fn no_of_bytes(&self) -> (r: usize)
        requires
            4 * self.0 * self.1 <= usize::MAX,
        ensures
            r == 4 * self.0 * self.1,
    {
        proof {
            if self.1 > 0 {
                assert(4 * self.0 <= 4 * self.0 * self.1) by (nonlinear_arith)
                    requires
                        self.1 >= 1,
                ;
            }
        }
        if self.1 == 0 {
            return 0;
        }
        self.stride() * self.1
    }
}

/// The cursor image with its hotspot; `changed` tells whether the
/// front-end has yet to see it.
pub struct Cursor {
    changed: bool,
    rgba: Vec<u8>,
    size: CursorSize,
    hotspot: Hotspot,
}

/// What a cursor holds.
pub struct CursorView {
    pub changed: bool,
    pub rgba: Seq<u8>,
    pub size: CursorSize,
    pub hotspot: Hotspot,
}

impl View for Cursor {
    type V = CursorView;

    closed spec fn view(&self) -> CursorView {
        CursorView { changed: self.changed, rgba: self.rgba@, size: self.size, hotspot: self.hotspot }
    }
}

impl Cursor {
    pub fn new() -> (r: Self)
        ensures
            !r@.changed,
            r@.rgba.len() == 0,
            r@.size == CursorSize(0, 0),
            r@.hotspot == Hotspot(0, 0),
    {
        Cursor { changed: false, rgba: Vec::new(), size: CursorSize(0, 0), hotspot: Hotspot(0, 0) }
    }

    /// Installs a new image and marks it as changed.
    pub fn change_data(&mut self, rgba: Vec<u8>, size: CursorSize, hotspot: Hotspot)
        ensures
            final(self)@ == (CursorView { changed: true, rgba: rgba@, size, hotspot }),
    {
        self.changed = true;
        self.rgba = rgba;
        self.size = size;
        self.hotspot = hotspot;
    }

    pub fn rgba(&self) -> (r: &Vec<u8>)
        ensures
            r@ == self@.rgba,
    {
        &self.rgba
    }

    pub fn hotspot(&self) -> (r: Hotspot)
        ensures
            r == self@.hotspot,
    {
        self.hotspot
    }

    pub fn size(&self) -> (r: CursorSize)
        ensures
            r == self@.size,
    {
        self.size
    }

    /// Whether the image changed since the last call; clears the mark.
    pub fn handle_changed(&mut self) -> (r: bool)
        ensures
            r == old(self)@.changed,
            final(self)@ == (CursorView { changed: false, ..old(self)@ }),
    {
        let ret = self.changed;
        self.changed = false;
        ret
    }
}

} // verus!
