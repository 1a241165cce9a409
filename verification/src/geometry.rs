//! The shapes of a map and the reference that ties a shape to its texture.

use crate::decimal::Decimal;
use vstd::prelude::*;

verus! {

/// Names a texture: the space (directory) it lives in, its place in that
/// space's table and, for an atlas, the slot inside the atlas.
#[derive(Clone, Copy, PartialEq, Eq, Hash, Debug, Structural)]
pub struct TextureIndex {
    space_index: usize,
    texture_index: usize,
    inner_index: Option<usize>,
}

/// What a [`TextureIndex`] holds.
pub struct TextureIndexView {
    pub space_index: nat,
    pub texture_index: nat,
    pub inner_index: Option<nat>,
}

impl View for TextureIndex {
    type V = TextureIndexView;

    closed spec fn view(&self) -> TextureIndexView {
        TextureIndexView {
            space_index: self.space_index as nat,
            texture_index: self.texture_index as nat,
            inner_index: match self.inner_index {
                Some(i) => Some(i as nat),
                None => None,
            },
        }
    }
}

impl TextureIndex {
    /// The space index of a texture is never zero: zero stands for the
    /// player's textures, which are looked up by other means.
    #[verifier::type_invariant]
    spec fn space_is_positive(&self) -> bool {
        self.space_index >= 1
    }

    /// The space index is at least one. Every `TextureIndex` that runs
    /// through a program is so.
    pub open spec fn wf(&self) -> bool {
        self@.space_index >= 1
    }

    pub fn new(space_index: usize, texture_index: usize, maybe_inner_index: Option<usize>) -> (t:
        Self)
        requires
            space_index >= 1,
        ensures
            t.wf(),
            t@.space_index == space_index,
            t@.texture_index == texture_index,
            t@.inner_index == match maybe_inner_index {
                Some(i) => Some(i as nat),
                None => None,
            },
    {
        TextureIndex { space_index, texture_index, inner_index: maybe_inner_index }
    }

    pub fn space_index(&self) -> (i: usize)
        ensures
            i == self@.space_index,
            i >= 1,
    {
        proof {
            use_type_invariant(self);
        }
        self.space_index
    }

    pub fn texture_index(&self) -> (i: usize)
        ensures
            i == self@.texture_index,
    {
        self.texture_index
    }

    pub fn inner_index(&self) -> (i: Option<usize>)
        ensures
            match i {
                Some(v) => self@.inner_index == Some(v as nat),
                None => self@.inner_index is None,
            },
    {
        self.inner_index
    }
}

/// An axis-aligned rectangle: its top-left corner and its size.
#[derive(Debug)]
pub struct Rect {
    pub x: Decimal,
    pub y: Decimal,
    pub w: Decimal,
    pub h: Decimal,
}

/// The four literals of a [`Rect`].
pub struct RectView {
    pub x: Seq<u8>,
    pub y: Seq<u8>,
    pub w: Seq<u8>,
    pub h: Seq<u8>,
}

impl View for Rect {
    type V = RectView;

    open spec fn view(&self) -> RectView {
        RectView { x: self.x@, y: self.y@, w: self.w@, h: self.h@ }
    }
}

impl Rect {
    pub open spec fn wf(&self) -> bool {
        self.x.wf() && self.y.wf() && self.w.wf() && self.h.wf()
    }

    pub fn new(x: Decimal, y: Decimal, w: Decimal, h: Decimal) -> (r: Self)
        ensures
            r == (Rect { x, y, w, h }),
    {
        Rect { x, y, w, h }
    }
}

/// A line segment between two points, held as `x1, y1, x2, y2`.
#[derive(Debug)]
pub struct Line {
    pub inner: [Decimal; 4],
}

#[derive(Debug)]
pub enum GeometryType {
    Rect(Rect),
}

pub enum GeometryTypeView {
    Rect(RectView),
}

impl View for GeometryType {
    type V = GeometryTypeView;

    open spec fn view(&self) -> GeometryTypeView {
        match self {
            GeometryType::Rect(r) => GeometryTypeView::Rect(r@),
        }
    }
}

/// One shape of a map, with the texture to draw it with, if it has one.
#[derive(Debug)]
pub struct Geometry {
    pub kind: GeometryType,
    pub t_index: Option<TextureIndex>,
}

pub struct GeometryView {
    pub kind: GeometryTypeView,
    pub t_index: Option<TextureIndexView>,
}

impl View for Geometry {
    type V = GeometryView;

    open spec fn view(&self) -> GeometryView {
        GeometryView {
            kind: self.kind@,
            t_index: match self.t_index {
                Some(t) => Some(t@),
                None => None,
            },
        }
    }
}

impl Geometry {
    /// Every number is a decimal literal and the texture, if any, is valid.
    pub open spec fn wf(&self) -> bool {
        &&& match self.kind {
            GeometryType::Rect(r) => r.wf(),
        }
        &&& match self.t_index {
            Some(t) => t.wf(),
            None => true,
        }
    }

    pub fn new_rect(x: Decimal, y: Decimal, w: Decimal, h: Decimal, t_index: Option<
        TextureIndex,
    >) -> (g: Self)
        ensures
            g == (Geometry { kind: GeometryType::Rect(Rect { x, y, w, h }), t_index }),
    {
        Geometry { kind: GeometryType::Rect(Rect::new(x, y, w, h)), t_index }
    }
}

/// The views of some shapes, in their order.
pub open spec fn views_of(items: Seq<Geometry>) -> Seq<GeometryView> {
    items.map_values(|g: Geometry| g@)
}

/// The shapes of a map, in the order of the lines that gave them.
#[derive(Debug)]
pub struct GeometryMap {
    pub inner: Vec<Geometry>,
}

impl View for GeometryMap {
    type V = Seq<GeometryView>;

    open spec fn view(&self) -> Seq<GeometryView> {
        views_of(self.inner@)
    }
}

impl GeometryMap {
    pub open spec fn wf(&self) -> bool {
        forall|i: int| 0 <= i < self.inner@.len() ==> (#[trigger] self.inner@[i]).wf()
    }
}

} // verus!
