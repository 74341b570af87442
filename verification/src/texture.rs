//! Texture handles and texel addressing.
//!
//! The rendering backend owns the actual image and sampler objects; the
//! scene graph refers to them by stable identifiers and keeps the texel
//! sub-rectangle, which sprite materials update through the mutation
//! protocol, in exact integer coordinates.

use vstd::prelude::*;

verus! {

/// The sampling properties for a [`Texture`], held by the rendering backend
/// and referred to by identifier.
#[derive(Clone, Copy, Debug, PartialEq, Eq, Structural)]
pub struct Sampler {
    /// Backend identifier of the sampler object.
    pub id: u64,
}

/// An image applied (mapped) to the surface of a shape or polygon.  The
/// image data lives in the rendering backend; the graph keeps its identity
/// and the active texel sub-rectangle.
#[derive(Clone, Copy, Debug, PartialEq, Eq, Structural)]
pub struct Texture {
    /// Backend identifier of the image view.
    pub view_id: u64,
    /// Sampler used with this texture.
    pub sampler: Sampler,
    /// Total width of the image, in texels.
    pub total_w: u32,
    /// Total height of the image, in texels.
    pub total_h: u32,
    /// Lower corner of the active texel rectangle, x.
    pub tex0_x: i64,
    /// Lower corner of the active texel rectangle, y.
    pub tex0_y: i64,
    /// Upper corner of the active texel rectangle, x.
    pub tex1_x: i64,
    /// Upper corner of the active texel rectangle, y.
    pub tex1_y: i64,
}

/// The texture after selecting the active sub-rectangle with corner `base`
/// (y growing downward) and extent `size`.
pub open spec fn texel_range_applied(
    t: Texture,
    base_x: i16,
    base_y: i16,
    size_x: u16,
    size_y: u16,
) -> Texture {
    Texture {
        tex0_x: base_x as i64,
        tex0_y: (t.total_h as int - base_y as int - size_y as int) as i64,
        tex1_x: (base_x as int + size_x as int) as i64,
        tex1_y: (t.total_h as int - base_y as int) as i64,
        ..t
    }
}

impl Texture {
    /// A texture whose active rectangle is the whole image.
    pub fn new(view_id: u64, sampler: Sampler, total_w: u32, total_h: u32) -> (r: Texture)
        ensures
            r.view_id == view_id,
            r.sampler == sampler,
            r.total_w == total_w,
            r.total_h == total_h,
            r.tex0_x == 0 && r.tex0_y == 0,
            r.tex1_x == total_w as int && r.tex1_y == total_h as int,
    {
        Texture {
            view_id,
            sampler,
            total_w,
            total_h,
            tex0_x: 0,
            tex0_y: 0,
            tex1_x: total_w as i64,
            tex1_y: total_h as i64,
        }
    }

    /// Select the active sub-rectangle: `base` is its top-left corner in
    /// image coordinates (y growing downward) and `size` its extent, while
    /// the stored corners are kept with y growing upward.
    pub fn set_texel_range(&mut self, base_x: i16, base_y: i16, size_x: u16, size_y: u16)
        ensures
            *final(self) == texel_range_applied(*old(self), base_x, base_y, size_x, size_y),
    {
        self.tex0_x = base_x as i64;
        self.tex0_y = self.total_h as i64 - base_y as i64 - size_y as i64;
        self.tex1_x = base_x as i64 + size_x as i64;
        self.tex1_y = self.total_h as i64 - base_y as i64;
    }
}

/// Paths to the six faces of a cube map, useful for loading a [`CubeMap`].
#[derive(Clone, Debug)]
pub struct CubeMapPath<P> {
    /// "Front" image. `Z+`.
    pub front: P,
    /// "Back" image. `Z-`.
    pub back: P,
    /// "Left" image. `X-`.
    pub left: P,
    /// "Right" image. `X+`.
    pub right: P,
    /// "Up" image. `Y+`.
    pub up: P,
    /// "Down" image. `Y-`.
    pub down: P,
}

impl<P> CubeMapPath<P> {
    /// The six faces in backend layer order: right, left, up, down, front,
    /// back.
    pub fn as_array(&self) -> (r: [&P; 6])
        ensures
            r[0] == &self.right,
            r[1] == &self.left,
            r[2] == &self.up,
            r[3] == &self.down,
            r[4] == &self.front,
            r[5] == &self.back,
    {
        [&self.right, &self.left, &self.up, &self.down, &self.front, &self.back]
    }
}

/// Six textures of a cube mapping, owned by the rendering backend and
/// referred to by identifier.
#[derive(Clone, Copy, Debug, PartialEq, Eq, Structural)]
pub struct CubeMap {
    /// Backend identifier of the cube view.
    pub view_id: u64,
    /// Sampler used with this cube map.
    pub sampler: Sampler,
}

impl CubeMap {
    /// A cube map from its backend view and sampler.
    pub fn new(view_id: u64, sampler: Sampler) -> (r: CubeMap)
        ensures
            r.view_id == view_id,
            r.sampler == sampler,
    {
        CubeMap { view_id, sampler }
    }

    /// The backend view and sampler pair, as the render path consumes it.
    pub fn to_param(&self) -> (r: (u64, Sampler))
        ensures
            r.0 == self.view_id,
            r.1 == self.sampler,
    {
        (self.view_id, self.sampler)
    }
}

} // verus!
