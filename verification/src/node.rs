//! Node records and their kind-specific payloads.
//!
//! Every arena entry is a [`Node`]: a local transform, a local visibility
//! flag, an optional user label, a link to the next sibling, and one
//! [`SubNode`] payload out of a closed set of kinds.

use vstd::prelude::*;

use crate::arena::Pointer;
use crate::texture::Texture;
use crate::transform::Transform;

verus! {

/// A solid color in `0xRRGGBB` form.
pub type Color = u32;

/// A camera projection, in integer units of the backend's choosing.
#[derive(Clone, Copy, Debug, PartialEq, Eq, Structural)]
pub enum Projection {
    /// An orthographic projection box.
    Orthographic {
        /// Horizontal center of the view box.
        center_x: i64,
        /// Vertical center of the view box.
        center_y: i64,
        /// Vertical extent from the center, up and down.
        extent_y: i64,
        /// Near clipping plane.
        near: i64,
        /// Far clipping plane.
        far: i64,
    },
    /// A perspective projection frustum.
    Perspective {
        /// Vertical field of view.
        fov_y: i64,
        /// Near clipping plane.
        near: i64,
        /// Far clipping plane.
        far: i64,
    },
}

/// A shadow map target owned by the rendering backend.
#[derive(Clone, Copy, Debug, PartialEq, Eq, Structural)]
pub struct ShadowMap {
    /// Backend identifier of the shadow texture.
    pub id: u64,
}

/// Material appearance of a renderable node.
#[derive(Clone, Copy, Debug)]
pub enum Material {
    /// Flat color or texture, no lighting.
    Basic {
        /// Base color.
        color: Color,
        /// Optional color texture.
        map: Option<Texture>,
    },
    /// Diffuse lighting.
    Lambert {
        /// Base color.
        color: Color,
        /// Flat shading instead of smooth.
        flat: bool,
    },
    /// Diffuse lighting with specular highlights.
    Phong {
        /// Base color.
        color: Color,
        /// Specular glossiness.
        glossiness: i64,
    },
    /// A 2D sprite carrying a texture atlas.
    Sprite {
        /// The sprite sheet; its texel range selects the active frame.
        map: Texture,
    },
    /// Renders edges only.
    Wireframe {
        /// Line color.
        color: Color,
    },
}

/// GPU-side data of a renderable node, owned by the rendering backend and
/// referred to by identifier, plus the blend-shape displacement weight
/// channels the mutation protocol updates, in fixed-point units.
#[derive(Clone, Copy, Debug, PartialEq, Eq, Structural)]
pub struct GpuData {
    /// Backend identifier of the vertex data.
    pub buffer_id: u64,
    /// First displacement weight channel.
    pub w0: i64,
    /// Second displacement weight channel.
    pub w1: i64,
    /// Third displacement weight channel.
    pub w2: i64,
    /// Fourth displacement weight channel.
    pub w3: i64,
    /// Pending CPU-side geometry update, by backend identifier.
    pub pending: Option<u64>,
}

/// The kind of a light source.
#[derive(Clone, Copy, Debug, PartialEq, Eq, Structural)]
pub enum SubLight {
    /// Uniform illumination from every direction.
    Ambient,
    /// Parallel rays along the node's orientation.
    Directional,
    /// Sky and ground colors blended by surface normal.
    Hemisphere {
        /// Ground color.
        ground: Color,
    },
    /// Point source at the node's position.
    Point,
}

/// Lighting parameters of a light node.
#[derive(Clone, Copy, Debug)]
pub struct LightData {
    /// Light color.
    pub color: Color,
    /// Intensity, in fixed-point units.
    pub intensity: i64,
    /// The kind of light.
    pub sub_light: SubLight,
    /// Optional shadow map and the projection used to render into it.
    pub shadow: Option<(ShadowMap, Projection)>,
}

/// Horizontal alignment of rendered UI text.
#[derive(Clone, Copy, Debug, PartialEq, Eq, Structural)]
pub enum TextLayout {
    /// Lines start at the left edge.
    Left,
    /// Lines are centered.
    Center,
    /// Lines end at the right edge.
    Right,
}

/// Layout state of a UI text node.
#[derive(Clone, Debug)]
pub struct TextData {
    /// The rendered string.
    pub text: String,
    /// Backend identifier of the font.
    pub font_id: u64,
    /// Text color.
    pub color: Color,
    /// Opacity, in fixed-point units.
    pub opacity: i64,
    /// Screen position, x.
    pub pos_x: i64,
    /// Screen position, y.
    pub pos_y: i64,
    /// Bounding size, x.
    pub size_x: i64,
    /// Bounding size, y.
    pub size_y: i64,
    /// Horizontal alignment.
    pub layout: TextLayout,
}

/// The kind-specific payload of a node.
#[derive(Clone, Debug)]
pub enum SubNode {
    /// Camera for rendering a scene.
    Camera(Projection),
    /// Group can be a parent to other objects.
    Group {
        /// Head of this group's child list.
        first_child: Option<Pointer>,
    },
    /// Renderable text for 2D user interface.
    UiText(TextData),
    /// Renderable 3D content, such as a mesh: material, GPU data, and an
    /// optional binding to a skeleton node.
    Visual(Material, GpuData, Option<Pointer>),
    /// Lighting information for illumination and shadow casting.
    Light(LightData),
    /// A single bone of a skeleton.
    Bone {
        /// Index of the bone within its skeleton.
        index: usize,
        /// Inverse bind transform of the bone.
        inverse_bind_matrix: Transform,
    },
    /// Skeleton root.
    Skeleton,
}

/// One entry of the node arena.
#[derive(Clone, Debug)]
pub struct Node {
    /// Composable local transform relative to the parent.
    pub transform: Transform,
    /// Local visibility flag.
    pub visible: bool,
    /// Optional user label.
    pub name: Option<String>,
    /// The next node sharing this node's parent.
    pub next_sibling: Option<Pointer>,
    /// Kind-specific payload.
    pub sub_node: SubNode,
}

impl Node {
    /// The head of this node's child list, when the node is a group.
    pub open spec fn first_child_spec(self) -> Option<Pointer> {
        match self.sub_node {
            SubNode::Group { first_child } => first_child,
            _ => None,
        }
    }

    /// A fresh node: identity transform, visible, unnamed, unlinked.
    pub fn new(sub_node: SubNode) -> (r: Node)
        ensures
            r.transform == Transform::identity_spec(),
            r.visible == true,
            r.name is None,
            r.next_sibling is None,
            r.sub_node == sub_node,
    {
        Node {
            transform: Transform::identity(),
            visible: true,
            name: None,
            next_sibling: None,
            sub_node,
        }
    }
}

} // verus!
