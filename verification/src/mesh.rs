//! Renderable mesh objects: thin, handle-carrying wrappers whose mutation
//! methods enqueue operations for the hub to apply.

use vstd::prelude::*;

use crate::arena::Pointer;
use crate::hub::{retain_carried, Handle, Hub, Message, Operation};
use crate::node::Material;

verus! {

/// Geometry with some material, living in the scene graph as a renderable
/// node addressed by its handle.
pub struct Mesh {
    /// The renderable node this mesh stands for.
    pub object: Handle,
}

impl PartialEq for Mesh {
    /// Mesh equality is identity of the underlying node.
    fn eq(&self, other: &Mesh) -> (r: bool) {
        self.object == other.object
    }
}

impl Eq for Mesh {

}

impl vstd::std_specs::cmp::PartialEqSpecImpl for Mesh {
    open spec fn obeys_eq_spec() -> bool {
        true
    }

    open spec fn eq_spec(&self, other: &Mesh) -> bool {
        self.object.ptr_spec() == other.object.ptr_spec()
    }
}

impl Mesh {
    /// Set the mesh material: enqueues the update for the next processing
    /// pass.
    pub fn set_material(&self, hub: &mut Hub, material: Material)
        ensures
            final(hub).slots() == old(hub).slots(),
            final(hub).pending() == old(hub).pending().push(
                Message {
                    target: self.object.ptr_spec(),
                    operation: Operation::SetMaterial(material),
                },
            ),
    {
        hub.send(&self.object, Operation::SetMaterial(material));
    }

    /// Bind a skeleton node to the mesh: enqueues the update, carrying a
    /// strong reference to the skeleton while it is in flight.
    pub fn set_skeleton(&self, hub: &mut Hub, skeleton: Pointer)
        ensures
            final(hub).slots() == retain_carried(
                old(hub).slots(),
                Operation::SetSkeleton(skeleton),
            ),
            final(hub).pending() == old(hub).pending().push(
                Message {
                    target: self.object.ptr_spec(),
                    operation: Operation::SetSkeleton(skeleton),
                },
            ),
    {
        hub.send(&self.object, Operation::SetSkeleton(skeleton));
    }
}

/// A dynamic version of a mesh: its geometry can be changed on the CPU
/// side in order to animate it.
pub struct DynamicMesh {
    /// The renderable node this mesh stands for.
    pub object: Handle,
    /// Number of vertices of the geometry base shape.
    pub vertex_count: usize,
    /// Backend identifier of the CPU-side geometry buffer.
    pub dynamic_id: u64,
}

impl PartialEq for DynamicMesh {
    /// Dynamic meshes are equal when they stand for the same node,
    /// whatever their geometry state.
    fn eq(&self, other: &DynamicMesh) -> (r: bool) {
        self.object == other.object
    }
}

impl Eq for DynamicMesh {

}

impl vstd::std_specs::cmp::PartialEqSpecImpl for DynamicMesh {
    open spec fn obeys_eq_spec() -> bool {
        true
    }

    open spec fn eq_spec(&self, other: &DynamicMesh) -> bool {
        self.object.ptr_spec() == other.object.ptr_spec()
    }
}

impl DynamicMesh {
    /// The number of vertices of the geometry base shape.
    pub fn vertex_count(&self) -> (r: usize)
        ensures
            r == self.vertex_count,
    {
        self.vertex_count
    }

    /// Set the mesh material: enqueues the update for the next processing
    /// pass.
    pub fn set_material(&mut self, hub: &mut Hub, material: Material)
        ensures
            *final(self) == *old(self),
            final(hub).slots() == old(hub).slots(),
            final(hub).pending() == old(hub).pending().push(
                Message {
                    target: old(self).object.ptr_spec(),
                    operation: Operation::SetMaterial(material),
                },
            ),
    {
        hub.send(&self.object, Operation::SetMaterial(material));
    }
}

} // verus!
