use vstd::prelude::*;

use crate::message_out::{Quat, Vec3};

verus! {

/// The collider primitive of a static level object.
#[derive(Debug, Clone, Copy, PartialEq, Eq, Structural)]
pub enum ColliderKind {
    Mesh,
    Capsule,
    Sphere,
    Cuboid,
}

/// The axis along which a capsule collider lies.
#[derive(Debug, Clone, Copy, PartialEq, Eq, Structural)]
pub enum Axis {
    X,
    Y,
    Z,
}

/// A fixed collider of the level: its placement, as `f32` bits, and its
/// type name and shape payload as loaded. Immutable after load.
#[derive(Debug)]
pub struct LevelObject {
    pub object_type: String,
    pub translation: Vec3,
    pub rotation: Quat,
    pub scale: Vec3,
    pub collider: String,
}

/// Every static object of the level.
#[derive(Debug)]
pub struct LevelObjects {
    pub objects: Vec<LevelObject>,
}

/// A level object as stored: placement fields and shape payload as JSON text.
#[derive(Debug)]
pub struct LevelObjectSchema {
    pub object_type: String,
    pub position: String,
    pub rotation: String,
    pub scale: String,
    pub collider: String,
}

/// The collider that a level object's type name asks for; other names build nothing.
pub open spec fn spec_collider_kind(t: Seq<char>) -> Option<ColliderKind> {
    if t == "MeshCollider"@ {
        Some(ColliderKind::Mesh)
    } else if t == "CapsuleCollider"@ {
        Some(ColliderKind::Capsule)
    } else if t == "SphereCollider"@ {
        Some(ColliderKind::Sphere)
    } else if t == "BoxCollider"@ {
        Some(ColliderKind::Cuboid)
    } else {
        None
    }
}

pub fn collider_kind(object_type: &String) -> (r: Option<ColliderKind>)
    ensures
        r == spec_collider_kind(object_type@),
{
    if *object_type == "MeshCollider".to_owned() {
        Some(ColliderKind::Mesh)
    } else if *object_type == "CapsuleCollider".to_owned() {
        Some(ColliderKind::Capsule)
    } else if *object_type == "SphereCollider".to_owned() {
        Some(ColliderKind::Sphere)
    } else if *object_type == "BoxCollider".to_owned() {
        Some(ColliderKind::Cuboid)
    } else {
        None
    }
}

/// The axis of a capsule by its direction code: 0, 1 and 2 for x, y and z.
pub open spec fn spec_capsule_axis(direction: i32) -> Option<Axis> {
    if direction == 0 {
        Some(Axis::X)
    } else if direction == 1 {
        Some(Axis::Y)
    } else if direction == 2 {
        Some(Axis::Z)
    } else {
        None
    }
}

pub fn capsule_axis(direction: i32) -> (r: Option<Axis>)
    ensures
        r == spec_capsule_axis(direction),
{
    match direction {
        0 => Some(Axis::X),
        1 => Some(Axis::Y),
        2 => Some(Axis::Z),
        _ => None,
    }
}

/// Groups a triangle list into index triples; a list whose length is not a
/// multiple of three has no grouping.
pub fn mesh_indices(triangles: &Vec<i32>) -> (r: Option<Vec<[u32; 3]>>)
    ensures
        r is Some <==> triangles@.len() % 3 == 0,
        r is Some ==> r->Some_0@.len() * 3 == triangles@.len(),
        r is Some ==> forall|k: int| 0 <= k < r->Some_0@.len() ==> {
            &&& (#[trigger] r->Some_0@[k])[0] == triangles@[3 * k] as u32
            &&& r->Some_0@[k][1] == triangles@[3 * k + 1] as u32
            &&& r->Some_0@[k][2] == triangles@[3 * k + 2] as u32
        },
{
    if triangles.len() % 3 != 0 {
        return None;
    }
    let mut out: Vec<[u32; 3]> = Vec::new();
    let mut i: usize = 0;
    while i < triangles.len()
        invariant
            triangles@.len() % 3 == 0,
            i % 3 == 0,
            i <= triangles@.len(),
            out@.len() * 3 == i,
            forall|k: int| 0 <= k < out@.len() ==> {
                &&& (#[trigger] out@[k])[0] == triangles@[3 * k] as u32
                &&& out@[k][1] == triangles@[3 * k + 1] as u32
                &&& out@[k][2] == triangles@[3 * k + 2] as u32
            },
        decreases triangles@.len() - i,
    {
        let tri = [triangles[i] as u32, triangles[i + 1] as u32, triangles[i + 2] as u32];
        out.push(tri);
        i = i + 3;
    }
    Some(out)
}

} // verus!
