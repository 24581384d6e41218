//! Plain-data model of a DAZ surface file (DSF): the identifiers, names and
//! structure that the scene logic reads. The geometry payload itself
//! (vertex positions, weights, transforms) is floating-point data consumed
//! by the renderer outside this crate; the loader converts between the two
//! representations at the boundary.

use vstd::prelude::*;

verus! {

/// Who produced the asset.
#[derive(Debug)]
pub struct Contributor {
    pub author: String,
    pub email: String,
    pub website: String,
}

/// The asset's identity block, shared by DSF and DUF files.
#[derive(Debug)]
pub struct AssetInfo {
    pub id: String,
    pub asset_type: String,
    pub contributor: Contributor,
    pub revision: String,
    pub modified: String,
}

/// One geometry entry: identity and element counts.
#[derive(Debug)]
pub struct GeometryInfo {
    pub id: String,
    pub name: String,
    pub geometry_type: String,
    pub vertex_count: u32,
    pub polygon_count: u32,
    pub default_uv_set: String,
}

/// One node entry: identity and hierarchy.
#[derive(Debug)]
pub struct NodeInfo {
    pub id: String,
    pub name: String,
    pub node_type: String,
    pub label: String,
    pub parent: Option<String>,
    pub inherits_scale: bool,
}

/// A joint of a skin binding: its id and the node it drives.
#[derive(Debug)]
pub struct JointInfo {
    pub id: String,
    pub node: String,
}

/// A left/right symmetry table of a skin's selection map.
#[derive(Debug)]
pub struct SymmetryMapping {
    pub id: String,
    pub mappings: Vec<(String, String)>,
}

/// A modifier's skin binding.
#[derive(Debug)]
pub struct SkinBinding {
    pub node: String,
    pub geometry: String,
    pub vertex_count: u32,
    pub joints: Vec<JointInfo>,
    pub selection_map: Vec<SymmetryMapping>,
}

/// One modifier entry, optionally carrying a skin binding.
#[derive(Debug)]
pub struct ModifierInfo {
    pub id: String,
    pub name: String,
    pub parent: String,
    pub skin: Option<SkinBinding>,
}

/// A DAZ surface file.
#[derive(Debug)]
pub struct DSF {
    pub file_version: String,
    pub asset_info: AssetInfo,
    pub geometry_library: Vec<GeometryInfo>,
    pub node_library: Vec<NodeInfo>,
    pub modifier_library: Vec<ModifierInfo>,
}

impl DSF {
    /// The index of the first node whose id is `id`, if any: the lookup
    /// that skin construction uses to resolve a joint's node reference.
    pub fn find_node(&self, id: &String) -> (r: Option<usize>)
        ensures
            match r {
                Some(i) => {
                    &&& i < self.node_library@.len()
                    &&& self.node_library@[i as int].id@ == id@
                    &&& forall|j: int|
                        0 <= j < i ==> (#[trigger] self.node_library@[j]).id@ != id@
                },
                None => forall|j: int|
                    0 <= j < self.node_library@.len() ==> (#[trigger] self.node_library@[j]).id@
                        != id@,
            },
    {
        let mut i: usize = 0;
        while i < self.node_library.len()
            invariant
                i <= self.node_library@.len(),
                forall|j: int| 0 <= j < i ==> (#[trigger] self.node_library@[j]).id@ != id@,
            decreases self.node_library@.len() - i,
        {
            if self.node_library[i].id.eq(id) {
                return Some(i);
            }
            i = i + 1;
        }
        None
    }
}

} // verus!
