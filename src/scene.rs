//! Structural validation of a scene before it is rendered: every material
//! reference resolves, and every mesh is a well-formed list of triangles.
//! The renderer's inner loop indexes without checks, so a scene that fails
//! here must never reach it.
use vstd::prelude::*;

verus! {

/// What validation reads of one triangle mesh: its material, how many
/// vertex positions and normals it has, and its triangle index list.
pub struct MeshLayout {
    pub material_id: usize,
    pub positions: usize,
    pub normals: usize,
    pub indices: Vec<u32>,
}

/// What validation reads of a scene: how many materials it has, the
/// material of each sphere, and the layout of each mesh.
pub struct SceneLayout {
    pub materials: usize,
    pub sphere_materials: Vec<usize>,
    pub meshes: Vec<MeshLayout>,
}

/// A structural fault of a scene; the first one found is reported.
#[derive(Clone, Copy, Debug, PartialEq, Eq, Structural)]
pub enum SceneError {
    /// A sphere refers to a material that does not exist.
    SphereMaterial { sphere: usize, material_id: usize },
    /// A mesh refers to a material that does not exist.
    MeshMaterial { mesh: usize, material_id: usize },
    /// A mesh's index list is not a whole number of triangles.
    IndexCount { mesh: usize, count: usize },
    /// A mesh has a different number of normals than of positions.
    NormalCount { mesh: usize, positions: usize, normals: usize },
    /// A mesh's triangle refers to a vertex that does not exist.
    VertexIndex { mesh: usize, index: u32 },
}

/// A mesh whose material exists, whose indices form whole triangles, whose
/// every position has a normal and whose indices all name a vertex.
pub open spec fn mesh_valid(m: MeshLayout, materials: nat) -> bool {
    &&& m.material_id < materials
    &&& m.indices@.len() % 3 == 0
    &&& m.normals == m.positions
    &&& forall|j: int| 0 <= j < m.indices@.len() ==> #[trigger] m.indices@[j] < m.positions
}

/// A scene with no structural fault.
pub open spec fn layout_valid(l: SceneLayout) -> bool {
    &&& forall|s: int|
        0 <= s < l.sphere_materials@.len() ==> #[trigger] l.sphere_materials@[s] < l.materials
    &&& forall|m: int| 0 <= m < l.meshes@.len() ==> mesh_valid(#[trigger] l.meshes@[m], l.materials as nat)
}

/// Every sphere, and every mesh before `mesh`, is valid.
pub open spec fn valid_before_mesh(l: SceneLayout, mesh: int) -> bool {
    &&& forall|s: int|
        0 <= s < l.sphere_materials@.len() ==> #[trigger] l.sphere_materials@[s] < l.materials
    &&& 0 <= mesh < l.meshes@.len()
    &&& forall|m: int| 0 <= m < mesh ==> mesh_valid(#[trigger] l.meshes@[m], l.materials as nat)
}

/// `e` is the first fault of `l`, checking spheres in order, then meshes in
/// order, and within a mesh its material, its index count, its normal
/// count and then its indices in order.
pub open spec fn first_fault(l: SceneLayout, e: SceneError) -> bool {
    match e {
        SceneError::SphereMaterial { sphere, material_id } => {
            &&& sphere < l.sphere_materials@.len()
            &&& l.sphere_materials@[sphere as int] == material_id
            &&& material_id >= l.materials
            &&& forall|s: int| 0 <= s < sphere ==> #[trigger] l.sphere_materials@[s] < l.materials
        },
        SceneError::MeshMaterial { mesh, material_id } => {
            &&& valid_before_mesh(l, mesh as int)
            &&& l.meshes@[mesh as int].material_id == material_id
            &&& material_id >= l.materials
        },
        SceneError::IndexCount { mesh, count } => {
            &&& valid_before_mesh(l, mesh as int)
            &&& l.meshes@[mesh as int].material_id < l.materials
            &&& l.meshes@[mesh as int].indices@.len() == count
            &&& count % 3 != 0
        },
        SceneError::NormalCount { mesh, positions, normals } => {
            &&& valid_before_mesh(l, mesh as int)
            &&& l.meshes@[mesh as int].material_id < l.materials
            &&& l.meshes@[mesh as int].indices@.len() % 3 == 0
            &&& l.meshes@[mesh as int].positions == positions
            &&& l.meshes@[mesh as int].normals == normals
            &&& positions != normals
        },
        SceneError::VertexIndex { mesh, index } => {
            let m = l.meshes@[mesh as int];
            &&& valid_before_mesh(l, mesh as int)
            &&& m.material_id < l.materials
            &&& m.indices@.len() % 3 == 0
            &&& m.normals == m.positions
            &&& index >= m.positions
            &&& exists|j: int|
                0 <= j < m.indices@.len() && m.indices@[j] == index && forall|k: int|
                    0 <= k < j ==> #[trigger] m.indices@[k] < m.positions
        },
    }
}

fn check_mesh(m: &MeshLayout, mesh: usize, materials: usize) -> (r: Result<(), SceneError>)
    ensures
        r is Ok <==> mesh_valid(*m, materials as nat),
        r matches Err(e) ==> match e {
            SceneError::MeshMaterial { mesh: i, material_id } => i == mesh && m.material_id
                == material_id && material_id >= materials,
            SceneError::IndexCount { mesh: i, count } => i == mesh && m.material_id < materials
                && m.indices@.len() == count && count % 3 != 0,
            SceneError::NormalCount { mesh: i, positions, normals } => i == mesh && m.material_id
                < materials && m.indices@.len() % 3 == 0 && m.positions == positions && m.normals
                == normals && positions != normals,
            SceneError::VertexIndex { mesh: i, index } => i == mesh && m.material_id < materials
                && m.indices@.len() % 3 == 0 && m.normals == m.positions && index >= m.positions
                && exists|j: int|
                0 <= j < m.indices@.len() && m.indices@[j] == index && forall|k: int|
                    0 <= k < j ==> #[trigger] m.indices@[k] < m.positions,
            SceneError::SphereMaterial { .. } => false,
        },
{
    if m.material_id >= materials {
        return Err(SceneError::MeshMaterial { mesh, material_id: m.material_id });
    }
    if m.indices.len() % 3 != 0 {
        return Err(SceneError::IndexCount { mesh, count: m.indices.len() });
    }
    if m.normals != m.positions {
        return Err(SceneError::NormalCount { mesh, positions: m.positions, normals: m.normals });
    }
    let mut j: usize = 0;
    while j < m.indices.len()
        invariant
            j <= m.indices@.len(),
            m.material_id < materials,
            m.indices@.len() % 3 == 0,
            m.normals == m.positions,
            forall|k: int| 0 <= k < j ==> #[trigger] m.indices@[k] < m.positions,
        decreases m.indices@.len() - j,
    {
        let index = m.indices[j];
        if index as usize >= m.positions {
            assert(0 <= j < m.indices@.len() && m.indices@[j as int] == index && forall|k: int|
                0 <= k < j ==> #[trigger] m.indices@[k] < m.positions);
            return Err(SceneError::VertexIndex { mesh, index });
        }
        j += 1;
    }
    Ok(())
}

/// Checks a scene's structure. It is accepted exactly when it has no
/// fault, and otherwise the error is its first fault.
pub fn validate(l: &SceneLayout) -> (r: Result<(), SceneError>)
    ensures
        r is Ok <==> layout_valid(*l),
        r matches Err(e) ==> first_fault(*l, e),
{
    let mut s: usize = 0;
    while s < l.sphere_materials.len()
        invariant
            s <= l.sphere_materials@.len(),
            forall|t: int| 0 <= t < s ==> #[trigger] l.sphere_materials@[t] < l.materials,
        decreases l.sphere_materials@.len() - s,
    {
        let material_id = l.sphere_materials[s];
        if material_id >= l.materials {
            return Err(SceneError::SphereMaterial { sphere: s, material_id });
        }
        s += 1;
    }
    let mut m: usize = 0;
    while m < l.meshes.len()
        invariant
            m <= l.meshes@.len(),
            forall|t: int|
                0 <= t < l.sphere_materials@.len() ==> #[trigger] l.sphere_materials@[t]
                    < l.materials,
            forall|t: int| 0 <= t < m ==> mesh_valid(#[trigger] l.meshes@[t], l.materials as nat),
        decreases l.meshes@.len() - m,
    {
        let checked = check_mesh(&l.meshes[m], m, l.materials);
        if checked.is_err() {
            return checked;
        }
        m += 1;
    }
    Ok(())
}

} // verus!
