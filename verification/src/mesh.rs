use vstd::prelude::*;

use vstd::arithmetic::div_mod::lemma_fundamental_div_mod;
use vstd::arithmetic::div_mod::lemma_fundamental_div_mod_converse_div;
use vstd::arithmetic::div_mod::lemma_fundamental_div_mod_converse_mod;

use crate::vec3::Vec3Bits;

verus! {

/// Number of sample points a subdivision count `n` asks for: the polar angle
/// is split into `n` equal steps and the azimuthal angle into `n` equal
/// steps, and every corner of the resulting `n × n` grid of quads is sampled,
/// so the grid holds `(n + 1) * (n + 1)` points.
pub open spec fn grid_point_count(n: nat) -> nat {
    (n + 1) * (n + 1)
}

/// Number of flat face normals: each of the `n * n` quads is split into two
/// triangles, and each triangle carries one normal.
pub open spec fn face_normal_count(n: nat) -> nat {
    2 * n * n
}

/// Number of vertex slots in the assembled mesh: two triangles of three
/// vertices per quad, `6 * n * n` in all.
pub open spec fn vertex_count(n: nat) -> nat {
    6 * n * n
}

/// The sample at polar row `i` and azimuthal column `j` of a grid stored row
/// by row, each row holding `n + 1` points.
pub open spec fn grid_at(grid: Seq<Vec3Bits>, n: int, i: int, j: int) -> Vec3Bits {
    grid[i * (n + 1) + j]
}

/// The vertex that belongs in slot `k` of the assembled vertex buffer.
///
/// Slot `k` lies in cell `k / 6`; cells are laid out with the polar row as
/// the outer index and the azimuthal column as the inner one, both ascending.
/// Within a cell the first triangle is (row `i`, col `j`), (row `i + 1`,
/// col `j`), (row `i`, col `j + 1`); the second triangle is (row `i + 1`,
/// col `j`), (row `i + 1`, col `j + 1`), (row `i`, col `j + 1`). The two
/// triangles share the diagonal from (i + 1, j) to (i, j + 1) and together
/// cover the quad exactly once.
pub open spec fn mesh_vertex_at(grid: Seq<Vec3Bits>, n: int, k: int) -> Vec3Bits {
    let cell = k / 6;
    let slot = k % 6;
    let i = cell / n;
    let j = cell % n;
    if slot == 0 {
        grid_at(grid, n, i, j)
    } else if slot == 1 {
        grid_at(grid, n, i + 1, j)
    } else if slot == 2 {
        grid_at(grid, n, i, j + 1)
    } else if slot == 3 {
        grid_at(grid, n, i + 1, j)
    } else if slot == 4 {
        grid_at(grid, n, i + 1, j + 1)
    } else {
        grid_at(grid, n, i, j + 1)
    }
}

/// The normal that belongs in slot `k` of the assembled normal buffer:
/// shading is flat, so the first three slots of cell `k / 6` all carry the
/// cell's first face normal and the last three all carry its second.
pub open spec fn mesh_normal_at(face_normals: Seq<Vec3Bits>, k: int) -> Vec3Bits {
    let cell = k / 6;
    if k % 6 < 3 {
        face_normals[2 * cell]
    } else {
        face_normals[2 * cell + 1]
    }
}

/// A flat triangle-list mesh: an ordered vertex buffer paired slot for slot
/// with an equally long normal buffer. No index buffer — adjacent triangles
/// each own their copy of a shared corner, which is what keeps flat shading
/// possible.
pub struct Mesh {
    pub vertices: Vec<Vec3Bits>,
    pub normals: Vec<Vec3Bits>,
}

impl Mesh {
    /// The one invariant of a mesh: each vertex slot has its normal.
    pub open spec fn wf(self) -> bool {
        self.vertices@.len() == self.normals@.len()
    }
}

/// Recovers cell and slot indices from a flat buffer position.
proof fn lemma_slot_decode(n: int, i: int, j: int, s: int)
    requires
        1 <= n,
        0 <= i < n,
        0 <= j < n,
        0 <= s < 6,
    ensures
        (6 * (i * n + j) + s) / 6 == i * n + j,
        (6 * (i * n + j) + s) % 6 == s,
        (i * n + j) / n == i,
        (i * n + j) % n == j,
{
    let c = i * n + j;
    assert(0 <= c && 6 * c + s == c * 6 + s) by (nonlinear_arith)
        requires
            1 <= n,
            0 <= i,
            0 <= j,
            c == i * n + j,
    ;
    lemma_fundamental_div_mod_converse_div(6 * c + s, 6, c, s);
    lemma_fundamental_div_mod_converse_mod(6 * c + s, 6, c, s);
    lemma_fundamental_div_mod_converse_div(c, n, i, j);
    lemma_fundamental_div_mod_converse_mod(c, n, i, j);
}

/// Assembles the triangulated sphere mesh for subdivision count `n` from the
/// `(n + 1) × (n + 1)` grid of surface samples and the `2 * n * n` flat face
/// normals that belong to the grid's cells.
///
/// Cells are walked with the polar row outermost and the azimuthal column
/// innermost, both ascending; each cell contributes its two triangles in
/// order, so slot `k` of either buffer is pinned exactly by `mesh_vertex_at`
/// and `mesh_normal_at`. A subdivision count of zero is the documented
/// degenerate case and yields the empty mesh.
pub fn assemble_sphere_mesh(grid: &Vec<Vec3Bits>, face_normals: &Vec<Vec3Bits>, n: usize) -> (m:
    Mesh)
    requires
        grid@.len() == grid_point_count(n as nat),
        face_normals@.len() == face_normal_count(n as nat),
        vertex_count(n as nat) <= usize::MAX,
    ensures
        m.wf(),
        m.vertices@.len() == vertex_count(n as nat),
        m.normals@.len() == vertex_count(n as nat),
        forall|k: int|
            0 <= k < vertex_count(n as nat) ==> #[trigger] m.vertices@[k] == mesh_vertex_at(
                grid@,
                n as int,
                k,
            ),
        forall|k: int|
            0 <= k < vertex_count(n as nat) ==> #[trigger] m.normals@[k] == mesh_normal_at(
                face_normals@,
                k,
            ),
{
    proof {
        vstd::std_specs::vec::axiom_spec_len(grid);
        assert(grid_point_count(n as nat) == (n as int + 1) * (n as int + 1));
        assert(2 * (n as int) * (n as int) == 2 * ((n as int) * (n as int)) && 6 * (n as int) * (n
            as int) == 6 * ((n as int) * (n as int))) by (nonlinear_arith);
    }
    let slot_count = vertex_count_exec(n);
    let mut vertices: Vec<Vec3Bits> = Vec::with_capacity(slot_count);
    let mut normals: Vec<Vec3Bits> = Vec::with_capacity(slot_count);
    let mut i: usize = 0;
    while i < n
        invariant
            i <= n,
            grid@.len() == (n as int + 1) * (n as int + 1),
            grid@.len() <= usize::MAX,
            face_normals@.len() == 2 * ((n as int) * (n as int)),
            6 * ((n as int) * (n as int)) <= usize::MAX,
            vertices@.len() == 6 * ((i as int) * (n as int)),
            normals@.len() == vertices@.len(),
            forall|k: int|
                0 <= k < vertices@.len() ==> vertices@[k] == mesh_vertex_at(grid@, n as int, k),
            forall|k: int|
                0 <= k < normals@.len() ==> normals@[k] == mesh_normal_at(face_normals@, k),
        decreases n - i,
    {
        let mut j: usize = 0;
        while j < n
            invariant
                i < n,
                j <= n,
                grid@.len() == (n as int + 1) * (n as int + 1),
                grid@.len() <= usize::MAX,
                face_normals@.len() == 2 * ((n as int) * (n as int)),
                6 * ((n as int) * (n as int)) <= usize::MAX,
                vertices@.len() == 6 * ((i as int) * (n as int) + j as int),
                normals@.len() == vertices@.len(),
                forall|k: int|
                    0 <= k < vertices@.len() ==> vertices@[k] == mesh_vertex_at(grid@, n as int, k),
                forall|k: int|
                    0 <= k < normals@.len() ==> normals@[k] == mesh_normal_at(face_normals@, k),
            decreases n - j,
        {
            proof {
                assert((n as int + 1) <= (n as int + 1) * (n as int + 1) && (i as int) * (n
                    as int) + j < (n as int) * (n as int) && (i as int + 1) * (n
                    as int + 1) + j + 1 < (n as int + 1) * (n as int + 1) && (i as int) * (n as int
                    + 1) <= (i as int + 1) * (n as int + 1) && 2 * ((i as int) * (n as int) + j) + 1
                    < 2 * ((n as int) * (n as int)) && 6 * ((i as int) * (n as int) + j) + 6 <= 6 * (
                (n as int) * (n as int))) by (nonlinear_arith)
                    requires
                        0 <= i < n,
                        0 <= j < n,
                ;
            }
            let row = i * (n + 1);
            let next_row = (i + 1) * (n + 1);
            let cell = i * n + j;
            let v00 = grid[row + j];
            let v10 = grid[next_row + j];
            let v01 = grid[row + j + 1];
            let v11 = grid[next_row + j + 1];
            let n0 = face_normals[2 * cell];
            let n1 = face_normals[2 * cell + 1];
            vertices.push(v00);
            vertices.push(v10);
            vertices.push(v01);
            normals.push(n0);
            normals.push(n0);
            normals.push(n0);
            vertices.push(v10);
            vertices.push(v11);
            vertices.push(v01);
            normals.push(n1);
            normals.push(n1);
            normals.push(n1);
            proof {
                let gi = i as int;
                let gj = j as int;
                let gn = n as int;
                let c = gi * gn + gj;
                assert forall|k: int| 0 <= k < vertices@.len() implies vertices@[k]
                    == mesh_vertex_at(grid@, gn, k) by {
                    if 6 * c <= k {
                        lemma_slot_decode(gn, gi, gj, k - 6 * c);
                    }
                }
                assert forall|k: int| 0 <= k < normals@.len() implies normals@[k] == mesh_normal_at(
                    face_normals@,
                    k,
                ) by {
                    if 6 * c <= k {
                        lemma_slot_decode(gn, gi, gj, k - 6 * c);
                    }
                }
            }
            j = j + 1;
        }
        proof {
            assert(6 * ((i as int) * (n as int) + n as int) == 6 * ((i as int + 1) * (n as int)))
                by (nonlinear_arith);
        }
        i = i + 1;
    }
    proof {
        assert(6 * (n as int) * (n as int) == 6 * ((n as int) * (n as int))) by (nonlinear_arith);
    }
    Mesh { vertices, normals }
}

/// The vertex (and normal) slot count `6 * n * n`, computed at run time for
/// pre-sizing buffers.
pub fn vertex_count_exec(n: usize) -> (c: usize)
    requires
        vertex_count(n as nat) <= usize::MAX,
    ensures
        c == vertex_count(n as nat),
{
    proof {
        assert(6 * (n as int) * (n as int) == 6 * ((n as int) * (n as int)) && (n as int) * (n
            as int) <= 6 * ((n as int) * (n as int))) by (nonlinear_arith)
            requires
                0 <= n as int,
        ;
    }
    6 * (n * n)
}

/// The sample grid length `(n + 1) * (n + 1)`, computed at run time so a
/// caller can size the grid `assemble_sphere_mesh` expects.
pub fn grid_point_count_exec(n: usize) -> (c: usize)
    requires
        grid_point_count(n as nat) <= usize::MAX,
    ensures
        c == grid_point_count(n as nat),
{
    proof {
        assert((n as int + 1) <= (n as int + 1) * (n as int + 1)) by (nonlinear_arith)
            requires
                0 <= n as int,
        ;
    }
    (n + 1) * (n + 1)
}

/// The face normal count `2 * n * n`, computed at run time so a caller can
/// size the normal buffer `assemble_sphere_mesh` expects.
pub fn face_normal_count_exec(n: usize) -> (c: usize)
    requires
        face_normal_count(n as nat) <= usize::MAX,
    ensures
        c == face_normal_count(n as nat),
{
    proof {
        assert(2 * (n as int) * (n as int) == 2 * ((n as int) * (n as int)) && (n as int) * (n
            as int) <= 2 * ((n as int) * (n as int))) by (nonlinear_arith)
            requires
                0 <= n as int,
        ;
    }
    2 * (n * n)
}

/// Determinism law: the assembled buffers are a function of the samples
/// alone. Any two vertex/normal buffer pairs that satisfy
/// `assemble_sphere_mesh`'s contract for the same grid, face normals and
/// subdivision count are equal element for element, hence bit-identical.
pub proof fn lemma_assembly_deterministic(
    grid: Seq<Vec3Bits>,
    face_normals: Seq<Vec3Bits>,
    n: nat,
    va: Seq<Vec3Bits>,
    na: Seq<Vec3Bits>,
    vb: Seq<Vec3Bits>,
    nb: Seq<Vec3Bits>,
)
    requires
        va.len() == vertex_count(n),
        na.len() == vertex_count(n),
        vb.len() == vertex_count(n),
        nb.len() == vertex_count(n),
        forall|k: int| 0 <= k < vertex_count(n) ==> va[k] == mesh_vertex_at(grid, n as int, k),
        forall|k: int| 0 <= k < vertex_count(n) ==> vb[k] == mesh_vertex_at(grid, n as int, k),
        forall|k: int| 0 <= k < vertex_count(n) ==> na[k] == mesh_normal_at(face_normals, k),
        forall|k: int| 0 <= k < vertex_count(n) ==> nb[k] == mesh_normal_at(face_normals, k),
    ensures
        va == vb,
        na == nb,
{
    assert(va =~= vb);
    assert(na =~= nb);
}

/// Coverage law: within any cell the two emitted triangles share the
/// diagonal from corner (i + 1, j) to corner (i, j + 1), and their six
/// vertex slots name exactly the cell's four corners — the first triangle
/// (i, j), (i + 1, j), (i, j + 1) and the second (i + 1, j), (i + 1, j + 1),
/// (i, j + 1) — so together they cover the quad exactly once.
pub proof fn lemma_cell_triangles_share_diagonal(grid: Seq<Vec3Bits>, n: int, cell: int)
    requires
        1 <= n,
        0 <= cell < n * n,
    ensures
        mesh_vertex_at(grid, n, 6 * cell) == grid_at(grid, n, cell / n, cell % n),
        mesh_vertex_at(grid, n, 6 * cell + 1) == grid_at(grid, n, cell / n + 1, cell % n),
        mesh_vertex_at(grid, n, 6 * cell + 2) == grid_at(grid, n, cell / n, cell % n + 1),
        mesh_vertex_at(grid, n, 6 * cell + 3) == grid_at(grid, n, cell / n + 1, cell % n),
        mesh_vertex_at(grid, n, 6 * cell + 4) == grid_at(grid, n, cell / n + 1, cell % n + 1),
        mesh_vertex_at(grid, n, 6 * cell + 5) == grid_at(grid, n, cell / n, cell % n + 1),
        mesh_vertex_at(grid, n, 6 * cell + 1) == mesh_vertex_at(grid, n, 6 * cell + 3),
        mesh_vertex_at(grid, n, 6 * cell + 2) == mesh_vertex_at(grid, n, 6 * cell + 5),
{
    let i = cell / n;
    let j = cell % n;
    assert(0 <= i < n && 0 <= j < n && cell == i * n + j) by {
        lemma_fundamental_div_mod(cell, n);
        assert(n * (cell / n) == (cell / n) * n) by (nonlinear_arith);
        assert(0 <= cell % n < n);
        assert(cell / n < n) by (nonlinear_arith)
            requires
                1 <= n,
                0 <= cell < n * n,
                cell == (cell / n) * n + cell % n,
                0 <= cell % n < n,
        ;
        assert(0 <= cell / n) by (nonlinear_arith)
            requires
                1 <= n,
                0 <= cell,
                cell == (cell / n) * n + cell % n,
                cell % n < n,
        ;
    }
    lemma_slot_decode(n, i, j, 0);
    lemma_slot_decode(n, i, j, 1);
    lemma_slot_decode(n, i, j, 2);
    lemma_slot_decode(n, i, j, 3);
    lemma_slot_decode(n, i, j, 4);
    lemma_slot_decode(n, i, j, 5);
}

/// Scale law: doubling the subdivision count quadruples the vertex and
/// normal slot counts, so successive levels of detail grow geometrically.
pub proof fn lemma_vertex_count_doubling(n: nat)
    ensures
        vertex_count(2 * n) == 4 * vertex_count(n),
{
    assert(6 * (2 * n) * (2 * n) == 4 * (6 * n * n)) by (nonlinear_arith);
}

} // verus!
