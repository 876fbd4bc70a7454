//! A model: flat vertex / texture-coordinate / normal arrays, an index list
//! of triangles, and at most one shared texture.
//!
//! Triangles are produced lazily, one per call, from the index arrays; the
//! model is the sole owner of the flat data. Connectivity is validated as it
//! is pushed: an out-of-range index is a malformed-input error surfaced to
//! the caller, so that every stored triangle can be resolved. The sentinel
//! `usize::MAX` marks an absent texture-coordinate or normal index.

use vstd::prelude::*;

use crate::texture::Texture;
use crate::triangle::Triangle;
use crate::vector::{Vector2, Vector3};

verus! {

/// Vertex, texture-coordinate and normal indices of one corner.
pub type TriInd = (usize, usize, usize);

#[derive(Clone, Copy, Debug, PartialEq, Eq, Structural)]
pub enum ModelError {
    /// A corner named an index outside the model's arrays.
    IndexOutOfRange,
}

pub struct Model {
    pub vertices: Vec<Vector3>,
    pub tex_coords: Vec<Vector2>,
    pub norms: Vec<Vector3>,
    pub tris: Vec<(TriInd, TriInd, TriInd)>,
    pub texture: Option<Texture>,
}

/// One corner's indices resolve against the model's arrays (the sentinel
/// stands for an absent attribute).
pub open spec fn corner_ok(m: Model, t: TriInd) -> bool {
    &&& t.0 < m.vertices.len()
    &&& (t.1 == usize::MAX || t.1 < m.tex_coords.len())
    &&& (t.2 == usize::MAX || t.2 < m.norms.len())
}

pub open spec fn tri_ok(m: Model, t: (TriInd, TriInd, TriInd)) -> bool {
    corner_ok(m, t.0) && corner_ok(m, t.1) && corner_ok(m, t.2)
}

/// The corner's attributes, with zero defaults for the sentinel.
pub open spec fn corner_norm(m: Model, t: TriInd) -> Vector3 {
    if t.2 == usize::MAX {
        Vector3 { x: 0i64, y: 0i64, z: 0i64 }
    } else {
        m.norms[t.2 as int]
    }
}

pub open spec fn corner_uv(m: Model, t: TriInd) -> Vector2 {
    if t.1 == usize::MAX {
        Vector2 { x: 0i64, y: 0i64 }
    } else {
        m.tex_coords[t.1 as int]
    }
}

/// The triangle the model's index list describes at position `i`.
pub open spec fn get_tri_spec(m: Model, i: int) -> Triangle {
    let t = m.tris[i];
    Triangle {
        v0: m.vertices[t.0.0 as int],
        v1: m.vertices[t.1.0 as int],
        v2: m.vertices[t.2.0 as int],
        n0: corner_norm(m, t.0),
        n1: corner_norm(m, t.1),
        n2: corner_norm(m, t.2),
        uv0: corner_uv(m, t.0),
        uv1: corner_uv(m, t.1),
        uv2: corner_uv(m, t.2),
    }
}

impl Model {
    /// Structural invariant: every stored triangle resolves, and the texture,
    /// if any, is well formed.
    pub open spec fn wf(self) -> bool {
        &&& forall|i: int| 0 <= i < self.tris.len() ==> tri_ok(self, #[trigger] self.tris[i])
        &&& match self.texture {
            Some(t) => t.wf(),
            None => true,
        }
    }

    pub fn new() -> (r: Model)
        ensures
            r.vertices.len() == 0,
            r.tex_coords.len() == 0,
            r.norms.len() == 0,
            r.tris.len() == 0,
            r.texture is None,
            r.wf(),
    {
        Model {
            vertices: Vec::new(),
            tex_coords: Vec::new(),
            norms: Vec::new(),
            tris: Vec::new(),
            texture: None,
        }
    }

    pub fn push_vertex(&mut self, v: Vector3)
        ensures
            final(self).vertices@ == old(self).vertices@.push(v),
            final(self).tex_coords == old(self).tex_coords,
            final(self).norms == old(self).norms,
            final(self).tris == old(self).tris,
            final(self).texture == old(self).texture,
            old(self).wf() ==> final(self).wf(),
    {
        self.vertices.push(v);
        proof {
            if old(self).wf() {
                assert forall|i: int| 0 <= i < self.tris.len() implies tri_ok(
                    *self,
                    #[trigger] self.tris[i],
                ) by {
                    assert(tri_ok(*old(self), old(self).tris[i]));
                }
            }
        }
    }

    pub fn push_tex_coord(&mut self, v: Vector2)
        ensures
            final(self).tex_coords@ == old(self).tex_coords@.push(v),
            final(self).vertices == old(self).vertices,
            final(self).norms == old(self).norms,
            final(self).tris == old(self).tris,
            final(self).texture == old(self).texture,
            old(self).wf() ==> final(self).wf(),
    {
        self.tex_coords.push(v);
        proof {
            if old(self).wf() {
                assert forall|i: int| 0 <= i < self.tris.len() implies tri_ok(
                    *self,
                    #[trigger] self.tris[i],
                ) by {
                    assert(tri_ok(*old(self), old(self).tris[i]));
                }
            }
        }
    }

    pub fn push_norm(&mut self, v: Vector3)
        ensures
            final(self).norms@ == old(self).norms@.push(v),
            final(self).vertices == old(self).vertices,
            final(self).tex_coords == old(self).tex_coords,
            final(self).tris == old(self).tris,
            final(self).texture == old(self).texture,
            old(self).wf() ==> final(self).wf(),
    {
        self.norms.push(v);
        proof {
            if old(self).wf() {
                assert forall|i: int| 0 <= i < self.tris.len() implies tri_ok(
                    *self,
                    #[trigger] self.tris[i],
                ) by {
                    assert(tri_ok(*old(self), old(self).tris[i]));
                }
            }
        }
    }

    /// Adds one triangle by its corner indices, validating connectivity:
    /// `Err` exactly when some corner does not resolve, in which case the
    /// model is unchanged.
    pub fn push_tri(&mut self, a: TriInd, b: TriInd, c: TriInd) -> (r: Result<(), ModelError>)
        ensures
            r is Ok <==> tri_ok(*old(self), (a, b, c)),
            r is Ok ==> final(self).tris@ == old(self).tris@.push((a, b, c)),
            r is Err ==> *final(self) == *old(self) && r == Err::<(), ModelError>(
                ModelError::IndexOutOfRange,
            ),
            final(self).vertices == old(self).vertices,
            final(self).tex_coords == old(self).tex_coords,
            final(self).norms == old(self).norms,
            final(self).texture == old(self).texture,
            old(self).wf() ==> final(self).wf(),
    {
        let ok_a: bool = a.0 < self.vertices.len() && (a.1 == usize::MAX || a.1
            < self.tex_coords.len()) && (a.2 == usize::MAX || a.2 < self.norms.len());
        let ok_b: bool = b.0 < self.vertices.len() && (b.1 == usize::MAX || b.1
            < self.tex_coords.len()) && (b.2 == usize::MAX || b.2 < self.norms.len());
        let ok_c: bool = c.0 < self.vertices.len() && (c.1 == usize::MAX || c.1
            < self.tex_coords.len()) && (c.2 == usize::MAX || c.2 < self.norms.len());
        if ok_a && ok_b && ok_c {
            self.tris.push((a, b, c));
            proof {
                if old(self).wf() {
                    assert forall|i: int| 0 <= i < self.tris.len() implies tri_ok(
                        *self,
                        #[trigger] self.tris[i],
                    ) by {
                        if i < old(self).tris.len() {
                            assert(tri_ok(*old(self), old(self).tris[i]));
                        }
                    }
                }
            }
            Ok(())
        } else {
            Err(ModelError::IndexOutOfRange)
        }
    }

    /// Attaches the shared texture the model's triangles are shaded with.
    pub fn set_texture(&mut self, t: Texture)
        requires
            t.wf(),
        ensures
            final(self).texture == Some(t),
            final(self).vertices == old(self).vertices,
            final(self).tex_coords == old(self).tex_coords,
            final(self).norms == old(self).norms,
            final(self).tris == old(self).tris,
            old(self).wf() ==> final(self).wf(),
    {
        self.texture = Some(t);
        proof {
            if old(self).wf() {
                assert forall|i: int| 0 <= i < self.tris.len() implies tri_ok(
                    *self,
                    #[trigger] self.tris[i],
                ) by {
                    assert(tri_ok(*old(self), old(self).tris[i]));
                }
            }
        }
    }

    /// Number of triangles.
    pub fn len_tri(&self) -> (r: usize)
        ensures
            r == self.tris.len(),
    {
        self.tris.len()
    }

    /// Assembles triangle `i` from the flat arrays, substituting zero for
    /// absent normals and texture coordinates.
    pub fn get_tri(&self, i: usize) -> (r: Triangle)
        requires
            self.wf(),
            i < self.tris.len(),
        ensures
            r == get_tri_spec(*self, i as int),
    {
        let (a, b, c): (TriInd, TriInd, TriInd) = self.tris[i];
        Triangle {
            v0: self.vertices[a.0],
            v1: self.vertices[b.0],
            v2: self.vertices[c.0],
            n0: if a.2 != usize::MAX {
                self.norms[a.2]
            } else {
                Vector3 { x: 0, y: 0, z: 0 }
            },
            n1: if b.2 != usize::MAX {
                self.norms[b.2]
            } else {
                Vector3 { x: 0, y: 0, z: 0 }
            },
            n2: if c.2 != usize::MAX {
                self.norms[c.2]
            } else {
                Vector3 { x: 0, y: 0, z: 0 }
            },
            uv0: if a.1 != usize::MAX {
                self.tex_coords[a.1]
            } else {
                Vector2 { x: 0, y: 0 }
            },
            uv1: if b.1 != usize::MAX {
                self.tex_coords[b.1]
            } else {
                Vector2 { x: 0, y: 0 }
            },
            uv2: if c.1 != usize::MAX {
                self.tex_coords[c.1]
            } else {
                Vector2 { x: 0, y: 0 }
            },
        }
    }
}

} // verus!
