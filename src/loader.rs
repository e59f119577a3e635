use vstd::prelude::*;

use crate::face::{parse_face, token_vertices, tokens_parse, well_shaped, face_vertices, Face};
use crate::mesh::{Mesh, Model};
use crate::multi::{export_faces_multi_index, multi_outcome, multi_view};
use crate::options::{LoadError, LoadOptions};
use crate::single::{export_faces, single_mesh, single_outcome};

verus! {

/// The name of an object that the input does not name.
pub open spec fn default_name() -> Seq<char> {
    "unnamed_object"@
}

/// What exporting the faces fails with under the options, if anything.
pub open spec fn export_outcome(
    faces: Seq<Face>,
    pos: Seq<u32>,
    col: Seq<u32>,
    tex: Seq<u32>,
    nor: Seq<u32>,
    o: LoadOptions,
) -> Option<LoadError> {
    if o.single_index {
        single_outcome(faces, pos, col, tex, nor, o)
    } else {
        multi_outcome(faces, pos, col, tex, nor, o)
    }
}

/// `m` is the mesh that exporting the faces under the options builds.
pub open spec fn exports_to(
    m: Mesh,
    faces: Seq<Face>,
    pos: Seq<u32>,
    col: Seq<u32>,
    tex: Seq<u32>,
    nor: Seq<u32>,
    mat_id: Option<usize>,
    o: LoadOptions,
) -> bool {
    if o.single_index {
        single_mesh(m, faces, pos, col, tex, nor, mat_id, o)
    } else {
        m@ == multi_view(faces, pos, col, tex, nor, mat_id, o)
    }
}

/// The state of loading one OBJ input, fed one line at a time.
///
/// Attribute buffers grow over the whole input; the faces of the current
/// object are exported to a model when a new object starts, when the
/// material changes under faces, and at the end.
pub struct ObjLoader {
    /// The options, checked when loading starts.
    pub options: LoadOptions,
    /// Every position read so far, three components each.
    pub positions: Vec<u32>,
    /// Every vertex color read so far.
    pub colors: Vec<u32>,
    /// Every texture coordinate read so far, two components each.
    pub texcoords: Vec<u32>,
    /// Every normal read so far, three components each.
    pub normals: Vec<u32>,
    /// The faces of the current object.
    pub faces: Vec<Face>,
    /// The name of the current object.
    pub name: String,
    /// The material of the current object.
    pub material_id: Option<usize>,
    /// The models exported so far.
    pub models: Vec<Model>,
}

impl ObjLoader {
    /// The faces of the current object would export with this outcome.
    pub open spec fn pending_outcome(&self) -> Option<LoadError> {
        export_outcome(self.faces@, self.positions@, self.colors@, self.texcoords@, self.normals@, self.options)
    }

    /// `m` is the mesh that the faces of the current object export to.
    pub open spec fn pending_mesh(&self, m: Mesh) -> bool {
        exports_to(m, self.faces@, self.positions@, self.colors@, self.texcoords@, self.normals@, self.material_id, self.options)
    }

    /// Starts loading; fails if the options are mutually exclusive.
    pub fn new(options: &LoadOptions) -> (r: Result<ObjLoader, LoadError>)
        ensures
            r is Err <==> !options.spec_is_valid(),
            r matches Err(e) ==> e == LoadError::InvalidLoadOptionConfig,
            r matches Ok(l) ==> {
                &&& l.options == *options
                &&& l.positions@.len() == 0
                &&& l.colors@.len() == 0
                &&& l.texcoords@.len() == 0
                &&& l.normals@.len() == 0
                &&& l.faces@.len() == 0
                &&& l.name@ == default_name()
                &&& l.material_id is None
                &&& l.models@.len() == 0
            },
    {
        if !options.is_valid() {
            return Err(LoadError::InvalidLoadOptionConfig);
        }
        Ok(
            ObjLoader {
                options: *options,
                positions: Vec::new(),
                colors: Vec::new(),
                texcoords: Vec::new(),
                normals: Vec::new(),
                faces: Vec::new(),
                name: "unnamed_object".to_owned(),
                material_id: None,
                models: Vec::new(),
            },
        )
    }

    /// Adds the values of a `v` line: `xyz` holds the components that
    /// parsed before the first one that did not, out of the first three;
    /// `color` likewise for the up to three that follow. Fails unless all
    /// three components of the position parsed.
    pub fn add_position(&mut self, xyz: &[u32], color: &[u32]) -> (r: Result<(), LoadError>)
        ensures
            r is Err <==> xyz@.len() != 3,
            r matches Err(e) ==> e == LoadError::PositionParseError,
            r is Ok ==> final(self).positions@ == old(self).positions@ + xyz@,
            r is Ok ==> final(self).colors@ == old(self).colors@ + color@.take(
                if color@.len() > 3 { 3 } else { color@.len() as int },
            ),
            r is Err ==> final(self).positions == old(self).positions && final(self).colors == old(self).colors,
            final(self).texcoords == old(self).texcoords,
            final(self).normals == old(self).normals,
            final(self).faces == old(self).faces,
            final(self).models == old(self).models,
            final(self).name == old(self).name,
            final(self).material_id == old(self).material_id,
            final(self).options == old(self).options,
    {
        if xyz.len() != 3 {
            return Err(LoadError::PositionParseError);
        }
        append(&mut self.positions, xyz, 3);
        append(&mut self.colors, color, 3);
        Ok(())
    }

    /// Adds the values of a `vt` line; fails unless both components parsed.
    pub fn add_texcoord(&mut self, uv: &[u32]) -> (r: Result<(), LoadError>)
        ensures
            r is Err <==> uv@.len() != 2,
            r matches Err(e) ==> e == LoadError::TexcoordParseError,
            r is Ok ==> final(self).texcoords@ == old(self).texcoords@ + uv@,
            r is Err ==> final(self).texcoords == old(self).texcoords,
            final(self).positions == old(self).positions,
            final(self).colors == old(self).colors,
            final(self).normals == old(self).normals,
            final(self).faces == old(self).faces,
            final(self).models == old(self).models,
            final(self).name == old(self).name,
            final(self).material_id == old(self).material_id,
            final(self).options == old(self).options,
    {
        if uv.len() != 2 {
            return Err(LoadError::TexcoordParseError);
        }
        append(&mut self.texcoords, uv, 2);
        Ok(())
    }

    /// Adds the values of a `vn` line; fails unless all three components
    /// parsed.
    pub fn add_normal(&mut self, n: &[u32]) -> (r: Result<(), LoadError>)
        ensures
            r is Err <==> n@.len() != 3,
            r matches Err(e) ==> e == LoadError::NormalParseError,
            r is Ok ==> final(self).normals@ == old(self).normals@ + n@,
            r is Err ==> final(self).normals == old(self).normals,
            final(self).positions == old(self).positions,
            final(self).colors == old(self).colors,
            final(self).texcoords == old(self).texcoords,
            final(self).faces == old(self).faces,
            final(self).models == old(self).models,
            final(self).name == old(self).name,
            final(self).material_id == old(self).material_id,
            final(self).options == old(self).options,
    {
        if n.len() != 3 {
            return Err(LoadError::NormalParseError);
        }
        append(&mut self.normals, n, 3);
        Ok(())
    }

    /// Adds the face of an `f` or `l` line from its vertex tokens; negative
    /// indices count back from the attributes read so far.
    pub fn add_face(&mut self, tokens: &[&str]) -> (r: Result<(), LoadError>)
        ensures
            ({
                let ps = old(self).positions@.len() as int / 3;
                let ts = old(self).texcoords@.len() as int / 2;
                let ns = old(self).normals@.len() as int / 3;
                &&& r is Ok <==> tokens@.len() > 0 && tokens_parse(tokens@, ps, ts, ns)
                &&& r matches Err(e) ==> e == LoadError::FaceParseError
                &&& r is Ok ==> final(self).faces@.len() == old(self).faces@.len() + 1
                    && final(self).faces@.drop_last() == old(self).faces@
                    && face_vertices(final(self).faces@.last()) == token_vertices(tokens@, ps, ts, ns)
                    && well_shaped(final(self).faces@.last())
                &&& r is Err ==> final(self).faces@ == old(self).faces@
            }),
            final(self).positions == old(self).positions,
            final(self).colors == old(self).colors,
            final(self).texcoords == old(self).texcoords,
            final(self).normals == old(self).normals,
            final(self).models == old(self).models,
            final(self).name == old(self).name,
            final(self).material_id == old(self).material_id,
            final(self).options == old(self).options,
    {
        let ps = self.positions.len() / 3;
        let ts = self.texcoords.len() / 2;
        let ns = self.normals.len() / 3;
        if parse_face(tokens, &mut self.faces, ps, ts, ns) {
            Ok(())
        } else {
            Err(LoadError::FaceParseError)
        }
    }

    /// Exports the faces of the current object.
    fn export(&self) -> (r: Result<Mesh, LoadError>)
        ensures
            r is Ok <==> self.pending_outcome() is None,
            r matches Err(e) ==> self.pending_outcome() == Some(e),
            r matches Ok(m) ==> self.pending_mesh(m),
    {
        if self.options.single_index {
            export_faces(
                self.positions.as_slice(),
                self.colors.as_slice(),
                self.texcoords.as_slice(),
                self.normals.as_slice(),
                self.faces.as_slice(),
                self.material_id,
                &self.options,
            )
        } else {
            export_faces_multi_index(
                self.positions.as_slice(),
                self.colors.as_slice(),
                self.texcoords.as_slice(),
                self.normals.as_slice(),
                self.faces.as_slice(),
                self.material_id,
                &self.options,
            )
        }
    }

    /// Starts a new object at an `o` or `g` line, first exporting the
    /// faces of the current one if it has any. An empty name stands for
    /// `unnamed_object`.
    pub fn begin_object(&mut self, name: String) -> (r: Result<(), LoadError>)
        ensures
            old(self).faces@.len() > 0 ==> (r is Err <==> old(self).pending_outcome() is Some),
            old(self).faces@.len() == 0 ==> r is Ok,
            r matches Err(e) ==> old(self).pending_outcome() == Some(e),
            r is Ok && old(self).faces@.len() > 0 ==> {
                &&& final(self).models@.len() == old(self).models@.len() + 1
                &&& final(self).models@.drop_last() == old(self).models@
                &&& old(self).pending_mesh(final(self).models@.last().mesh)
                &&& final(self).models@.last().name == old(self).name
            },
            r is Ok && old(self).faces@.len() == 0 ==> final(self).models == old(self).models,
            r is Ok ==> final(self).faces@.len() == 0,
            r is Ok ==> final(self).name@ == (if name@.len() == 0 { default_name() } else { name@ }),
            final(self).positions == old(self).positions,
            final(self).colors == old(self).colors,
            final(self).texcoords == old(self).texcoords,
            final(self).normals == old(self).normals,
            final(self).material_id == old(self).material_id,
            final(self).options == old(self).options,
    {
        if self.faces.len() > 0 {
            let mesh = self.export()?;
            self.models.push(Model::new(mesh, self.name.clone()));
            self.faces = Vec::new();
        }
        if name.as_str().is_empty() {
            self.name = "unnamed_object".to_owned();
        } else {
            self.name = name;
        }
        Ok(())
    }

    /// Switches the material at a `usemtl` line: `name` is the material's
    /// name and `material` its index, if it is known. A change of material
    /// under faces exports them as a model of the current name first. Fails
    /// if the name is empty.
    pub fn use_material(&mut self, name: &str, material: Option<usize>) -> (r: Result<(), LoadError>)
        ensures
            ({
                let split = old(self).faces@.len() > 0 && material != old(self).material_id;
                &&& name@.len() == 0 ==> r == Err::<(), LoadError>(LoadError::MaterialParseError)
                &&& name@.len() > 0 && !split ==> r is Ok && final(self).models == old(self).models
                    && final(self).faces == old(self).faces
                &&& name@.len() > 0 && split ==> (r is Err <==> old(self).pending_outcome() is Some)
                &&& name@.len() > 0 && split && r is Err ==> old(self).pending_outcome() == Some(r->Err_0)
                &&& name@.len() > 0 && split && r is Ok ==> {
                    &&& final(self).models@.len() == old(self).models@.len() + 1
                    &&& final(self).models@.drop_last() == old(self).models@
                    &&& old(self).pending_mesh(final(self).models@.last().mesh)
                    &&& final(self).models@.last().name == old(self).name
                    &&& final(self).faces@.len() == 0
                }
                &&& r is Ok ==> final(self).material_id == material
            }),
            final(self).positions == old(self).positions,
            final(self).colors == old(self).colors,
            final(self).texcoords == old(self).texcoords,
            final(self).normals == old(self).normals,
            final(self).name == old(self).name,
            final(self).options == old(self).options,
    {
        if name.is_empty() {
            return Err(LoadError::MaterialParseError);
        }
        if material != self.material_id && self.faces.len() > 0 {
            let mesh = self.export()?;
            self.models.push(Model::new(mesh, self.name.clone()));
            self.faces = Vec::new();
        }
        self.material_id = material;
        Ok(())
    }

    /// Ends the input: exports the faces of the current object (a model is
    /// made even if it has none) and returns every model in order.
    pub fn finish(self) -> (r: Result<Vec<Model>, LoadError>)
        ensures
            r is Err <==> self.pending_outcome() is Some,
            r matches Err(e) ==> self.pending_outcome() == Some(e),
            r matches Ok(ms) ==> {
                &&& ms@.len() == self.models@.len() + 1
                &&& ms@.drop_last() == self.models@
                &&& self.pending_mesh(ms@.last().mesh)
                &&& ms@.last().name == self.name
            },
    {
        let mesh = self.export()?;
        let mut models = self.models;
        models.push(Model::new(mesh, self.name));
        assert(models@.drop_last() =~= self.models@);
        Ok(models)
    }
}

/// The index that material `index` of a library takes when the library's
/// materials are appended after `offset` earlier ones; `None` where the sum
/// does not fit in `usize`.
pub fn offset_material_index(index: usize, offset: usize) -> (r: Option<usize>)
    ensures
        r == (if index + offset <= usize::MAX {
            Some((index + offset) as usize)
        } else {
            None::<usize>
        }),
{
    if index <= usize::MAX - offset {
        Some(index + offset)
    } else {
        None
    }
}

/// Appends the first `max` elements of `src` (all of them if it is shorter).
fn append(out: &mut Vec<u32>, src: &[u32], max: usize)
    ensures
        final(out)@ == old(out)@ + src@.take(if src@.len() > max { max as int } else { src@.len() as int }),
{
    let n = if src.len() > max { max } else { src.len() };
    let mut i: usize = 0;
    while i < n
        invariant
            n <= src@.len(),
            i <= n,
            out@ == old(out)@ + src@.take(i as int),
        decreases n - i,
    {
        out.push(src[i]);
        assert(src@.take(i + 1) =~= src@.take(i as int).push(src@[i as int]));
        i = i + 1;
    }
}

} // verus!
