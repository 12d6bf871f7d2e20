//! In-memory model of the container's document graph: materials, textures,
//! images, buffer views and buffers, together with the well-formedness that
//! the rewrite relies on.

use vstd::prelude::*;

verus! {

/// A byte range within the container's single binary blob.
#[derive(Clone, Copy, PartialEq, Eq, Structural, Debug)]
pub struct BufferView {
    pub byte_offset: usize,
    pub byte_length: usize,
}

impl BufferView {
    /// The view's range lies within a blob of `blob_len` bytes.
    pub open spec fn in_bounds(&self, blob_len: int) -> bool {
        self.byte_offset + self.byte_length <= blob_len
    }
}

/// Where an image's bytes live: embedded in the blob behind a buffer view,
/// or behind an external reference. An image record has exactly one of
/// these, never both and never neither.
pub enum ImageSource {
    Embedded { view: usize, mime: String },
    External { uri: String },
}

/// One image record of the document.
pub struct Image {
    pub source: ImageSource,
}

impl Image {
    /// An embedded image points at an existing buffer view.
    pub open spec fn wf(&self, n_views: int) -> bool {
        match self.source {
            ImageSource::Embedded { view, .. } => view < n_views,
            ImageSource::External { .. } => true,
        }
    }
}

/// A texture record: which image it samples.
#[derive(Clone, Copy, PartialEq, Eq, Structural, Debug)]
pub struct Texture {
    pub source: usize,
}

/// A slot is either empty or a valid texture index.
pub open spec fn slot_ok(slot: Option<usize>, n_textures: int) -> bool {
    match slot {
        Some(t) => t < n_textures,
        None => true,
    }
}

/// One material record: the five fixed material-channel slots, each holding
/// a texture index when populated.
#[derive(Clone, Copy, Debug)]
pub struct Material {
    pub base_color: Option<usize>,
    pub metallic_roughness: Option<usize>,
    pub normal: Option<usize>,
    pub emissive: Option<usize>,
    pub occlusion: Option<usize>,
}

impl Material {
    /// Every populated slot names an existing texture.
    pub open spec fn wf(&self, n_textures: int) -> bool {
        slot_ok(self.base_color, n_textures) && slot_ok(self.metallic_roughness, n_textures)
            && slot_ok(self.normal, n_textures) && slot_ok(self.emissive, n_textures) && slot_ok(
            self.occlusion,
            n_textures,
        )
    }
}

/// A buffer record: its byte length. The single-blob design keeps exactly
/// one buffer after a rewrite.
#[derive(Clone, Copy, PartialEq, Eq, Structural, Debug)]
pub struct Buffer {
    pub byte_length: usize,
}

/// The parsed document graph, consumed together with the binary blob.
pub struct Document {
    pub materials: Vec<Material>,
    pub textures: Vec<Texture>,
    pub images: Vec<Image>,
    pub buffer_views: Vec<BufferView>,
    pub buffers: Vec<Buffer>,
}

impl Document {
    /// Well-formedness against a blob of `blob_len` bytes: all cross
    /// references resolve, and every view's range lies within the blob.
    pub open spec fn wf(&self, blob_len: int) -> bool {
        &&& forall|t: int|
            0 <= t < self.textures@.len() ==> (#[trigger] self.textures@[t]).source
                < self.images@.len()
        &&& forall|i: int|
            0 <= i < self.images@.len() ==> (#[trigger] self.images@[i]).wf(
                self.buffer_views@.len() as int,
            )
        &&& forall|m: int|
            0 <= m < self.materials@.len() ==> (#[trigger] self.materials@[m]).wf(
                self.textures@.len() as int,
            )
        &&& forall|v: int|
            0 <= v < self.buffer_views@.len() ==> (#[trigger] self.buffer_views@[v]).in_bounds(
                blob_len,
            )
    }
}

/// Decides whether a populated slot names an existing texture.
fn check_slot(slot: &Option<usize>, n_textures: usize) -> (r: bool)
    ensures
        r == slot_ok(*slot, n_textures as int),
{
    match slot {
        Some(t) => *t < n_textures,
        None => true,
    }
}

/// Decides well-formedness of a document against a blob, exactly as the
/// rewrite requires it.
pub fn validate_document(doc: &Document, blob: &Vec<u8>) -> (r: bool)
    ensures
        r == doc.wf(blob@.len() as int),
{
    let n_textures = doc.textures.len();
    let n_images = doc.images.len();
    let n_views = doc.buffer_views.len();
    let blob_len = blob.len();
    let mut t: usize = 0;
    while t < n_textures
        invariant
            t <= n_textures == doc.textures@.len(),
            n_images == doc.images@.len(),
            forall|k: int| 0 <= k < t ==> (#[trigger] doc.textures@[k]).source < n_images,
        decreases n_textures - t,
    {
        if doc.textures[t].source >= n_images {
            return false;
        }
        t = t + 1;
    }
    let mut i: usize = 0;
    while i < n_images
        invariant
            i <= n_images == doc.images@.len(),
            n_views == doc.buffer_views@.len(),
            forall|k: int| 0 <= k < i ==> (#[trigger] doc.images@[k]).wf(n_views as int),
        decreases n_images - i,
    {
        match &doc.images[i].source {
            ImageSource::Embedded { view, .. } => {
                if *view >= n_views {
                    return false;
                }
            },
            ImageSource::External { .. } => {},
        }
        i = i + 1;
    }
    let mut m: usize = 0;
    while m < doc.materials.len()
        invariant
            m <= doc.materials@.len(),
            n_textures == doc.textures@.len(),
            forall|k: int| 0 <= k < m ==> (#[trigger] doc.materials@[k]).wf(n_textures as int),
        decreases doc.materials@.len() - m,
    {
        let mat = &doc.materials[m];
        if !(check_slot(&mat.base_color, n_textures) && check_slot(
            &mat.metallic_roughness,
            n_textures,
        ) && check_slot(&mat.normal, n_textures) && check_slot(&mat.emissive, n_textures)
            && check_slot(&mat.occlusion, n_textures)) {
            return false;
        }
        m = m + 1;
    }
    let mut v: usize = 0;
    while v < n_views
        invariant
            v <= n_views == doc.buffer_views@.len(),
            blob_len == blob@.len(),
            forall|k: int| 0 <= k < v ==> (#[trigger] doc.buffer_views@[k]).in_bounds(
                blob_len as int,
            ),
        decreases n_views - v,
    {
        let view = doc.buffer_views[v];
        if view.byte_offset > blob_len || view.byte_length > blob_len - view.byte_offset {
            return false;
        }
        v = v + 1;
    }
    true
}

} // verus!
