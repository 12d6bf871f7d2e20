//! Container rewriter: reassembling the buffer views, the binary blob and
//! the buffer and image records around the compressed images, recomputing
//! every offset, so that the output is a self-consistent container again.

use crate::document::{Buffer, BufferView, Document, Image, ImageSource};
use vstd::prelude::*;

verus! {

/// Which image an original buffer view backs among the first `n` image
/// records: the last image whose embedded source names the view.
pub open spec fn backing_image_upto(images: Seq<Image>, n: int, v: int) -> Option<usize>
    decreases n,
{
    if n <= 0 {
        None
    } else {
        match images[n - 1].source {
            ImageSource::Embedded { view, .. } => if view == v {
                Some((n - 1) as usize)
            } else {
                backing_image_upto(images, n - 1, v)
            },
            ImageSource::External { .. } => backing_image_upto(images, n - 1, v),
        }
    }
}

/// Which image a buffer view backs, if any.
pub open spec fn backing_image(images: Seq<Image>, v: int) -> Option<usize> {
    backing_image_upto(images, images.len() as int, v)
}

/// A backing image index is an index into the image list.
proof fn lemma_backing_in_range(images: Seq<Image>, n: int, v: int)
    requires
        n <= images.len(),
        backing_image_upto(images, n, v) is Some,
    ensures
        backing_image_upto(images, n, v)->Some_0 < images.len(),
    decreases n,
{
    if n > 0 {
        match images[n - 1].source {
            ImageSource::Embedded { view, .. } => {
                if view != v {
                    lemma_backing_in_range(images, n - 1, v);
                }
            },
            ImageSource::External { .. } => {
                lemma_backing_in_range(images, n - 1, v);
            },
        }
    }
}

/// The bytes an original view carries in the output: the compressed bytes
/// of the processed image it backs, or its original byte range of the blob.
pub open spec fn view_payload(
    doc: Document,
    blob: Seq<u8>,
    enc: Seq<Option<Vec<u8>>>,
    v: int,
) -> Seq<u8> {
    let orig = blob.subrange(
        doc.buffer_views@[v].byte_offset as int,
        doc.buffer_views@[v].byte_offset + doc.buffer_views@[v].byte_length,
    );
    match backing_image(doc.images@, v) {
        Some(i) => match enc[i as int] {
            Some(b) => b@,
            None => orig,
        },
        None => orig,
    }
}

/// Whether image `i` is appended to the output as a brand-new view: it was
/// processed but carried an external reference, so it had no view to
/// substitute into.
pub open spec fn is_appended(images: Seq<Image>, enc: Seq<Option<Vec<u8>>>, i: int) -> bool {
    &&& images[i].source is External
    &&& enc[i] is Some
}

/// The payloads appended after the original views, for the first `n`
/// images, in image order.
pub open spec fn appended_payloads(images: Seq<Image>, enc: Seq<Option<Vec<u8>>>, n: int) -> Seq<
    Seq<u8>,
>
    decreases n,
{
    if n <= 0 {
        Seq::empty()
    } else if is_appended(images, enc, n - 1) {
        appended_payloads(images, enc, n - 1).push(enc[n - 1]->Some_0@)
    } else {
        appended_payloads(images, enc, n - 1)
    }
}

/// How many of the first `n` images are appended as new views.
pub open spec fn appended_count(images: Seq<Image>, enc: Seq<Option<Vec<u8>>>, n: int) -> int {
    appended_payloads(images, enc, n).len() as int
}

/// All payloads of the output blob, in order: each original view's payload,
/// then one payload per processed external image.
pub open spec fn out_payloads(doc: Document, blob: Seq<u8>, enc: Seq<Option<Vec<u8>>>) -> Seq<
    Seq<u8>,
> {
    Seq::new(doc.buffer_views@.len(), |v: int| view_payload(doc, blob, enc, v))
        + appended_payloads(doc.images@, enc, doc.images@.len() as int)
}

/// The first `k` payloads concatenated: the output blob grows in payload
/// order, so this is also the `k`-th payload's offset.
pub open spec fn cat_payloads(ps: Seq<Seq<u8>>, k: int) -> Seq<u8>
    decreases k,
{
    if k <= 0 {
        Seq::empty()
    } else {
        cat_payloads(ps, k - 1) + ps[k - 1]
    }
}

/// Concatenating more payloads never shortens the blob.
pub proof fn lemma_cat_monotone(ps: Seq<Seq<u8>>, a: int, b: int)
    requires
        0 <= a <= b,
    ensures
        cat_payloads(ps, a).len() <= cat_payloads(ps, b).len(),
    decreases b,
{
    if a < b {
        lemma_cat_monotone(ps, a, b - 1);
    }
}

/// Up to `m` payloads, the first `k` form a prefix of the concatenation.
proof fn lemma_cat_prefix(ps: Seq<Seq<u8>>, k: int, m: int)
    requires
        0 <= k <= m,
    ensures
        cat_payloads(ps, m).subrange(0, cat_payloads(ps, k).len() as int) == cat_payloads(ps, k),
    decreases m,
{
    lemma_cat_monotone(ps, k, m);
    if k == m {
        assert(cat_payloads(ps, m).subrange(0, cat_payloads(ps, m).len() as int) =~= cat_payloads(
            ps,
            m,
        ));
    } else {
        lemma_cat_prefix(ps, k, m - 1);
        lemma_cat_monotone(ps, k, m - 1);
        assert(cat_payloads(ps, m).subrange(0, cat_payloads(ps, k).len() as int) =~= cat_payloads(
            ps,
            m - 1,
        ).subrange(0, cat_payloads(ps, k).len() as int));
    }
}

/// Offset integrity: every payload's range lies within the output blob, and
/// the range holds exactly that payload.
pub proof fn lemma_view_contents(ps: Seq<Seq<u8>>, k: int)
    requires
        0 <= k < ps.len(),
    ensures
        cat_payloads(ps, k).len() + ps[k].len() <= cat_payloads(ps, ps.len() as int).len(),
        cat_payloads(ps, ps.len() as int).subrange(
            cat_payloads(ps, k).len() as int,
            cat_payloads(ps, k).len() + ps[k].len() as int,
        ) == ps[k],
{
    let full = cat_payloads(ps, ps.len() as int);
    lemma_cat_monotone(ps, k + 1, ps.len() as int);
    lemma_cat_prefix(ps, k + 1, ps.len() as int);
    let off = cat_payloads(ps, k).len() as int;
    assert(cat_payloads(ps, k + 1) == cat_payloads(ps, k) + ps[k]);
    assert(full.subrange(off, off + ps[k].len()) =~= cat_payloads(ps, k + 1).subrange(
        off,
        off + ps[k].len(),
    ));
    assert(cat_payloads(ps, k + 1).subrange(off, off + ps[k].len()) =~= ps[k]);
}

/// Offset integrity: two distinct payloads' output ranges never overlap;
/// the earlier one ends before the later one begins.
pub proof fn lemma_views_disjoint(ps: Seq<Seq<u8>>, i: int, j: int)
    requires
        0 <= i < j < ps.len(),
    ensures
        cat_payloads(ps, i).len() + ps[i].len() <= cat_payloads(ps, j).len(),
{
    lemma_cat_monotone(ps, i + 1, j);
}

/// Appended payloads only grow with more images, keeping earlier entries.
proof fn lemma_appended_prefix(images: Seq<Image>, enc: Seq<Option<Vec<u8>>>, n: int, m: int)
    requires
        0 <= n <= m,
    ensures
        appended_count(images, enc, n) <= appended_count(images, enc, m),
        forall|j: int|
            0 <= j < appended_count(images, enc, n) ==> appended_payloads(images, enc, m)[j]
                == appended_payloads(images, enc, n)[j],
    decreases m,
{
    if n < m {
        lemma_appended_prefix(images, enc, n, m - 1);
    }
}

/// The rewritten document together with its newly assembled blob.
pub struct RewriteOutput {
    pub document: Document,
    pub blob: Vec<u8>,
}

/// Offset integrity of a rewritten container: with every view sitting at
/// its payload's offset (as `rewrite_document` ensures), every view's
/// `offset + length` lies within the output blob, each view's range holds
/// exactly its payload, and no two views' byte ranges overlap.
pub proof fn lemma_rewrite_offset_integrity(out: Document, out_blob: Seq<u8>, ps: Seq<Seq<u8>>)
    requires
        out_blob == cat_payloads(ps, ps.len() as int),
        out.buffer_views@.len() == ps.len(),
        forall|k: int|
            0 <= k < ps.len() ==> (#[trigger] out.buffer_views@[k]).byte_offset == cat_payloads(
                ps,
                k,
            ).len(),
        forall|k: int|
            0 <= k < ps.len() ==> (#[trigger] out.buffer_views@[k]).byte_length == ps[k].len(),
    ensures
        forall|k: int|
            0 <= k < out.buffer_views@.len() ==> (#[trigger] out.buffer_views@[k]).in_bounds(
                out_blob.len() as int,
            ),
        forall|k: int|
            0 <= k < out.buffer_views@.len() ==> out_blob.subrange(
                (#[trigger] out.buffer_views@[k]).byte_offset as int,
                out.buffer_views@[k].byte_offset + out.buffer_views@[k].byte_length,
            ) == ps[k],
        forall|i: int, j: int|
            0 <= i < j < out.buffer_views@.len() ==> (#[trigger] out.buffer_views@[i]).byte_offset
                + out.buffer_views@[i].byte_length <= (#[trigger] out.buffer_views@[j]).byte_offset,
{
    assert forall|k: int| 0 <= k < out.buffer_views@.len() implies (
    #[trigger] out.buffer_views@[k]).in_bounds(out_blob.len() as int) && out_blob.subrange(
        out.buffer_views@[k].byte_offset as int,
        out.buffer_views@[k].byte_offset + out.buffer_views@[k].byte_length,
    ) == ps[k] by {
        lemma_view_contents(ps, k);
    }
    assert forall|i: int, j: int| 0 <= i < j < out.buffer_views@.len() implies (
    #[trigger] out.buffer_views@[i]).byte_offset + out.buffer_views@[i].byte_length <= (
    #[trigger] out.buffer_views@[j]).byte_offset by {
        lemma_views_disjoint(ps, i, j);
    }
}

/// Appends a copy of `src` to `dst`.
fn append_bytes(dst: &mut Vec<u8>, src: &Vec<u8>)
    ensures
        final(dst)@ == old(dst)@ + src@,
{
    let n = src.len();
    let mut i: usize = 0;
    while i < n
        invariant
            i <= n == src@.len(),
            dst@ == old(dst)@ + src@.subrange(0, i as int),
        decreases n - i,
    {
        dst.push(src[i]);
        i = i + 1;
        proof {
            assert(dst@ =~= old(dst)@ + src@.subrange(0, i as int));
        }
    }
    proof {
        assert(old(dst)@ + src@.subrange(0, n as int) =~= old(dst)@ + src@);
    }
}

/// For every view index, the image it backs: the last image whose embedded
/// source names the view.
fn build_backing(images: &Vec<Image>, n_views: usize) -> (r: Vec<Option<usize>>)
    requires
        forall|i: int|
            0 <= i < images@.len() ==> (#[trigger] images@[i]).wf(n_views as int),
    ensures
        r@.len() == n_views,
        forall|v: int| 0 <= v < n_views ==> r@[v] == backing_image(images@, v),
{
    let mut r: Vec<Option<usize>> = Vec::new();
    let mut k: usize = 0;
    while k < n_views
        invariant
            k <= n_views,
            r@.len() == k,
            forall|v: int| 0 <= v < k ==> r@[v] is None,
        decreases n_views - k,
    {
        r.push(None);
        k = k + 1;
    }
    let n = images.len();
    let mut i: usize = 0;
    while i < n
        invariant
            i <= n == images@.len(),
            r@.len() == n_views,
            forall|j: int|
                0 <= j < images@.len() ==> (#[trigger] images@[j]).wf(n_views as int),
            forall|v: int| 0 <= v < n_views ==> r@[v] == backing_image_upto(images@, i as int, v),
        decreases n - i,
    {
        match &images[i].source {
            ImageSource::Embedded { view, .. } => {
                r.set(*view, Some(i));
            },
            ImageSource::External { .. } => {},
        }
        i = i + 1;
    }
    r
}

/// Rewrites the document and blob around the completed image mapping, one
/// entry per processed image. Every original buffer view is re-emitted in
/// order, substituting the compressed bytes of the image it backs; a
/// processed image that had an external reference gets a brand-new view
/// appended at the end and its reference cleared; every processed image's
/// MIME type becomes the compressed-format marker; the buffer list becomes
/// a single buffer covering the new blob; every unprocessed image is left
/// untouched.
#[verifier::loop_isolation(false)]
#[verifier::rlimit(100)]
pub fn rewrite_document(doc: Document, blob: &Vec<u8>, encoded: &Vec<Option<Vec<u8>>>) -> (r:
    RewriteOutput)
    requires
        doc.wf(blob@.len() as int),
        encoded@.len() == doc.images@.len(),
    ensures
        ({
            let ps = out_payloads(doc, blob@, encoded@);
            let nv = doc.buffer_views@.len() as int;
            let out = r.document;
            &&& r.blob@ == cat_payloads(ps, ps.len() as int)
            &&& out.buffer_views@.len() == ps.len()
            &&& forall|k: int|
                0 <= k < ps.len() ==> (#[trigger] out.buffer_views@[k]).byte_offset
                    == cat_payloads(ps, k).len()
            &&& forall|k: int|
                0 <= k < ps.len() ==> (#[trigger] out.buffer_views@[k]).byte_length == ps[k].len()
            &&& out.buffers@.len() == 1
            &&& out.buffers@[0].byte_length == r.blob@.len()
            &&& out.materials@ == doc.materials@
            &&& out.textures@ == doc.textures@
            &&& out.images@.len() == doc.images@.len()
            &&& forall|i: int|
                0 <= i < doc.images@.len() && encoded@[i] is None ==> (
                #[trigger] out.images@[i]).source == doc.images@[i].source
            &&& forall|i: int|
                0 <= i < doc.images@.len() && encoded@[i] is Some ==> match (
                #[trigger] out.images@[i]).source {
                    ImageSource::Embedded { view, mime } => mime@ == "image/ktx2"@ && (
                    match doc.images@[i].source {
                        ImageSource::Embedded { view: old_view, .. } => view == old_view,
                        ImageSource::External { .. } => view == nv + appended_count(
                            doc.images@,
                            encoded@,
                            i,
                        ),
                    }),
                    ImageSource::External { .. } => false,
                }
            &&& out.wf(r.blob@.len() as int)
        }),
{
    let ghost ps = out_payloads(doc, blob@, encoded@);
    let nv = doc.buffer_views.len();
    let ni = doc.images.len();
    let backing = build_backing(&doc.images, nv);
    let mut new_blob: Vec<u8> = Vec::new();
    let mut new_views: Vec<BufferView> = Vec::new();
    let mut v: usize = 0;
    while v < nv
        invariant
            v <= nv,
            new_views@.len() == v,
            new_blob@ == cat_payloads(ps, v as int),
            forall|k: int|
                0 <= k < v ==> (#[trigger] new_views@[k]).byte_offset == cat_payloads(
                    ps,
                    k,
                ).len(),
            forall|k: int| 0 <= k < v ==> (#[trigger] new_views@[k]).byte_length == ps[k].len(),
        decreases nv - v,
    {
        let new_offset = new_blob.len();
        let bv = doc.buffer_views[v];
        let length: usize;
        match backing[v] {
            Some(i) => {
                proof {
                    lemma_backing_in_range(doc.images@, doc.images@.len() as int, v as int);
                }
                match &encoded[i] {
                    Some(b) => {
                        append_bytes(&mut new_blob, b);
                        length = b.len();
                    },
                    None => {
                        let raw = crate::glb::copy_range(blob, bv.byte_offset, bv.byte_length);
                        append_bytes(&mut new_blob, &raw);
                        length = raw.len();
                    },
                }
            },
            None => {
                let raw = crate::glb::copy_range(blob, bv.byte_offset, bv.byte_length);
                append_bytes(&mut new_blob, &raw);
                length = raw.len();
            },
        }
        proof {
            assert(ps[v as int] == view_payload(doc, blob@, encoded@, v as int));
            assert(new_blob@ == cat_payloads(ps, v as int) + ps[v as int]);
        }
        new_views.push(BufferView { byte_offset: new_offset, byte_length: length });
        v = v + 1;
    }
    let mut new_images: Vec<Image> = Vec::new();
    let mut i: usize = 0;
    while i < ni
        invariant
            i <= ni,
            new_images@.len() == i,
            new_views@.len() == nv + appended_count(doc.images@, encoded@, i as int),
            new_blob@ == cat_payloads(ps, nv + appended_count(doc.images@, encoded@, i as int)),
            nv + appended_count(doc.images@, encoded@, i as int) <= ps.len(),
            forall|k: int|
                0 <= k < new_views@.len() ==> (#[trigger] new_views@[k]).byte_offset
                    == cat_payloads(ps, k).len(),
            forall|k: int|
                0 <= k < new_views@.len() ==> (#[trigger] new_views@[k]).byte_length == ps[
                    k
                ].len(),
            forall|j: int|
                0 <= j < i && encoded@[j] is None ==> (#[trigger] new_images@[j]).source
                    == doc.images@[j].source,
            forall|j: int|
                0 <= j < i && encoded@[j] is Some ==> match (#[trigger] new_images@[j]).source {
                    ImageSource::Embedded { view, mime } => mime@ == "image/ktx2"@ && (
                    match doc.images@[j].source {
                        ImageSource::Embedded { view: old_view, .. } => view == old_view,
                        ImageSource::External { .. } => view == nv + appended_count(
                            doc.images@,
                            encoded@,
                            j,
                        ),
                    }),
                    ImageSource::External { .. } => false,
                },
        decreases ni - i,
    {
        proof {
            lemma_appended_prefix(doc.images@, encoded@, i as int + 1, ni as int);
        }
        match &doc.images[i].source {
            ImageSource::Embedded { view, mime } => {
                match &encoded[i] {
                    Some(_) => {
                        new_images.push(
                            Image {
                                source: ImageSource::Embedded {
                                    view: *view,
                                    mime: String::from_str("image/ktx2"),
                                },
                            },
                        );
                    },
                    None => {
                        new_images.push(
                            Image { source: ImageSource::Embedded { view: *view, mime: mime.clone() } },
                        );
                    },
                }
            },
            ImageSource::External { uri } => {
                match &encoded[i] {
                    Some(b) => {
                        let new_offset = new_blob.len();
                        let idx = new_views.len();
                        append_bytes(&mut new_blob, b);
                        new_views.push(
                            BufferView { byte_offset: new_offset, byte_length: b.len() },
                        );
                        new_images.push(
                            Image {
                                source: ImageSource::Embedded {
                                    view: idx,
                                    mime: String::from_str("image/ktx2"),
                                },
                            },
                        );
                        proof {
                            let c = appended_count(doc.images@, encoded@, i as int);
                            assert(appended_payloads(doc.images@, encoded@, i as int + 1)
                                == appended_payloads(doc.images@, encoded@, i as int).push(
                                encoded@[i as int]->Some_0@,
                            ));
                            assert(ps[nv + c] == appended_payloads(
                                doc.images@,
                                encoded@,
                                ni as int,
                            )[c]);
                            assert(ps[nv + c] == b@);
                            assert(new_blob@ == cat_payloads(ps, nv + c) + ps[nv + c]);
                        }
                    },
                    None => {
                        new_images.push(
                            Image { source: ImageSource::External { uri: uri.clone() } },
                        );
                    },
                }
            },
        }
        i = i + 1;
    }
    let blob_len = new_blob.len();
    let mut buffers: Vec<Buffer> = Vec::new();
    buffers.push(Buffer { byte_length: blob_len });
    proof {
        assert(nv + appended_count(doc.images@, encoded@, ni as int) == ps.len());
        assert forall|k: int| 0 <= k < new_views@.len() implies (
        #[trigger] new_views@[k]).in_bounds(new_blob@.len() as int) by {
            lemma_view_contents(ps, k);
        }
        assert forall|i: int| 0 <= i < new_images@.len() implies (#[trigger] new_images@[i]).wf(
            new_views@.len() as int,
        ) by {
            if encoded@[i] is Some {
                match doc.images@[i].source {
                    ImageSource::Embedded { .. } => {},
                    ImageSource::External { .. } => {
                        lemma_appended_prefix(doc.images@, encoded@, i + 1, ni as int);
                    },
                }
            }
        }
    }
    RewriteOutput {
        document: Document {
            materials: doc.materials,
            textures: doc.textures,
            images: new_images,
            buffer_views: new_views,
            buffers,
        },
        blob: new_blob,
    }
}

} // verus!
