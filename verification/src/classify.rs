//! Texture role classification: walking the material graph into a role-tagged
//! work list, and planning at most one encode per distinct image index.

use crate::document::{Document, Material, Texture};
use crate::texture::TextureType;
use vstd::prelude::*;

verus! {

/// One discovered texture reference: the image it samples and the role the
/// material gives it.
#[derive(Clone, Copy, PartialEq, Eq, Structural, Debug)]
pub struct WorkItem {
    pub image: usize,
    pub role: TextureType,
}

/// The zero or one work items a single material slot contributes.
pub open spec fn slot_item(slot: Option<usize>, role: TextureType, textures: Seq<Texture>) -> Seq<
    WorkItem,
> {
    match slot {
        Some(t) => seq![WorkItem { image: textures[t as int].source, role }],
        None => Seq::empty(),
    }
}

/// The work items of one material, in the fixed slot order: base color,
/// metallic-roughness, normal, emissive, occlusion. The metallic-roughness
/// and occlusion slots share one role because they are packed together.
pub open spec fn material_items(m: Material, textures: Seq<Texture>) -> Seq<WorkItem> {
    slot_item(m.base_color, TextureType::BaseColor, textures) + slot_item(
        m.metallic_roughness,
        TextureType::MetallicRoughnessOcclusion,
        textures,
    ) + slot_item(m.normal, TextureType::Normal, textures) + slot_item(
        m.emissive,
        TextureType::Emissive,
        textures,
    ) + slot_item(m.occlusion, TextureType::MetallicRoughnessOcclusion, textures)
}

/// The work items of the first `n` materials, in document enumeration order.
pub open spec fn classify_upto(doc: Document, n: int) -> Seq<WorkItem>
    decreases n,
{
    if n <= 0 {
        Seq::empty()
    } else {
        classify_upto(doc, n - 1) + material_items(doc.materials@[n - 1], doc.textures@)
    }
}

/// The full role-tagged work list of a document.
pub open spec fn classify_spec(doc: Document) -> Seq<WorkItem> {
    classify_upto(doc, doc.materials@.len() as int)
}

/// Appends the work item of one slot, resolving the texture to its image.
fn push_slot(
    out: &mut Vec<WorkItem>,
    textures: &Vec<Texture>,
    slot: &Option<usize>,
    role: TextureType,
)
    requires
        *slot matches Some(t) ==> t < textures@.len(),
    ensures
        final(out)@ == old(out)@ + slot_item(*slot, role, textures@),
{
    match slot {
        Some(t) => {
            let image = textures[*t].source;
            out.push(WorkItem { image, role });
            proof {
                assert(final(out)@ =~= old(out)@ + slot_item(*slot, role, textures@));
            }
        },
        None => {
            proof {
                assert(final(out)@ =~= old(out)@ + slot_item(*slot, role, textures@));
            }
        },
    }
}

/// Walks every material's five fixed slots and emits one work item per
/// populated slot, in document enumeration order. Classification never
/// mutates the document.
pub fn classify_document(doc: &Document) -> (r: Vec<WorkItem>)
    requires
        forall|m: int|
            0 <= m < doc.materials@.len() ==> (#[trigger] doc.materials@[m]).wf(
                doc.textures@.len() as int,
            ),
    ensures
        r@ == classify_spec(*doc),
{
    let mut out: Vec<WorkItem> = Vec::new();
    let n = doc.materials.len();
    let mut m: usize = 0;
    while m < n
        invariant
            m <= n == doc.materials@.len(),
            forall|k: int|
                0 <= k < doc.materials@.len() ==> (#[trigger] doc.materials@[k]).wf(
                    doc.textures@.len() as int,
                ),
            out@ == classify_upto(*doc, m as int),
        decreases n - m,
    {
        let mat = doc.materials[m];
        let ghost before = out@;
        push_slot(&mut out, &doc.textures, &mat.base_color, TextureType::BaseColor);
        push_slot(
            &mut out,
            &doc.textures,
            &mat.metallic_roughness,
            TextureType::MetallicRoughnessOcclusion,
        );
        push_slot(&mut out, &doc.textures, &mat.normal, TextureType::Normal);
        push_slot(&mut out, &doc.textures, &mat.emissive, TextureType::Emissive);
        push_slot(
            &mut out,
            &doc.textures,
            &mat.occlusion,
            TextureType::MetallicRoughnessOcclusion,
        );
        proof {
            assert(out@ =~= before + material_items(doc.materials@[m as int], doc.textures@));
        }
        m = m + 1;
    }
    out
}

/// Whether some item of `s` references image index `img`.
pub open spec fn contains_image(s: Seq<WorkItem>, img: usize) -> bool {
    exists|k: int| 0 <= k < s.len() && s[k].image == img
}

/// `s` with every item dropped whose image index appeared earlier: the
/// first work item per distinct image survives, in order.
pub open spec fn dedup_spec(s: Seq<WorkItem>) -> Seq<WorkItem>
    decreases s.len(),
{
    if s.len() == 0 {
        Seq::empty()
    } else {
        let front = dedup_spec(s.drop_last());
        if contains_image(front, s.last().image) {
            front
        } else {
            front.push(s.last())
        }
    }
}

/// Whether some kept item of `v` references image index `img`.
fn vec_contains_image(v: &Vec<WorkItem>, img: usize) -> (r: bool)
    ensures
        r == contains_image(v@, img),
{
    let n = v.len();
    let mut k: usize = 0;
    while k < n
        invariant
            k <= n == v@.len(),
            forall|j: int| 0 <= j < k ==> v@[j].image != img,
        decreases n - k,
    {
        if v[k].image == img {
            return true;
        }
        k = k + 1;
    }
    false
}

/// Plans the encodes of a work list: keeps the first work item per distinct
/// image index and drops the rest, so that one image is encoded at most
/// once however many texture slots reference it.
pub fn plan_unique(items: &Vec<WorkItem>) -> (r: Vec<WorkItem>)
    ensures
        r@ == dedup_spec(items@),
{
    let mut out: Vec<WorkItem> = Vec::new();
    let n = items.len();
    let mut i: usize = 0;
    while i < n
        invariant
            i <= n == items@.len(),
            out@ == dedup_spec(items@.subrange(0, i as int)),
        decreases n - i,
    {
        let item = items[i];
        proof {
            assert(items@.subrange(0, i as int + 1).drop_last() =~= items@.subrange(0, i as int));
            assert(items@.subrange(0, i as int + 1).last() == items@[i as int]);
        }
        if !vec_contains_image(&out, item.image) {
            out.push(item);
        }
        i = i + 1;
    }
    proof {
        assert(items@.subrange(0, items@.len() as int) =~= items@);
    }
    out
}

/// Every image index of the input survives planning: dropping duplicates
/// loses no image.
pub proof fn lemma_dedup_complete(s: Seq<WorkItem>, img: usize)
    ensures
        contains_image(dedup_spec(s), img) == contains_image(s, img),
    decreases s.len(),
{
    if s.len() == 0 {
    } else {
        lemma_dedup_complete(s.drop_last(), img);
        let front = dedup_spec(s.drop_last());
        if contains_image(front, s.last().image) {
            if contains_image(s, img) {
                let k = choose|k: int| 0 <= k < s.len() && s[k].image == img;
                if k < s.len() - 1 {
                    assert(s.drop_last()[k] == s[k]);
                    assert(contains_image(s.drop_last(), img));
                }
            }
            if contains_image(s.drop_last(), img) {
                let k = choose|k: int| 0 <= k < s.drop_last().len() && s.drop_last()[k].image
                    == img;
                assert(s[k] == s.drop_last()[k]);
            }
        } else {
            let d = dedup_spec(s);
            if contains_image(s, img) {
                let k = choose|k: int| 0 <= k < s.len() && s[k].image == img;
                if k < s.len() - 1 {
                    assert(s.drop_last()[k] == s[k]);
                    assert(contains_image(s.drop_last(), img));
                    let j = choose|j: int| 0 <= j < front.len() && front[j].image == img;
                    assert(d[j] == front[j]);
                    assert(contains_image(d, img));
                } else {
                    assert(d[d.len() - 1].image == img);
                    assert(contains_image(d, img));
                }
            }
            if contains_image(d, img) {
                let k = choose|k: int| 0 <= k < d.len() && d[k].image == img;
                if k < d.len() - 1 {
                    assert(front[k] == d[k]);
                    let j = choose|j: int| 0 <= j < s.drop_last().len() && s.drop_last()[j].image
                        == img;
                    assert(s[j] == s.drop_last()[j]);
                    assert(contains_image(s, img));
                } else {
                    assert(d[k] == s.last());
                    assert(contains_image(s, img));
                }
            }
        }
    }
}

/// Planned encodes reference pairwise distinct image indices: at most one
/// encode per image.
pub proof fn lemma_dedup_unique(s: Seq<WorkItem>)
    ensures
        forall|i: int, j: int|
            0 <= i < j < dedup_spec(s).len() ==> dedup_spec(s)[i].image != dedup_spec(s)[j].image,
    decreases s.len(),
{
    if s.len() == 0 {
    } else {
        lemma_dedup_unique(s.drop_last());
        let front = dedup_spec(s.drop_last());
        let d = dedup_spec(s);
        if !contains_image(front, s.last().image) {
            assert forall|i: int, j: int| 0 <= i < j < d.len() implies d[i].image != d[j].image by {
                if j < d.len() - 1 {
                    assert(d[i] == front[i] && d[j] == front[j]);
                } else {
                    assert(d[i] == front[i]);
                    assert(d[j] == s.last());
                    assert(!contains_image(front, s.last().image));
                }
            }
        }
    }
}

/// Every work item of the first `n` materials names an existing image.
pub proof fn lemma_classify_in_range(doc: Document, n: int)
    requires
        n <= doc.materials@.len(),
        forall|m: int|
            0 <= m < doc.materials@.len() ==> (#[trigger] doc.materials@[m]).wf(
                doc.textures@.len() as int,
            ),
        forall|t: int|
            0 <= t < doc.textures@.len() ==> (#[trigger] doc.textures@[t]).source
                < doc.images@.len(),
    ensures
        forall|k: int|
            0 <= k < classify_upto(doc, n).len() ==> (#[trigger] classify_upto(doc, n)[k]).image
                < doc.images@.len(),
    decreases n,
{
    if n > 0 {
        lemma_classify_in_range(doc, n - 1);
    }
}

/// Dropping duplicates never introduces an image index.
pub proof fn lemma_dedup_image_bound(s: Seq<WorkItem>, bound: int)
    requires
        forall|k: int| 0 <= k < s.len() ==> (#[trigger] s[k]).image < bound,
    ensures
        forall|k: int|
            0 <= k < dedup_spec(s).len() ==> (#[trigger] dedup_spec(s)[k]).image < bound,
    decreases s.len(),
{
    if s.len() > 0 {
        assert(forall|k: int| 0 <= k < s.drop_last().len() ==> #[trigger] s.drop_last()[k] == s[k]);
        lemma_dedup_image_bound(s.drop_last(), bound);
    }
}

/// Dedup law: however many distinct texture slots of a document reference
/// the same image index, the planned work list holds exactly one encode for
/// that image index.
pub proof fn lemma_one_encode_per_image(doc: Document, img: usize)
    requires
        contains_image(classify_spec(doc), img),
    ensures
        exists|k: int|
            0 <= k < dedup_spec(classify_spec(doc)).len() && dedup_spec(classify_spec(doc))[
                k
            ].image == img,
        forall|k: int, j: int|
            (0 <= k < dedup_spec(classify_spec(doc)).len() && 0 <= j < dedup_spec(
                classify_spec(doc),
            ).len() && dedup_spec(classify_spec(doc))[k].image == img && dedup_spec(
                classify_spec(doc),
            )[j].image == img) ==> k == j,
{
    lemma_dedup_complete(classify_spec(doc), img);
    lemma_dedup_unique(classify_spec(doc));
    let d = dedup_spec(classify_spec(doc));
    assert forall|k: int, j: int|
        (0 <= k < d.len() && 0 <= j < d.len() && d[k].image == img && d[j].image
            == img) implies k == j by {
        if k < j {
            assert(d[k].image != d[j].image);
        }
        if j < k {
            assert(d[j].image != d[k].image);
        }
    }
}

} // verus!
