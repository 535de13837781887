//! Which files of a recording folder get a fresh metadata document.
//!
//! Only `flv` and `mp4` files count. A document is written when none exists,
//! when it is not newer than its media file, or when rewriting is forced.

use vstd::prelude::*;
use crate::text::chars_of;

verus! {

/// What the batch knows of one file of a folder. Times are nanoseconds from
/// the Unix epoch (negative before it).
#[derive(Clone, Debug)]
pub struct MediaEntry {
    /// The file's extension, if it has one that is valid text.
    pub extension: Option<String>,
    /// When the metadata document beside the file was last changed, if it
    /// exists.
    pub sidecar_modified: Option<i128>,
    /// When the file itself was last changed.
    pub media_modified: i128,
}

/// `flv` or `mp4`.
pub open spec fn is_media_ext(e: Seq<char>) -> bool {
    e == seq!['f', 'l', 'v'] || e == seq!['m', 'p', '4']
}

/// The document beside a media file is to be written.
pub open spec fn sidecar_due(sidecar_modified: Option<i128>, media_modified: i128, force: bool) -> bool {
    match sidecar_modified {
        None => true,
        Some(t) => force || t <= media_modified,
    }
}

/// The batch writes a document for this entry.
pub open spec fn selected(e: MediaEntry, force: bool) -> bool {
    &&& e.extension matches Some(x) && is_media_ext(x@)
    &&& sidecar_due(e.sidecar_modified, e.media_modified, force)
}

/// Whether `ext` names a media file.
pub fn is_media_extension(ext: &str) -> (r: bool)
    ensures
        r == is_media_ext(ext@),
{
    let v = chars_of(ext);
    if v.len() != 3 {
        return false;
    }
    let r = (v[0] == 'f' && v[1] == 'l' && v[2] == 'v') || (v[0] == 'm' && v[1] == 'p' && v[2]
        == '4');
    proof {
        if r {
            assert(v@ =~= seq!['f', 'l', 'v'] || v@ =~= seq!['m', 'p', '4']);
        }
    }
    r
}

/// Whether the document beside a media file is to be written.
pub fn needs_sidecar(sidecar_modified: Option<i128>, media_modified: i128, force: bool) -> (r: bool)
    ensures
        r == sidecar_due(sidecar_modified, media_modified, force),
{
    match sidecar_modified {
        None => true,
        Some(t) => force || t <= media_modified,
    }
}

/// The indices, in order, of the entries of one folder whose document is to
/// be written.
pub fn run_dir(entries: &Vec<MediaEntry>, force: bool) -> (r: Vec<usize>)
    ensures
        forall|k: int| 0 <= k < r@.len() ==> r@[k] < entries@.len(),
        forall|k: int, l: int| 0 <= k < l < r@.len() ==> r@[k] < r@[l],
        forall|i: int|
            0 <= i < entries@.len() ==> (selected(#[trigger] entries@[i], force) <==> r@.contains(
                i as usize,
            )),
{
    let mut r: Vec<usize> = Vec::new();
    let mut i: usize = 0;
    while i < entries.len()
        invariant
            i <= entries@.len(),
            forall|k: int| 0 <= k < r@.len() ==> r@[k] < i,
            forall|k: int, l: int| 0 <= k < l < r@.len() ==> r@[k] < r@[l],
            forall|j: int|
                0 <= j < i ==> (selected(#[trigger] entries@[j], force) <==> r@.contains(
                    j as usize,
                )),
        decreases entries@.len() - i,
    {
        let e = &entries[i];
        let wanted = match &e.extension {
            Some(x) => is_media_extension(x.as_str()) && needs_sidecar(
                e.sidecar_modified,
                e.media_modified,
                force,
            ),
            None => false,
        };
        let ghost before = r@;
        if wanted {
            r.push(i);
            proof {
                assert(r@[r@.len() - 1] == i);
                assert forall|j: int| 0 <= j < i implies (selected(#[trigger] entries@[j], force)
                    <==> r@.contains(j as usize)) by {
                    if before.contains(j as usize) {
                        let k = choose|k: int| 0 <= k < before.len() && before[k] == j as usize;
                        assert(r@[k] == j as usize);
                    }
                    if r@.contains(j as usize) {
                        let k = choose|k: int| 0 <= k < r@.len() && r@[k] == j as usize;
                        if k < before.len() {
                            assert(before[k] == j as usize);
                        }
                    }
                }
            }
        }
        proof {
            assert(selected(entries@[i as int], force) <==> r@.contains(i));
        }
        i = i + 1;
    }
    r
}

/// A folder run a second time, with a media file unchanged since its
/// document was written after it, does not write that document again unless
/// rewriting is forced; forced, it does.
pub proof fn lemma_fresh_sidecar_kept(e: MediaEntry, written: i128)
    requires
        e.sidecar_modified == Some(written),
        written > e.media_modified,
    ensures
        !selected(e, false),
        (e.extension matches Some(x) && is_media_ext(x@)) ==> selected(e, true),
{
}

} // verus!
