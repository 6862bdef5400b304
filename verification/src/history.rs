//! Undo and redo for the preview window.
//!
//! Each entry restores the window's annotations and adjustments; entries
//! recorded for operations that replace the pixels (applying a crop) also
//! carry the full-resolution image. To bound memory only the most recent
//! `MAX_IMAGE_SNAPSHOTS` entries of the undo stack keep their image; older
//! ones drop it but keep the rest of their state, so cheap annotation steps
//! are never lost to the bound.

use vstd::prelude::*;

verus! {

/// Cap on undo entries that hold a full-resolution image.
pub const MAX_IMAGE_SNAPSHOTS: usize = 4;

/// A restorable point in the edit history.
pub struct Snapshot<S, I> {
    pub state: S,
    /// Present only for operations that replace the underlying pixels.
    pub image: Option<I>,
}

/// The undo and redo stacks, most recent entry last.
pub struct HistoryView<S, I> {
    pub undo: Seq<Snapshot<S, I>>,
    pub redo: Seq<Snapshot<S, I>>,
}

/// Number of entries at index `i` or later that carry an image.
pub open spec fn images_from<S, I>(s: Seq<Snapshot<S, I>>, i: int) -> nat
    decreases s.len() - i,
{
    if i >= s.len() || i < 0 {
        0
    } else {
        images_from(s, i + 1) + if s[i].image is Some { 1nat } else { 0nat }
    }
}

/// `s` with the image dropped from every entry that is not among the
/// `MAX_IMAGE_SNAPSHOTS` most recent image-bearing ones.
pub open spec fn bound_images<S, I>(s: Seq<Snapshot<S, I>>) -> Seq<Snapshot<S, I>> {
    Seq::new(
        s.len(),
        |i: int|
            Snapshot {
                state: s[i].state,
                image: if images_from(s, i) <= MAX_IMAGE_SNAPSHOTS { s[i].image } else { None },
            },
    )
}

/// The history after recording `snap` as a new undo point.
pub open spec fn spec_push<S, I>(h: HistoryView<S, I>, snap: Snapshot<S, I>) -> HistoryView<S, I> {
    HistoryView { undo: bound_images(h.undo.push(snap)), redo: Seq::empty() }
}

/// The history after undoing while the window shows `current`, and the entry
/// to restore.
pub open spec fn spec_undo<S, I>(h: HistoryView<S, I>, current: Snapshot<S, I>) -> (
    HistoryView<S, I>,
    Option<Snapshot<S, I>>,
) {
    if h.undo.len() == 0 {
        (h, None)
    } else {
        (
            HistoryView { undo: h.undo.drop_last(), redo: h.redo.push(current) },
            Some(h.undo.last()),
        )
    }
}

/// The history after redoing while the window shows `current`, and the entry
/// to restore.
pub open spec fn spec_redo<S, I>(h: HistoryView<S, I>, current: Snapshot<S, I>) -> (
    HistoryView<S, I>,
    Option<Snapshot<S, I>>,
) {
    if h.redo.len() == 0 {
        (h, None)
    } else {
        (
            HistoryView { undo: h.undo.push(current), redo: h.redo.drop_last() },
            Some(h.redo.last()),
        )
    }
}

proof fn lemma_bound_images_count<S, I>(s: Seq<Snapshot<S, I>>, i: int)
    requires
        0 <= i <= s.len(),
    ensures
        images_from(bound_images(s), i) == if images_from(s, i) <= MAX_IMAGE_SNAPSHOTS {
            images_from(s, i)
        } else {
            MAX_IMAGE_SNAPSHOTS as nat
        },
    decreases s.len() - i,
{
    if i < s.len() {
        lemma_bound_images_count(s, i + 1);
    }
}

/// Undoing right after recording a snapshot hands that snapshot back intact,
/// image included.
pub proof fn law_undo_returns_the_last_recorded_snapshot<S, I>(
    h: HistoryView<S, I>,
    snap: Snapshot<S, I>,
    current: Snapshot<S, I>,
)
    ensures
        spec_undo(spec_push(h, snap), current).1 == Some(snap),
{
    let s = h.undo.push(snap);
    let n = s.len() - 1;
    assert(images_from(s, n + 1) == 0);
    assert(bound_images(s)[n] == snap);
}

/// Recording a snapshot discards the redo history, keeps every earlier undo
/// entry's state in order, and leaves at most `MAX_IMAGE_SNAPSHOTS` images
/// on the undo stack.
pub proof fn law_recording_bounds_the_images<S, I>(h: HistoryView<S, I>, snap: Snapshot<S, I>)
    ensures
        spec_push(h, snap).redo.len() == 0,
        spec_push(h, snap).undo.len() == h.undo.len() + 1,
        forall|i: int| 0 <= i < h.undo.len() ==> #[trigger] spec_push(h, snap).undo[i].state == h.undo[i].state,
        images_from(spec_push(h, snap).undo, 0) <= MAX_IMAGE_SNAPSHOTS,
{
    lemma_bound_images_count(h.undo.push(snap), 0);
}

/// Redo right after undo restores the history exactly and hands back the
/// snapshot that was left, provided the window records the restored state as
/// it was handed over.
pub proof fn law_redo_undoes_undo<S, I>(h: HistoryView<S, I>, current: Snapshot<S, I>)
    requires
        h.undo.len() > 0,
    ensures
        ({
            let (h1, restored) = spec_undo(h, current);
            let (h2, back) = spec_redo(h1, restored.unwrap());
            h2 == h && back == Some(current)
        }),
{
    let (h1, restored) = spec_undo(h, current);
    assert(h1.undo.push(restored.unwrap()) =~= h.undo);
    assert(h1.redo.drop_last() =~= h.redo);
}

/// Undo right after redo restores the history exactly and hands back the
/// snapshot that was left.
pub proof fn law_undo_undoes_redo<S, I>(h: HistoryView<S, I>, current: Snapshot<S, I>)
    requires
        h.redo.len() > 0,
    ensures
        ({
            let (h1, restored) = spec_redo(h, current);
            let (h2, back) = spec_undo(h1, restored.unwrap());
            h2 == h && back == Some(current)
        }),
{
    let (h1, restored) = spec_redo(h, current);
    assert(h1.redo.push(restored.unwrap()) =~= h.redo);
    assert(h1.undo.drop_last() =~= h.undo);
}

/// Undo and redo stacks of snapshots.
pub struct History<S, I> {
    undo: Vec<Snapshot<S, I>>,
    redo: Vec<Snapshot<S, I>>,
}

impl<S, I> View for History<S, I> {
    type V = HistoryView<S, I>;

    closed spec fn view(&self) -> HistoryView<S, I> {
        HistoryView { undo: self.undo@, redo: self.redo@ }
    }
}

impl<S, I> History<S, I> {
    /// An empty history.
    pub fn new() -> (h: History<S, I>)
        ensures
            h@.undo.len() == 0,
            h@.redo.len() == 0,
    {
        History { undo: Vec::new(), redo: Vec::new() }
    }

    /// Whether there is anything to undo.
    pub fn can_undo(&self) -> (b: bool)
        ensures
            b <==> self@.undo.len() > 0,
    {
        self.undo.len() > 0
    }

    /// Whether there is anything to redo.
    pub fn can_redo(&self) -> (b: bool)
        ensures
            b <==> self@.redo.len() > 0,
    {
        self.redo.len() > 0
    }

    /// Whether undoing now restores an image, so the snapshot of the state
    /// being left must carry the current image for redo to return to it;
    /// `None` when there is nothing to undo.
    pub fn undo_restores_image(&self) -> (b: Option<bool>)
        ensures
            self@.undo.len() == 0 ==> b is None,
            self@.undo.len() > 0 ==> b == Some(self@.undo.last().image is Some),
    {
        let n = self.undo.len();
        if n == 0 {
            None
        } else {
            Some(self.undo[n - 1].image.is_some())
        }
    }

    /// Whether redoing now restores an image; `None` when there is nothing to redo.
    pub fn redo_restores_image(&self) -> (b: Option<bool>)
        ensures
            self@.redo.len() == 0 ==> b is None,
            self@.redo.len() > 0 ==> b == Some(self@.redo.last().image is Some),
    {
        let n = self.redo.len();
        if n == 0 {
            None
        } else {
            Some(self.redo[n - 1].image.is_some())
        }
    }

    /// Record a new undo point. Redo history is discarded, and images are
    /// dropped from all but the most recent image-bearing undo entries.
    pub fn push(&mut self, snap: Snapshot<S, I>)
        ensures
            final(self)@ == spec_push(old(self)@, snap),
    {
        self.undo.push(snap);
        let ghost s = self.undo@;
        // Walk from the newest entry back, moving entries onto `rev` and
        // dropping images once the cap has been reached.
        let mut rev: Vec<Snapshot<S, I>> = Vec::new();
        let mut seen: usize = 0;
        while self.undo.len() > 0
            invariant
                self.undo@ == s.subrange(0, self.undo@.len() as int),
                self.undo@.len() + rev@.len() == s.len(),
                seen == if images_from(s, self.undo@.len() as int) <= MAX_IMAGE_SNAPSHOTS {
                    images_from(s, self.undo@.len() as int)
                } else {
                    MAX_IMAGE_SNAPSHOTS as nat
                },
                forall|j: int|
                    0 <= j < rev@.len() ==> {
                        let i = s.len() - 1 - j;
                        &&& #[trigger] rev@[j].state == s[i].state
                        &&& rev@[j].image == if images_from(s, i) <= MAX_IMAGE_SNAPSHOTS {
                            s[i].image
                        } else {
                            None
                        }
                    },
            decreases self.undo@.len(),
        {
            let k = self.undo.len() - 1;
            let ghost before = self.undo@;
            let entry = self.undo.pop().unwrap();
            assert(entry == s[k as int]);
            let Snapshot { state, image } = entry;
            let kept = match image {
                Some(img) => {
                    if seen < MAX_IMAGE_SNAPSHOTS {
                        seen = seen + 1;
                        Some(img)
                    } else {
                        None
                    }
                },
                None => None,
            };
            proof {
                assert(self.undo@ =~= s.subrange(0, k as int));
            }
            rev.push(Snapshot { state, image: kept });
        }
        let ghost r = rev@;
        let mut out: Vec<Snapshot<S, I>> = Vec::new();
        while rev.len() > 0
            invariant
                rev@ == r.subrange(0, rev@.len() as int),
                r.len() == s.len(),
                rev@.len() + out@.len() == s.len(),
                forall|j: int| 0 <= j < out@.len() ==> #[trigger] out@[j] == r[s.len() - 1 - j],
            decreases rev@.len(),
        {
            let k = rev.len() - 1;
            let entry = rev.pop().unwrap();
            proof {
                assert(rev@ =~= r.subrange(0, k as int));
            }
            out.push(entry);
        }
        self.undo = out;
        self.redo = Vec::new();
        proof {
            assert forall|j: int| 0 <= j < s.len() implies #[trigger] self.undo@[j] == bound_images(s)[j] by {
                let i = s.len() - 1 - j;
                assert(self.undo@[j] == r[i]);
                assert(r[i].state == s[s.len() - 1 - i].state);
            }
            assert(self.undo@ =~= bound_images(s));
        }
    }

    /// Step back: the newest undo entry is returned for the window to restore,
    /// and `current`, the snapshot of the state being left, goes onto the redo
    /// stack.
    pub fn undo(&mut self, current: Snapshot<S, I>) -> (restored: Option<Snapshot<S, I>>)
        ensures
            (final(self)@, restored) == spec_undo(old(self)@, current),
    {
        match self.undo.pop() {
            None => None,
            Some(snap) => {
                self.redo.push(current);
                Some(snap)
            },
        }
    }

    /// Step forward again: the newest redo entry is returned for the window to
    /// restore, and `current` goes back onto the undo stack.
    pub fn redo(&mut self, current: Snapshot<S, I>) -> (restored: Option<Snapshot<S, I>>)
        ensures
            (final(self)@, restored) == spec_redo(old(self)@, current),
    {
        match self.redo.pop() {
            None => None,
            Some(snap) => {
                self.undo.push(current);
                Some(snap)
            },
        }
    }
}

} // verus!
