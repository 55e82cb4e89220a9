//! Physical frame bookkeeping: per-frame reference counts and an
//! allocation bitmap, both held in lazily backed page arrays.
use crate::page_array::PageArray;
use vstd::prelude::*;

verus! {

/// Bits held by one word of the allocation bitmap.
pub const BITS_PER_WORD: u64 = 32;

/// The reference counts and the allocation bitmap of physical memory.
///
/// Slot `f` of `refcounts` holds the count of frame `f`; bit `f % 32` of
/// word `f / 32` of `used_bitmap` is set while frame `f` is allocated.
pub struct PhysFrames {
    refcounts: PageArray,
    used_bitmap: PageArray,
}

/// The count of frame `f` in the reference-count slots `m`; an unbacked slot counts zero.
pub open spec fn count_in(m: Map<u64, u32>, f: u64) -> u32 {
    if m.contains_key(f) {
        m[f]
    } else {
        0
    }
}

/// `c + 1`, wrapping to zero past `u32::MAX` as an atomic add does.
pub open spec fn wrapping_inc(c: u32) -> u32 {
    if c == u32::MAX {
        0
    } else {
        (c + 1) as u32
    }
}

/// The bitmap word that holds frame `f`.
pub open spec fn word_index(f: u64) -> u64 {
    f / BITS_PER_WORD
}

/// The bit of frame `f` within its word.
pub open spec fn frame_mask(f: u64) -> u32 {
    1u32 << ((f % BITS_PER_WORD) as u32)
}

/// The word `w` of the bitmap `m`; an unbacked word reads as zero.
pub open spec fn word_in(m: Map<u64, u32>, w: u64) -> u32 {
    if m.contains_key(w) {
        m[w]
    } else {
        0
    }
}

/// Whether frame `f` is marked allocated in the bitmap words `m`.
pub open spec fn used_in(m: Map<u64, u32>, f: u64) -> bool {
    word_in(m, word_index(f)) & frame_mask(f) != 0
}

/// The reference counts after one more reference to frame `f`.
pub open spec fn after_ref(m: Map<u64, u32>, f: u64) -> Map<u64, u32> {
    m.insert(f, wrapping_inc(count_in(m, f)))
}

/// The reference counts after dropping one reference to frame `f`;
/// a count of zero stays as it is.
pub open spec fn after_deref(m: Map<u64, u32>, f: u64) -> Map<u64, u32> {
    if count_in(m, f) != 0 {
        m.insert(f, (count_in(m, f) - 1) as u32)
    } else {
        m
    }
}

/// The bitmap after marking frame `f` allocated.
pub open spec fn after_mark_used(m: Map<u64, u32>, f: u64) -> Map<u64, u32> {
    m.insert(word_index(f), word_in(m, word_index(f)) | frame_mask(f))
}

/// The bitmap after marking frame `f` free; it is unchanged where `f` was not allocated.
pub open spec fn after_mark_free(m: Map<u64, u32>, f: u64) -> Map<u64, u32> {
    if used_in(m, f) {
        m.insert(word_index(f), word_in(m, word_index(f)) & !frame_mask(f))
    } else {
        m
    }
}

impl PhysFrames {
    /// The reference-count slots.
    pub closed spec fn counts(&self) -> Map<u64, u32> {
        self.refcounts@
    }

    /// The bitmap words.
    pub closed spec fn bitmap(&self) -> Map<u64, u32> {
        self.used_bitmap@
    }

    /// How many frames have a reference-count slot.
    pub closed spec fn count_capacity(&self) -> u64 {
        self.refcounts.spec_capacity()
    }

    /// How many words the bitmap has.
    pub closed spec fn bitmap_capacity(&self) -> u64 {
        self.used_bitmap.spec_capacity()
    }

    /// Both arrays keep their slots below their capacities.
    pub closed spec fn wf(&self) -> bool {
        self.refcounts.wf() && self.used_bitmap.wf()
    }

    /// No count slot at or past the count capacity, and no bitmap word at or
    /// past the bitmap capacity, is ever backed.
    pub proof fn lemma_within_capacity(&self)
        requires
            self.wf(),
        ensures
            forall|f: u64| #[trigger] self.counts().contains_key(f) ==> f < self.count_capacity(),
            forall|w: u64| #[trigger] self.bitmap().contains_key(w) ==> w < self.bitmap_capacity(),
    {
        self.refcounts.lemma_within_capacity();
        self.used_bitmap.lemma_within_capacity();
    }

    /// Bookkeeping for `count_slots` frames' reference counts and
    /// `bitmap_words` words of allocation bitmap, all unbacked.
    pub fn new(count_slots: u64, bitmap_words: u64) -> (p: PhysFrames)
        ensures
            p.wf(),
            p.counts() == Map::<u64, u32>::empty(),
            p.bitmap() == Map::<u64, u32>::empty(),
            forall|f: u64| #[trigger] count_in(p.counts(), f) == 0,
            forall|f: u64| !#[trigger] used_in(p.bitmap(), f),
            p.count_capacity() == count_slots,
            p.bitmap_capacity() == bitmap_words,
    {
        proof {
            assert forall|f: u64| !#[trigger] used_in(Map::<u64, u32>::empty(), f) by {
                let m = frame_mask(f);
                assert(0u32 & m == 0) by (bit_vector);
            }
        }
        PhysFrames { refcounts: PageArray::new(count_slots), used_bitmap: PageArray::new(bitmap_words) }
    }

    /// How many frames have a reference-count slot.
    pub fn count_slots(&self) -> (r: u64)
        ensures
            r == self.count_capacity(),
    {
        self.refcounts.capacity()
    }

    /// How many words the bitmap has.
    pub fn bitmap_words(&self) -> (r: u64)
        ensures
            r == self.bitmap_capacity(),
    {
        self.used_bitmap.capacity()
    }
}

/// Adds a reference to frame `frame_idx`, backing its count slot if needed.
/// The count wraps to zero past `u32::MAX`.
pub fn ref_frame(frames: &mut PhysFrames, frame_idx: u64)
    requires
        old(frames).wf(),
        frame_idx < old(frames).count_capacity(),
    ensures
        final(frames).wf(),
        final(frames).count_capacity() == old(frames).count_capacity(),
        final(frames).bitmap_capacity() == old(frames).bitmap_capacity(),
        final(frames).counts() == after_ref(old(frames).counts(), frame_idx),
        final(frames).bitmap() == old(frames).bitmap(),
{
    let old_count = frames.refcounts.get_alloc(frame_idx);
    let new_count: u32 = if old_count == u32::MAX { 0 } else { old_count + 1 };
    frames.refcounts.set(frame_idx, new_count);
}

/// Drops a reference to frame `frame_idx` and returns the count it had
/// before; a frame whose count is zero (or never backed) is left alone and
/// zero is returned.
pub fn deref_frame(frames: &mut PhysFrames, frame_idx: u64) -> (r: u32)
    requires
        old(frames).wf(),
    ensures
        final(frames).wf(),
        final(frames).count_capacity() == old(frames).count_capacity(),
        final(frames).bitmap_capacity() == old(frames).bitmap_capacity(),
        r == count_in(old(frames).counts(), frame_idx),
        final(frames).counts() == after_deref(old(frames).counts(), frame_idx),
        frame_idx >= old(frames).count_capacity() ==> r == 0 && final(frames).counts() == old(
            frames,
        ).counts(),
        final(frames).bitmap() == old(frames).bitmap(),
{
    proof {
        frames.lemma_within_capacity();
    }
    match frames.refcounts.get(frame_idx) {
        Some(c) => {
            if c != 0 {
                frames.refcounts.set(frame_idx, c - 1);
                c
            } else {
                0
            }
        },
        None => 0,
    }
}

/// The reference count of frame `frame_idx` (zero where it was never referenced).
pub fn get_multiref_count(frames: &PhysFrames, frame_idx: u64) -> (r: u32)
    requires
        frames.wf(),
    ensures
        r == count_in(frames.counts(), frame_idx),
        frame_idx >= frames.count_capacity() ==> r == 0,
{
    proof {
        frames.lemma_within_capacity();
    }
    match frames.refcounts.get(frame_idx) {
        Some(c) => c,
        None => 0,
    }
}

/// Marks frame `frame_idx` free; returns true if it was marked allocated.
pub fn mark_free(frames: &mut PhysFrames, frame_idx: u64) -> (r: bool)
    requires
        old(frames).wf(),
    ensures
        final(frames).wf(),
        final(frames).count_capacity() == old(frames).count_capacity(),
        final(frames).bitmap_capacity() == old(frames).bitmap_capacity(),
        r == used_in(old(frames).bitmap(), frame_idx),
        final(frames).bitmap() == after_mark_free(old(frames).bitmap(), frame_idx),
        word_index(frame_idx) >= old(frames).bitmap_capacity() ==> !r && final(frames).bitmap()
            == old(frames).bitmap(),
        forall|g: u64|
            #[trigger] used_in(final(frames).bitmap(), g) == (used_in(old(frames).bitmap(), g) && g
                != frame_idx),
        final(frames).counts() == old(frames).counts(),
{
    proof {
        law_mark_free_clears_only_that_frame(frames.bitmap(), frame_idx);
        frames.lemma_within_capacity();
        let m = frame_mask(frame_idx);
        assert(0u32 & m == 0) by (bit_vector);
    }
    let mask: u32 = 1u32 << ((frame_idx % BITS_PER_WORD) as u32);
    let word = frame_idx / BITS_PER_WORD;
    match frames.used_bitmap.get(word) {
        None => {
            assert(0u32 & mask == 0) by (bit_vector);
            false
        },
        Some(current) => {
            if current & mask == 0 {
                false
            } else {
                frames.used_bitmap.set(word, current & !mask);
                true
            }
        },
    }
}

/// Marks frame `frame_idx` allocated, backing its bitmap word if needed.
pub fn mark_used(frames: &mut PhysFrames, frame_idx: u64)
    requires
        old(frames).wf(),
        word_index(frame_idx) < old(frames).bitmap_capacity(),
    ensures
        final(frames).wf(),
        final(frames).count_capacity() == old(frames).count_capacity(),
        final(frames).bitmap_capacity() == old(frames).bitmap_capacity(),
        final(frames).bitmap() == after_mark_used(old(frames).bitmap(), frame_idx),
        forall|g: u64|
            #[trigger] used_in(final(frames).bitmap(), g) == (used_in(old(frames).bitmap(), g) || g
                == frame_idx),
        final(frames).counts() == old(frames).counts(),
{
    proof {
        law_mark_used_sets_only_that_frame(frames.bitmap(), frame_idx);
    }
    let mask: u32 = 1u32 << ((frame_idx % BITS_PER_WORD) as u32);
    let word = frame_idx / BITS_PER_WORD;
    let current = frames.used_bitmap.get_alloc(word);
    frames.used_bitmap.set(word, current | mask);
}

proof fn lemma_mask_bits(w: u32, a: u32, b: u32)
    by (bit_vector)
    requires
        a < 32,
        b < 32,
    ensures
        ((w | (1u32 << a)) & (1u32 << b) != 0) == ((w & (1u32 << b) != 0) || a == b),
        ((w & !(1u32 << a)) & (1u32 << b) != 0) == ((w & (1u32 << b) != 0) && a != b),
{
}

/// Two frames with the same word and the same bit are the same frame.
proof fn lemma_same_slot(f: u64, g: u64)
    requires
        word_index(f) == word_index(g),
        f % BITS_PER_WORD == g % BITS_PER_WORD,
    ensures
        f == g,
{
}

/// Marking frame `f` allocated marks it and leaves every other frame as it was.
pub proof fn law_mark_used_sets_only_that_frame(m: Map<u64, u32>, f: u64)
    ensures
        forall|g: u64| #[trigger] used_in(after_mark_used(m, f), g) == (used_in(m, g) || g == f),
{
    assert forall|g: u64| #[trigger] used_in(after_mark_used(m, f), g) == (used_in(m, g) || g == f) by {
        if word_index(g) == word_index(f) {
            let a = (f % BITS_PER_WORD) as u32;
            let b = (g % BITS_PER_WORD) as u32;
            lemma_mask_bits(word_in(m, word_index(f)), a, b);
            if a == b {
                lemma_same_slot(f, g);
            }
        }
    }
}

/// Marking frame `f` free clears it and leaves every other frame as it was.
pub proof fn law_mark_free_clears_only_that_frame(m: Map<u64, u32>, f: u64)
    ensures
        forall|g: u64| #[trigger] used_in(after_mark_free(m, f), g) == (used_in(m, g) && g != f),
{
    assert forall|g: u64| #[trigger] used_in(after_mark_free(m, f), g) == (used_in(m, g) && g != f) by {
        if used_in(m, f) && word_index(g) == word_index(f) {
            let a = (f % BITS_PER_WORD) as u32;
            let b = (g % BITS_PER_WORD) as u32;
            lemma_mask_bits(word_in(m, word_index(f)), a, b);
            if a == b {
                lemma_same_slot(f, g);
            }
        }
    }
}

/// A frame just marked allocated is reported allocated by the next
/// `mark_free`, and after it every frame is allocated exactly when it was
/// before the pair of calls, except `f`, which is free.
pub proof fn law_free_after_used(m: Map<u64, u32>, f: u64)
    ensures
        used_in(after_mark_used(m, f), f),
        forall|g: u64|
            #[trigger] used_in(after_mark_free(after_mark_used(m, f), f), g) == (used_in(m, g) && g
                != f),
{
    law_mark_used_sets_only_that_frame(m, f);
    law_mark_free_clears_only_that_frame(after_mark_used(m, f), f);
}

/// A frame freed twice is reported free by the second `mark_free`, which
/// changes nothing.
pub proof fn law_double_free(m: Map<u64, u32>, f: u64)
    ensures
        !used_in(after_mark_free(m, f), f),
        after_mark_free(after_mark_free(m, f), f) == after_mark_free(m, f),
{
    law_mark_free_clears_only_that_frame(m, f);
}

/// Marking a frame allocated twice leaves the same frames allocated as marking it once.
pub proof fn law_mark_used_idempotent(m: Map<u64, u32>, f: u64)
    ensures
        forall|g: u64|
            #[trigger] used_in(after_mark_used(after_mark_used(m, f), f), g) == used_in(
                after_mark_used(m, f),
                g,
            ),
{
    law_mark_used_sets_only_that_frame(m, f);
    law_mark_used_sets_only_that_frame(after_mark_used(m, f), f);
}

/// Adding a reference changes only the count of that frame.
pub proof fn law_ref_changes_only_that_frame(m: Map<u64, u32>, f: u64)
    ensures
        forall|g: u64|
            #[trigger] count_in(after_ref(m, f), g) == if g == f {
                wrapping_inc(count_in(m, f))
            } else {
                count_in(m, g)
            },
{
}

/// The reference counts after `k` more references to frame `f`.
pub open spec fn after_refs(m: Map<u64, u32>, f: u64, k: nat) -> Map<u64, u32>
    decreases k,
{
    if k == 0 {
        m
    } else {
        after_ref(after_refs(m, f, (k - 1) as nat), f)
    }
}

/// `k` successive references to frame `f` raise its count by exactly `k`
/// (no increment is lost) and leave every other count alone, as long as
/// the count does not pass `u32::MAX`.
pub proof fn law_successive_refs(m: Map<u64, u32>, f: u64, k: nat)
    requires
        count_in(m, f) + k <= u32::MAX,
    ensures
        count_in(after_refs(m, f, k), f) == count_in(m, f) + k,
        forall|g: u64| g != f ==> #[trigger] count_in(after_refs(m, f, k), g) == count_in(m, g),
    decreases k,
{
    if k > 0 {
        let prev = after_refs(m, f, (k - 1) as nat);
        law_successive_refs(m, f, (k - 1) as nat);
        assert forall|g: u64| g != f implies #[trigger] count_in(after_refs(m, f, k), g) == count_in(
            m,
            g,
        ) by {
            assert(after_refs(m, f, k) == after_ref(prev, f));
            assert(count_in(prev, g) == count_in(m, g));
        }
    }
}

/// Dropping a reference never takes a count below zero: a zero count stays
/// zero, any other count goes down by one, and other frames keep theirs.
pub proof fn law_deref_never_underflows(m: Map<u64, u32>, f: u64)
    ensures
        forall|g: u64|
            #[trigger] count_in(after_deref(m, f), g) == if g == f && count_in(m, f) != 0 {
                count_in(m, f) - 1
            } else {
                count_in(m, g) as int
            },
{
}

/// Dropping a reference undoes adding one: `deref_frame` right after
/// `ref_frame` returns the raised count, and every count is back where it
/// was, unless the count was about to wrap.
pub proof fn law_deref_undoes_ref(m: Map<u64, u32>, f: u64)
    requires
        count_in(m, f) < u32::MAX,
    ensures
        count_in(after_ref(m, f), f) == count_in(m, f) + 1,
        forall|g: u64| #[trigger] count_in(after_deref(after_ref(m, f), f), g) == count_in(m, g),
{
}

} // verus!
