//! Dynamic memory: the decisions the kernel heap front end makes around the
//! heap proper, and array allocations tracked by base address and element count.
//!
//! The heap itself is outside this library: functions here say what to ask
//! of it and what to make of its answers.
use crate::numfmt::{
    all_digits_below, char_digit_value, digits_value, format_decimal, format_hex,
    law_radix_digits_read_back, radix_digits,
};
use core::marker::PhantomData;
use vstd::string::StringExecFns;
use vstd::prelude::*;

verus! {

/// Which heap an allocation comes from.
#[derive(Clone, Copy, Debug, PartialEq, Eq, Structural)]
pub enum HeapId {
    /// Inaccessible outside of the owning process.
    Local,
    /// Global allocations.
    Global,
}

/// What the heap can answer instead of a block.
#[derive(Clone, Copy, Debug, PartialEq, Eq, Structural)]
pub enum Error {
    Corrupted,
    OutOfReservation,
    OutOfMemory,
}

/// The non-null address handed out for allocations of no bytes.
pub const ZERO_ALLOC: usize = 1;

/// The alignment that C callers of `malloc` get.
pub const MALLOC_ALIGN: usize = 16;

/// A request for `size` bytes aligned to `align`.
#[derive(Clone, Copy, Debug, PartialEq, Eq, Structural)]
pub struct HeapRequest {
    pub size: usize,
    pub align: usize,
}

/// A block at `addr` of `size` bytes aligned to `align`, to be handed back to the heap.
#[derive(Clone, Copy, Debug, PartialEq, Eq, Structural)]
pub struct HeapBlock {
    pub addr: usize,
    pub size: usize,
    pub align: usize,
}

/// The size in bytes of one `T`.
pub open spec fn elem_size<T>() -> nat {
    vstd::layout::size_of::<T>()
}

/// The alignment of `T`.
pub open spec fn elem_align<T>() -> nat {
    vstd::layout::align_of::<T>()
}

/// Sets up the heap; there is nothing to do.
pub fn init() {
}

/// What an allocation from `heap` yields, given the heap's answer: the
/// block's address, or `None` where the heap refused.
///
/// Only the global heap exists; the local heap is not available.
pub fn allocate(heap: HeapId, outcome: Result<usize, Error>) -> (r: Option<usize>)
    requires
        heap == HeapId::Global,
    ensures
        r == match outcome {
            Ok(addr) => Some(addr),
            Err(_) => None::<usize>,
        },
{
    match heap {
        HeapId::Global => match outcome {
            Ok(addr) => Some(addr),
            Err(_) => None,
        },
        HeapId::Local => None,
    }
}

/// The request that C's `malloc(size)` makes of the global heap.
pub fn malloc(size: usize) -> (r: HeapRequest)
    ensures
        r == (HeapRequest { size, align: MALLOC_ALIGN }),
{
    HeapRequest { size, align: MALLOC_ALIGN }
}

/// The block that C's `free(addr)` hands back: none for a null address,
/// else the block at `addr` with size unknown (zero) and `malloc`'s alignment.
pub fn free(addr: usize) -> (r: Option<HeapBlock>)
    ensures
        r == if addr == 0 {
            None::<HeapBlock>
        } else {
            Some(HeapBlock { addr, size: 0, align: MALLOC_ALIGN })
        },
{
    if addr == 0 {
        None
    } else {
        Some(HeapBlock { addr, size: 0, align: MALLOC_ALIGN })
    }
}

/// The request that allocating room for one `T` makes.
pub fn alloc_item<T>() -> (r: HeapRequest)
    ensures
        r.size == elem_size::<T>(),
        r.align == elem_align::<T>(),
{
    HeapRequest { size: core::mem::size_of::<T>(), align: core::mem::align_of::<T>() }
}

/// The block that releasing the `T` at `addr` hands back.
pub fn dealloc<T>(addr: usize) -> (r: HeapBlock)
    ensures
        r.addr == addr,
        r.size == elem_size::<T>(),
        r.align == elem_align::<T>(),
{
    HeapBlock { addr, size: core::mem::size_of::<T>(), align: core::mem::align_of::<T>() }
}

/// The block that freeing a box of `T` at `addr` hands back; none when `T`
/// takes no bytes, since such a box never came from the heap.
pub fn box_free<T>(addr: usize) -> (r: Option<HeapBlock>)
    ensures
        r == if elem_size::<T>() == 0 {
            None::<HeapBlock>
        } else {
            Some(
                HeapBlock {
                    addr,
                    size: elem_size::<T>() as usize,
                    align: elem_align::<T>() as usize,
                },
            )
        },
{
    let size = core::mem::size_of::<T>();
    if size != 0 {
        Some(HeapBlock { addr, size, align: core::mem::align_of::<T>() })
    } else {
        None
    }
}

/// An array of `count` values of `T` that starts at address `base`.
///
/// An empty array, or an array of a type that takes no bytes, owns no heap
/// block and starts at `ZERO_ALLOC`; an array of such a type counts
/// `usize::MAX` elements.
pub struct ArrayAlloc<T> {
    base: usize,
    count: usize,
    marker: PhantomData<T>,
}

/// The number of bytes that `count` values of `T` take.
pub open spec fn array_bytes<T>(count: nat) -> nat {
    elem_size::<T>() * count
}

/// The request `ArrayAlloc::<T>::new(count)` makes of the global heap, if it makes one.
pub open spec fn array_new_request<T>(count: usize) -> Option<HeapRequest> {
    if elem_size::<T>() == 0 || count == 0 {
        None
    } else {
        Some(
            HeapRequest {
                size: array_bytes::<T>(count as nat) as usize,
                align: elem_align::<T>() as usize,
            },
        )
    }
}

/// `ArrayAlloc { 0x<base in hex> + <count> }`
pub open spec fn array_debug_text(base: usize, count: usize) -> Seq<char> {
    debug_text_head() + radix_digits(base as nat, 16) + seq![' ', '+', ' '] + radix_digits(count as nat, 10)
        + seq![' ', '}']
}

/// The text before the base address in a description.
pub open spec fn debug_text_head() -> Seq<char> {
    seq!['A', 'r', 'r', 'a', 'y', 'A', 'l', 'l', 'o', 'c', ' ', '{', ' ', '0', 'x']
}

/// A description names the base in hexadecimal after `0x` and the element
/// count in decimal after ` + `: wherever the description is cut into two
/// runs of digit characters at those places, the first run read in radix
/// sixteen is the base and the second, which holds decimal digits only,
/// read in radix ten is the count.
pub proof fn law_debug_text_reads_back(base: usize, count: usize, h: Seq<char>, d: Seq<char>)
    requires
        array_debug_text(base, count) == debug_text_head() + h + seq![' ', '+', ' '] + d + seq![
            ' ',
            '}',
        ],
        all_digits_below(h, 16),
        all_digits_below(d, 16),
    ensures
        digits_value(h, 16) == base,
        digits_value(d, 10) == count,
        all_digits_below(d, 10),
{
    let hh = radix_digits(base as nat, 16);
    let dd = radix_digits(count as nat, 10);
    law_radix_digits_read_back(base as nat, 16);
    law_radix_digits_read_back(count as nat, 10);
    let sep = seq![' ', '+', ' '];
    let tail = seq![' ', '}'];
    let lhs = debug_text_head() + hh + sep + dd + tail;
    let rhs = debug_text_head() + h + sep + d + tail;
    assert(lhs == array_debug_text(base, count));
    assert(char_digit_value(' ') == -1);
    if h.len() < hh.len() {
        let i: int = 15 + h.len() as int;
        assert(lhs[i] == hh[h.len() as int]);
        assert(rhs[i] == ' ');
        assert(0 <= char_digit_value(hh[h.len() as int]));
        assert(false);
    }
    if h.len() > hh.len() {
        let i: int = 15 + hh.len() as int;
        assert(lhs[i] == ' ');
        assert(rhs[i] == h[hh.len() as int]);
        assert(0 <= char_digit_value(h[hh.len() as int]));
        assert(false);
    }
    assert(h.len() == hh.len());
    assert(h =~= hh) by {
        assert forall|i: int| 0 <= i < h.len() implies h[i] == hh[i] by {
            assert(lhs[15 + i] == hh[i]);
            assert(rhs[15 + i] == h[i]);
        }
    }
    assert(lhs.len() == rhs.len());
    assert(lhs.len() == 15 + hh.len() + 3 + dd.len() + 2);
    assert(rhs.len() == 15 + h.len() + 3 + d.len() + 2);
    assert(d.len() == dd.len());
    assert(d =~= dd) by {
        assert forall|i: int| 0 <= i < d.len() implies d[i] == dd[i] by {
            let j: int = 15 + h.len() + 3 + i;
            assert(lhs[j] == dd[i]);
            assert(rhs[j] == d[i]);
        }
    }
}

impl<T> ArrayAlloc<T> {
    /// The address of the first element.
    pub closed spec fn spec_base(&self) -> usize {
        self.base
    }

    /// The number of elements.
    pub closed spec fn spec_count(&self) -> usize {
        self.count
    }

    /// The base is never null and the elements end inside the address space.
    #[verifier::type_invariant]
    closed spec fn inv(&self) -> bool {
        &&& self.base != 0
        &&& self.base + array_bytes::<T>(self.count as nat) <= usize::MAX
    }

    /// The request that `new(count)` makes of the global heap: none for a
    /// type that takes no bytes or for no elements, else room for `count`
    /// elements at the alignment of `T`.
    pub fn new_request(count: usize) -> (r: Option<HeapRequest>)
        requires
            array_bytes::<T>(count as nat) <= usize::MAX,
        ensures
            r == array_new_request::<T>(count),
    {
        let size = core::mem::size_of::<T>();
        if size == 0 || count == 0 {
            None
        } else {
            Some(HeapRequest { size: size * count, align: core::mem::align_of::<T>() })
        }
    }

    /// An array of `count` elements, given what the heap answered to
    /// `new_request(count)` (`allocation` is ignored where no request is made).
    pub fn new(count: usize, allocation: Option<usize>) -> (a: ArrayAlloc<T>)
        requires
            array_bytes::<T>(count as nat) <= usize::MAX,
            array_new_request::<T>(count) is Some ==> {
                &&& allocation is Some
                &&& allocation.unwrap() != 0
                &&& allocation.unwrap() + array_bytes::<T>(count as nat) <= usize::MAX
            },
        ensures
            elem_size::<T>() == 0 ==> a.spec_base() == ZERO_ALLOC && a.spec_count() == usize::MAX,
            elem_size::<T>() != 0 && count == 0 ==> a.spec_base() == ZERO_ALLOC && a.spec_count()
                == 0,
            array_new_request::<T>(count) is Some ==> a.spec_base() == allocation.unwrap()
                && a.spec_count() == count,
    {
        let size = core::mem::size_of::<T>();
        if size == 0 {
            ArrayAlloc { base: ZERO_ALLOC, count: usize::MAX, marker: PhantomData }
        } else if count == 0 {
            ArrayAlloc { base: ZERO_ALLOC, count: 0, marker: PhantomData }
        } else {
            match allocation {
                Some(base) => ArrayAlloc { base, count, marker: PhantomData },
                None => ArrayAlloc { base: ZERO_ALLOC, count: 0, marker: PhantomData },
            }
        }
    }

    /// An array over `count` elements already placed at `base`.
    pub fn from_raw(base: usize, count: usize) -> (a: ArrayAlloc<T>)
        requires
            base != 0,
            base + array_bytes::<T>(count as nat) <= usize::MAX,
        ensures
            a.spec_base() == base,
            a.spec_count() == count,
    {
        ArrayAlloc { base, count, marker: PhantomData }
    }

    /// Gives up the array, returning its base address and element count.
    pub fn into_raw(self) -> (r: (usize, usize))
        ensures
            r == (self.spec_base(), self.spec_count()),
            r.0 != 0,
            r.0 + array_bytes::<T>(r.1 as nat) <= usize::MAX,
    {
        proof {
            use_type_invariant(&self);
        }
        (self.base, self.count)
    }

    /// The number of elements.
    pub fn count(&self) -> (r: usize)
        ensures
            r == self.spec_count(),
    {
        self.count
    }

    /// The address of the first element.
    pub fn get_base(&self) -> (r: usize)
        ensures
            r == self.spec_base(),
    {
        self.base
    }

    /// The address of the first element, for writing.
    pub fn get_base_mut(&mut self) -> (r: usize)
        ensures
            r == old(self).spec_base(),
            final(self).spec_base() == old(self).spec_base(),
            final(self).spec_count() == old(self).spec_count(),
    {
        self.base
    }

    /// The address of element `idx`, which lies inside the array.
    pub fn get_ptr(&self, idx: usize) -> (r: usize)
        requires
            idx < self.spec_count(),
        ensures
            r == self.spec_base() + elem_size::<T>() * idx,
            self.spec_base() <= r,
            r + elem_size::<T>() <= self.spec_base() + array_bytes::<T>(self.spec_count() as nat),
    {
        proof {
            use_type_invariant(self);
            lemma_element_in_array(elem_size::<T>(), idx as nat, self.count as nat);
        }
        self.base + core::mem::size_of::<T>() * idx
    }

    /// The address of element `idx`, for writing.
    pub fn get_ptr_mut(&mut self, idx: usize) -> (r: usize)
        requires
            idx < old(self).spec_count(),
        ensures
            r == old(self).spec_base() + elem_size::<T>() * idx,
            final(self).spec_base() == old(self).spec_base(),
            final(self).spec_count() == old(self).spec_count(),
    {
        self.get_ptr(idx)
    }

    /// The size in bytes that `expand(new_count, ..)` asks the heap to grow
    /// the block to in place: none where `new_count` does not exceed the
    /// current count, since no growth is needed.
    pub fn expand_request(&self, new_count: usize) -> (r: Option<usize>)
        requires
            new_count > self.spec_count() ==> array_bytes::<T>(new_count as nat) <= usize::MAX,
        ensures
            r == if new_count > self.spec_count() {
                Some(array_bytes::<T>(new_count as nat) as usize)
            } else {
                None::<usize>
            },
    {
        if new_count > self.count {
            Some(core::mem::size_of::<T>() * new_count)
        } else {
            None
        }
    }

    /// Tries to grow the array to `new_count` elements without moving it,
    /// given whether the heap grew the block as `expand_request` asked.
    /// Returns true when the array holds at least `new_count` elements
    /// afterwards; a count that already suffices is kept.
    pub fn expand(&mut self, new_count: usize, grown_in_place: bool) -> (r: bool)
        requires
            new_count > old(self).spec_count() && grown_in_place ==> old(self).spec_base()
                + array_bytes::<T>(new_count as nat) <= usize::MAX,
        ensures
            r == (new_count <= old(self).spec_count() || grown_in_place),
            final(self).spec_base() == old(self).spec_base(),
            final(self).spec_count() == if new_count > old(self).spec_count() && grown_in_place {
                new_count
            } else {
                old(self).spec_count()
            },
            final(self).spec_count() >= old(self).spec_count(),
    {
        proof {
            use_type_invariant(&*self);
        }
        if new_count > self.count {
            if grown_in_place {
                self.count = new_count;
                true
            } else {
                false
            }
        } else {
            true
        }
    }

    /// Shrinks the array to `new_count` elements; returns the size in bytes
    /// that the heap block is to be shrunk to, or `None` where `new_count`
    /// is not below the current count and nothing changes.
    pub fn shrink(&mut self, new_count: usize) -> (r: Option<usize>)
        ensures
            final(self).spec_base() == old(self).spec_base(),
            new_count < old(self).spec_count() ==> final(self).spec_count() == new_count && r
                == Some(array_bytes::<T>(new_count as nat) as usize),
            new_count >= old(self).spec_count() ==> final(self).spec_count() == old(
                self,
            ).spec_count() && r == None::<usize>,
            final(self).spec_count() <= old(self).spec_count(),
    {
        proof {
            use_type_invariant(&*self);
        }
        if new_count < self.count {
            proof {
                lemma_fewer_bytes(elem_size::<T>(), new_count as nat, self.count as nat);
            }
            let newsize = core::mem::size_of::<T>() * new_count;
            self.count = new_count;
            Some(newsize)
        } else {
            None
        }
    }

    /// A one-line description: the base address in hex and the element count.
    pub fn debug_text(&self) -> (s: String)
        ensures
            s@ == array_debug_text(self.spec_base(), self.spec_count()),
    {
        proof {
            reveal_strlit("ArrayAlloc { 0x");
            reveal_strlit(" + ");
            reveal_strlit(" }");
        }
        let mut s = String::from_str("ArrayAlloc { 0x");
        let base = format_hex(self.base as u64);
        s.append(base.as_str());
        s.append(" + ");
        let count = format_decimal(self.count as u64);
        s.append(count.as_str());
        s.append(" }");
        assert(s@ =~= array_debug_text(self.spec_base(), self.spec_count()));
        s
    }

    /// The heap block the array gives back when it is dropped: none for an
    /// empty array, else its base with the bytes of all its elements.
    pub fn release(&self) -> (r: Option<HeapBlock>)
        ensures
            r == if self.spec_count() > 0 {
                Some(
                    HeapBlock {
                        addr: self.spec_base(),
                        size: array_bytes::<T>(self.spec_count() as nat) as usize,
                        align: elem_align::<T>() as usize,
                    },
                )
            } else {
                None::<HeapBlock>
            },
    {
        proof {
            use_type_invariant(self);
        }
        if self.count > 0 {
            Some(
                HeapBlock {
                    addr: self.base,
                    size: core::mem::size_of::<T>() * self.count,
                    align: core::mem::align_of::<T>(),
                },
            )
        } else {
            None
        }
    }
}

/// Distinct elements of an array occupy disjoint bytes: element `i` ends
/// at or before the start of any later element `j`.
pub proof fn law_elements_disjoint<T>(a: ArrayAlloc<T>, i: nat, j: nat)
    requires
        i < j < a.spec_count(),
    ensures
        a.spec_base() + elem_size::<T>() * i + elem_size::<T>() <= a.spec_base() + elem_size::<T>()
            * j,
{
    lemma_element_in_array(elem_size::<T>(), i, j);
}

proof fn lemma_element_in_array(size: nat, idx: nat, count: nat)
    requires
        idx < count,
    ensures
        size * idx + size <= size * count,
{
    assert(size * idx + size == size * (idx + 1)) by (nonlinear_arith);
    assert(size * (idx + 1) <= size * count) by (nonlinear_arith)
        requires
            idx + 1 <= count,
    ;
}

proof fn lemma_fewer_bytes(size: nat, fewer: nat, count: nat)
    requires
        fewer <= count,
    ensures
        size * fewer <= size * count,
{
    assert(size * fewer <= size * count) by (nonlinear_arith)
        requires
            fewer <= count,
    ;
}

} // verus!
