//! Statistics about heap objects: which are live, how large they are, and
//! which of them tagged code has touched.

use crate::text::{append_decimal, decimal};
use crate::SkipTracking;
use std::collections::btree_map::Range;
use std::collections::{BTreeMap, BTreeSet};
use vstd::prelude::*;
use vstd::wrapping::usize_specs;

verus! {

/// Number of size classes. Class `i` below the last holds the objects of at
/// most `2^i` KiB that fit no smaller class; the last class holds the rest.
pub const OBJ_SIZE_NUM: usize = 14;

/// Greatest size, in bytes, of an object of size class `class`, for the
/// classes below the last: 1 KiB for class zero, twice as much for each
/// class after it.
pub open spec fn class_limit(class: int) -> int
    decreases class,
{
    if class <= 0 {
        1024
    } else {
        2 * class_limit(class - 1)
    }
}

/// The first class at or after `class` whose limit holds `size`; the last
/// class where none does.
pub open spec fn class_from(size: usize, class: int) -> int
    decreases OBJ_SIZE_NUM - 1 - class,
{
    if class >= OBJ_SIZE_NUM - 1 {
        OBJ_SIZE_NUM - 1
    } else if size <= class_limit(class) {
        class
    } else {
        class_from(size, class + 1)
    }
}

/// The size class of an object of `size` bytes.
pub open spec fn size_class(size: usize) -> int {
    class_from(size, 0)
}

/// The live object at `base` holds `addr`: no live object has a greater base
/// address at or below `addr`, and `addr` lies within its size.
pub open spec fn covers(objs: Map<usize, usize>, base: usize, addr: usize) -> bool {
    &&& objs.contains_key(base)
    &&& base <= addr < base + objs[base]
    &&& forall|k: usize| objs.contains_key(k) && k <= addr ==> k <= base
}

/// Base address and size of the live object that holds `addr`, if there is
/// one.
pub open spec fn owner(objs: Map<usize, usize>, addr: usize) -> Option<(usize, usize)> {
    if exists|base: usize| covers(objs, base, addr) {
        let base = choose|base: usize| covers(objs, base, addr);
        Some((base, objs[base]))
    } else {
        None
    }
}

/// What a heap tracker holds, as plain values.
pub struct HeapView {
    /// Bytes allocated.
    pub total_usage: usize,
    /// Number of allocations, of reallocations that moved their object, and
    /// of deallocations.
    pub total_alloc: usize,
    pub total_realloc: usize,
    pub total_dealloc: usize,
    /// Size of each live object, by base address.
    pub live_objs: Map<usize, usize>,
    /// Number and bytes of the objects that tagged code has touched.
    pub total_unsafe_objs: usize,
    pub unsafe_mem: usize,
    /// Base addresses of the live objects that tagged code has touched.
    pub live_unsafe_objs: Set<usize>,
    /// Number of accesses to live objects, and of loads and stores of tagged
    /// code to live objects.
    pub total_mem_insts: usize,
    pub unsafe_load: usize,
    pub unsafe_store: usize,
    /// Number of objects per size class: all objects, and those that tagged
    /// code has touched.
    pub size_histogram: Seq<usize>,
    pub unsafe_size_histogram: Seq<usize>,
    /// Whether the report has been handed out.
    pub report_written: bool,
}

/// `histogram` with one more object in class `class`.
pub open spec fn bumped(histogram: Seq<usize>, class: int) -> Seq<usize> {
    histogram.update(class, usize_specs::wrapping_add(histogram[class], 1))
}

impl HeapView {
    /// An access to `ptr` is counted if a live object holds `ptr`.
    pub open spec fn access(self, ptr: usize) -> HeapView {
        if owner(self.live_objs, ptr) is Some {
            HeapView {
                total_mem_insts: usize_specs::wrapping_add(self.total_mem_insts, 1),
                ..self
            }
        } else {
            self
        }
    }

    /// The object at `base` with `size` bytes joins the objects that tagged
    /// code has touched. Where it was not among them, its bytes, the object
    /// itself and its size class are counted.
    pub open spec fn tag(self, base: usize, size: usize) -> HeapView {
        if self.live_unsafe_objs.contains(base) {
            self
        } else {
            (HeapView {
                live_unsafe_objs: self.live_unsafe_objs.insert(base),
                unsafe_mem: usize_specs::wrapping_add(self.unsafe_mem, size),
                total_unsafe_objs: usize_specs::wrapping_add(self.total_unsafe_objs, 1),
                ..self
            }).classify(size, true)
        }
    }

    /// Tagged code loads from `ptr`, or stores to it. Where a live object
    /// holds `ptr`, the object is tagged and the load or store is counted.
    pub open spec fn access_unsafe(self, ptr: usize, is_load: bool) -> HeapView {
        match owner(self.live_objs, ptr) {
            Some((base, size)) => {
                let tagged = self.tag(base, size);
                if is_load {
                    HeapView {
                        unsafe_load: usize_specs::wrapping_add(tagged.unsafe_load, 1),
                        ..tagged
                    }
                } else {
                    HeapView {
                        unsafe_store: usize_specs::wrapping_add(tagged.unsafe_store, 1),
                        ..tagged
                    }
                }
            },
            None => self,
        }
    }

    /// An allocation of `size` bytes has given `ptr`, zero where it failed.
    pub open spec fn allocated(self, ptr: usize, size: usize) -> HeapView {
        if ptr != 0 {
            (HeapView {
                total_usage: usize_specs::wrapping_add(self.total_usage, size),
                total_alloc: usize_specs::wrapping_add(self.total_alloc, 1),
                ..self
            }).classify(size, false).insert(ptr, size)
        } else {
            self
        }
    }

    /// The object at `ptr` is given back.
    pub open spec fn deallocated(self, ptr: usize) -> HeapView {
        (HeapView {
            total_dealloc: usize_specs::wrapping_add(self.total_dealloc, 1),
            ..self
        }).remove(ptr)
    }

    /// The object at `ptr` has been resized to `new_size` bytes and is now
    /// at `new_ptr`: the live objects follow, and an object that has moved
    /// is counted as a reallocation and in its new size class.
    pub open spec fn moved(self, ptr: usize, new_ptr: usize, new_size: usize) -> HeapView {
        if new_ptr != ptr {
            (HeapView {
                total_realloc: usize_specs::wrapping_add(self.total_realloc, 1),
                ..self.remove(ptr)
            }).classify(new_size, false).insert(new_ptr, new_size)
        } else {
            self.insert(new_ptr, new_size)
        }
    }

    /// The report has been asked for.
    pub open spec fn reported(self) -> HeapView {
        HeapView { report_written: true, ..self }
    }

    /// The bytes allocated follow a change of an object's size from
    /// `old_size` to `new_size`.
    pub open spec fn resized(self, old_size: usize, new_size: usize) -> HeapView {
        HeapView {
            total_usage: if new_size > old_size {
                usize_specs::wrapping_add(self.total_usage, (new_size - old_size) as usize)
            } else {
                usize_specs::wrapping_sub(self.total_usage, (old_size - new_size) as usize)
            },
            ..self
        }
    }

    /// An object of `size` bytes is counted in its size class.
    pub open spec fn classify(self, size: usize, is_unsafe: bool) -> HeapView {
        if is_unsafe {
            HeapView {
                unsafe_size_histogram: bumped(self.unsafe_size_histogram, size_class(size)),
                ..self
            }
        } else {
            HeapView { size_histogram: bumped(self.size_histogram, size_class(size)), ..self }
        }
    }

    /// The object at `ptr` is recorded as live with `size` bytes.
    pub open spec fn insert(self, ptr: usize, size: usize) -> HeapView {
        HeapView { live_objs: self.live_objs.insert(ptr, size), ..self }
    }

    /// The object at `ptr` is live no longer, and no longer among the
    /// objects that tagged code has touched.
    pub open spec fn remove(self, ptr: usize) -> HeapView {
        HeapView {
            live_objs: self.live_objs.remove(ptr),
            live_unsafe_objs: self.live_unsafe_objs.remove(ptr),
            ..self
        }
    }
}

/// A copy of the counters and histograms of a heap tracker.
#[derive(Clone, Copy, Debug)]
pub struct HeapStats {
    pub total_usage: usize,
    pub total_alloc: usize,
    pub total_realloc: usize,
    pub total_dealloc: usize,
    pub total_unsafe_objs: usize,
    pub unsafe_mem: usize,
    pub total_mem_insts: usize,
    pub unsafe_load: usize,
    pub unsafe_store: usize,
    pub size_histogram: [usize; 14],
    pub unsafe_size_histogram: [usize; 14],
}

/// Core struct to collect heap data.
pub struct HeapTracker {
    total_usage: usize,
    total_alloc: usize,
    total_realloc: usize,
    total_dealloc: usize,
    live_objs: BTreeMap<usize, usize>,
    total_unsafe_objs: usize,
    unsafe_mem: usize,
    live_unsafe_objs: BTreeSet<usize>,
    total_mem_insts: usize,
    unsafe_load: usize,
    unsafe_store: usize,
    size_histogram: [usize; 14],
    unsafe_size_histogram: [usize; 14],
    report_written: bool,
}

impl View for HeapTracker {
    type V = HeapView;

    closed spec fn view(&self) -> HeapView {
        HeapView {
            total_usage: self.total_usage,
            total_alloc: self.total_alloc,
            total_realloc: self.total_realloc,
            total_dealloc: self.total_dealloc,
            live_objs: self.live_objs@,
            total_unsafe_objs: self.total_unsafe_objs,
            unsafe_mem: self.unsafe_mem,
            live_unsafe_objs: self.live_unsafe_objs@,
            total_mem_insts: self.total_mem_insts,
            unsafe_load: self.unsafe_load,
            unsafe_store: self.unsafe_store,
            size_histogram: self.size_histogram@,
            unsafe_size_histogram: self.unsafe_size_histogram@,
            report_written: self.report_written,
        }
    }
}

/// The iterator over a range of a `BTreeMap` that `BTreeMap::range` gives.
#[verifier::external_type_specification]
#[verifier::external_body]
#[verifier::reject_recursive_types(K)]
#[verifier::reject_recursive_types(V)]
pub struct ExRange<'a, K, V>(Range<'a, K, V>);

/// The entries that a range over a map of objects has yet to yield, in the
/// order in which it yields them from the front.
pub uninterp spec fn range_entries(range: Range<'_, usize, usize>) -> Seq<(usize, usize)>;

/// `BTreeMap::range` with the bounds `..=addr`: the entries of `objs` whose
/// key is at most `addr`, each once, in ascending order of their keys.
#[verifier::external_body]
fn range_up_to<'a>(objs: &'a BTreeMap<usize, usize>, addr: usize) -> (range: Range<
    'a,
    usize,
    usize,
>)
    ensures
        forall|i: int|
            0 <= i < range_entries(range).len() ==> {
                let (key, value) = #[trigger] range_entries(range)[i];
                objs@.contains_key(key) && objs@[key] == value && key <= addr
            },
        forall|i: int, j: int|
            0 <= i < j < range_entries(range).len() ==> (#[trigger] range_entries(range)[i]).0 < (
            #[trigger] range_entries(range)[j]).0,
        forall|key: usize|
            objs@.contains_key(key) && key <= addr ==> exists|i: int|
                0 <= i < range_entries(range).len() && (#[trigger] range_entries(range)[i]).0
                    == key,
{
    objs.range(..=addr)
}

/// `Iterator::last` on a range: the last of the entries that the range has
/// yet to yield, if there is one.
#[verifier::external_body]
fn last_of(range: Range<'_, usize, usize>) -> (entry: Option<(usize, usize)>)
    ensures
        entry == if range_entries(range).len() > 0 {
            Some(range_entries(range).last())
        } else {
            None
        },
{
    match range.last() {
        Some((key, value)) => Some((*key, *value)),
        None => None,
    }
}

/// The entry of `objs` with the greatest key at or below `addr`.
fn last_at_or_below(objs: &BTreeMap<usize, usize>, addr: usize) -> (found: Option<(usize, usize)>)
    ensures
        match found {
            Some((base, size)) => {
                &&& objs@.contains_key(base)
                &&& objs@[base] == size
                &&& base <= addr
                &&& forall|k: usize| objs@.contains_key(k) && k <= addr ==> k <= base
            },
            None => forall|k: usize| objs@.contains_key(k) ==> k > addr,
        },
{
    let range = range_up_to(objs, addr);
    let ghost entries = range_entries(range);
    let found = last_of(range);
    proof {
        assert forall|k: usize| objs@.contains_key(k) && k <= addr implies entries.len() > 0
            && k <= entries.last().0 by {
            let i = choose|i: int| 0 <= i < entries.len() && (#[trigger] entries[i]).0 == k;
            if i < entries.len() - 1 {
                assert(entries[i].0 < entries[entries.len() - 1].0);
            }
        }
    }
    found
}

impl HeapTracker {
    /// A tracker that has seen nothing.
    pub fn new() -> (tracker: Self)
        ensures
            tracker@ == (HeapView {
                total_usage: 0,
                total_alloc: 0,
                total_realloc: 0,
                total_dealloc: 0,
                live_objs: Map::empty(),
                total_unsafe_objs: 0,
                unsafe_mem: 0,
                live_unsafe_objs: Set::empty(),
                total_mem_insts: 0,
                unsafe_load: 0,
                unsafe_store: 0,
                size_histogram: Seq::new(OBJ_SIZE_NUM as nat, |i: int| 0usize),
                unsafe_size_histogram: Seq::new(OBJ_SIZE_NUM as nat, |i: int| 0usize),
                report_written: false,
            }),
    {
        let tracker = HeapTracker {
            total_usage: 0,
            total_alloc: 0,
            total_realloc: 0,
            total_dealloc: 0,
            live_objs: BTreeMap::new(),
            total_unsafe_objs: 0,
            unsafe_mem: 0,
            live_unsafe_objs: BTreeSet::new(),
            total_mem_insts: 0,
            unsafe_load: 0,
            unsafe_store: 0,
            size_histogram: [0; 14],
            unsafe_size_histogram: [0; 14],
            report_written: false,
        };
        assert(tracker.size_histogram@ =~= Seq::new(OBJ_SIZE_NUM as nat, |i: int| 0usize));
        assert(tracker.unsafe_size_histogram@ =~= Seq::new(OBJ_SIZE_NUM as nat, |i: int| 0usize));
        tracker
    }

    /// The counters and histograms.
    pub fn stats(&self) -> (stats: HeapStats)
        ensures
            stats.total_usage == self@.total_usage,
            stats.total_alloc == self@.total_alloc,
            stats.total_realloc == self@.total_realloc,
            stats.total_dealloc == self@.total_dealloc,
            stats.total_unsafe_objs == self@.total_unsafe_objs,
            stats.unsafe_mem == self@.unsafe_mem,
            stats.total_mem_insts == self@.total_mem_insts,
            stats.unsafe_load == self@.unsafe_load,
            stats.unsafe_store == self@.unsafe_store,
            stats.size_histogram@ == self@.size_histogram,
            stats.unsafe_size_histogram@ == self@.unsafe_size_histogram,
    {
        HeapStats {
            total_usage: self.total_usage,
            total_alloc: self.total_alloc,
            total_realloc: self.total_realloc,
            total_dealloc: self.total_dealloc,
            total_unsafe_objs: self.total_unsafe_objs,
            unsafe_mem: self.unsafe_mem,
            total_mem_insts: self.total_mem_insts,
            unsafe_load: self.unsafe_load,
            unsafe_store: self.unsafe_store,
            size_histogram: self.size_histogram,
            unsafe_size_histogram: self.unsafe_size_histogram,
        }
    }

    /// The size of the live object whose base address is `ptr`.
    pub fn live_size(&self, ptr: usize) -> (size: Option<usize>)
        ensures
            size == if self@.live_objs.contains_key(ptr) {
                Some(self@.live_objs[ptr])
            } else {
                None
            },
    {
        match self.live_objs.get(&ptr) {
            Some(size) => Some(*size),
            None => None,
        }
    }

    /// Whether tagged code has touched the live object whose base address is
    /// `ptr`.
    pub fn is_unsafe_obj(&self, ptr: usize) -> (touched: bool)
        ensures
            touched == self@.live_unsafe_objs.contains(ptr),
    {
        self.live_unsafe_objs.contains(&ptr)
    }

    /// Records the object at `ptr` as live with `size` bytes, unless the
    /// calling thread is inside the tracker already.
    pub fn insert_obj(&mut self, skip: &mut SkipTracking, ptr: usize, size: usize)
        ensures
            final(skip).is_set() == old(skip).is_set(),
            final(self)@ == if old(skip).is_set() {
                old(self)@
            } else {
                old(self)@.insert(ptr, size)
            },
    {
        if skip.get() {
            return ;
        }
        skip.set(true);
        self.live_objs.insert(ptr, size);
        skip.set(false);
    }

    /// Takes the object at `ptr` out of the live objects and out of the
    /// objects that tagged code has touched, unless the calling thread is
    /// inside the tracker already.
    pub fn remove_obj(&mut self, skip: &mut SkipTracking, ptr: usize)
        ensures
            final(skip).is_set() == old(skip).is_set(),
            final(self)@ == if old(skip).is_set() {
                old(self)@
            } else {
                old(self)@.remove(ptr)
            },
    {
        if skip.get() {
            return ;
        }
        skip.set(true);
        self.live_objs.remove(&ptr);
        self.live_unsafe_objs.remove(&ptr);
        skip.set(false);
    }

    /// Base address and size of the live object that holds `ptr`. `None`
    /// where no live object holds it, and for a thread that is inside the
    /// tracker already.
    pub fn find_heap_obj(&self, skip: &mut SkipTracking, ptr: usize) -> (found: Option<
        (usize, usize),
    >)
        ensures
            final(skip).is_set() == old(skip).is_set(),
            found == if old(skip).is_set() {
                None
            } else {
                owner(self@.live_objs, ptr)
            },
    {
        if skip.get() {
            return None;
        }
        skip.set(true);
        let found = match last_at_or_below(&self.live_objs, ptr) {
            Some((base, size)) => {
                if ptr - base < size {
                    assert(covers(self@.live_objs, base, ptr));
                    Some((base, size))
                } else {
                    None
                }
            },
            None => None,
        };
        skip.set(false);
        found
    }

    /// Whether a live object holds `ptr`; an access to such an object is
    /// counted. For a thread that is inside the tracker already no object is
    /// found, and nothing is counted.
    pub fn access_heap_obj(&mut self, skip: &mut SkipTracking, ptr: usize) -> (found: bool)
        ensures
            final(skip).is_set() == old(skip).is_set(),
            found == (!old(skip).is_set() && owner(old(self)@.live_objs, ptr) is Some),
            final(self)@ == if old(skip).is_set() {
                old(self)@
            } else {
                old(self)@.access(ptr)
            },
    {
        if self.find_heap_obj(skip, ptr).is_some() {
            self.total_mem_insts = self.total_mem_insts.wrapping_add(1);
            true
        } else {
            false
        }
    }

    /// Tagged code loads from `ptr`, or stores to it. Where a live object
    /// holds `ptr`, the object joins the objects that tagged code has
    /// touched, is counted if it is new among them, and the load or store is
    /// counted. Nothing happens for a thread that is inside the tracker
    /// already.
    pub fn access_unsafe_heap_obj(&mut self, skip: &mut SkipTracking, ptr: usize, is_load: bool)
        ensures
            final(skip).is_set() == old(skip).is_set(),
            final(self)@ == if old(skip).is_set() {
                old(self)@
            } else {
                old(self)@.access_unsafe(ptr, is_load)
            },
    {
        if let Some((base_addr, size)) = self.find_heap_obj(skip, ptr) {
            if skip.get() {
                return ;
            }
            skip.set(true);
            if self.live_unsafe_objs.insert(base_addr) {
                self.unsafe_mem = self.unsafe_mem.wrapping_add(size);
                self.total_unsafe_objs = self.total_unsafe_objs.wrapping_add(1);
                self.classify_obj_by_size(size, true);
            } else {
                assert(self.live_unsafe_objs@ =~= old(self).live_unsafe_objs@);
            }
            if is_load {
                self.unsafe_load = self.unsafe_load.wrapping_add(1);
            } else {
                self.unsafe_store = self.unsafe_store.wrapping_add(1);
            }
            skip.set(false);
        }
    }

    /// Records the outcome of an allocation of `size` bytes that has given
    /// `ptr`, zero where it failed: the bytes, the allocation and its size
    /// class are counted, and the object is live. Nothing is recorded of a
    /// failed allocation, nor for a thread that is inside the tracker
    /// already.
    pub fn allocate(&mut self, skip: &mut SkipTracking, ptr: usize, size: usize)
        ensures
            final(skip).is_set() == old(skip).is_set(),
            final(self)@ == if old(skip).is_set() {
                old(self)@
            } else {
                old(self)@.allocated(ptr, size)
            },
    {
        if ptr != 0 && !skip.get() {
            self.total_usage = self.total_usage.wrapping_add(size);
            self.total_alloc = self.total_alloc.wrapping_add(1);
            self.classify_obj_by_size(size, false);
            self.insert_obj(skip, ptr, size);
        }
    }

    /// Records that the object at `ptr` is given back: the deallocation is
    /// counted and the object is live no longer. Nothing is recorded for a
    /// thread that is inside the tracker already.
    pub fn dealloc(&mut self, skip: &mut SkipTracking, ptr: usize)
        ensures
            final(skip).is_set() == old(skip).is_set(),
            final(self)@ == if old(skip).is_set() {
                old(self)@
            } else {
                old(self)@.deallocated(ptr)
            },
    {
        if !skip.get() {
            self.total_dealloc = self.total_dealloc.wrapping_add(1);
            self.remove_obj(skip, ptr);
        }
    }

    /// Records the outcome of an allocation of `size` zeroed bytes, as
    /// `allocate` does.
    pub fn alloc_zeroed(&mut self, skip: &mut SkipTracking, ptr: usize, size: usize)
        ensures
            final(skip).is_set() == old(skip).is_set(),
            final(self)@ == if old(skip).is_set() {
                old(self)@
            } else {
                old(self)@.allocated(ptr, size)
            },
    {
        if ptr != 0 && !skip.get() {
            self.total_usage = self.total_usage.wrapping_add(size);
            self.total_alloc = self.total_alloc.wrapping_add(1);
            self.classify_obj_by_size(size, false);
            self.insert_obj(skip, ptr, size);
        }
    }

    /// Records the outcome of resizing the object of `old_size` bytes at
    /// `ptr` to `new_size` bytes, which has given `new_ptr`, zero where it
    /// failed: the live objects follow the move, and the bytes allocated
    /// follow the change of size. Nothing is recorded of a failure, nor for
    /// a thread that is inside the tracker already.
    pub fn realloc(
        &mut self,
        skip: &mut SkipTracking,
        ptr: usize,
        old_size: usize,
        new_ptr: usize,
        new_size: usize,
    )
        ensures
            final(skip).is_set() == old(skip).is_set(),
            final(self)@ == if new_ptr == 0 || old(skip).is_set() {
                old(self)@
            } else {
                old(self)@.moved(ptr, new_ptr, new_size).resized(old_size, new_size)
            },
    {
        if new_ptr == 0 || skip.get() {
            return ;
        }
        if new_ptr != ptr {
            self.remove_obj(skip, ptr);
            self.total_realloc = self.total_realloc.wrapping_add(1);
            self.classify_obj_by_size(new_size, false);
        }
        self.insert_obj(skip, new_ptr, new_size);
        if new_size > old_size {
            self.total_usage = self.total_usage.wrapping_add(new_size - old_size);
        } else {
            self.total_usage = self.total_usage.wrapping_sub(old_size - new_size);
        }
    }

    /// The counts of a histogram in decimal, separated by `"; "`.
    pub fn size_hisogram_to_str(size_histogram: &[usize; 14]) -> (text: String)
        ensures
            text@ == histogram_text(size_histogram@),
    {
        let mut text = String::new();
        let mut i: usize = 0;
        while i < OBJ_SIZE_NUM
            invariant
                i <= OBJ_SIZE_NUM,
                text@ == histogram_text(size_histogram@.take(i as int)),
            decreases OBJ_SIZE_NUM - i,
        {
            if i > 0 {
                text.append("; ");
            }
            append_decimal(&mut text, size_histogram[i] as u64);
            i += 1;
            proof {
                let taken = size_histogram@.take(i as int);
                assert(taken.drop_last() =~= size_histogram@.take(i - 1));
                assert(taken.last() == size_histogram@[i - 1]);
                lemma_decimal_not_empty(size_histogram@[i - 1] as nat);
                assert(text@ =~= histogram_text(taken));
            }
        }
        assert(size_histogram@.take(OBJ_SIZE_NUM as int) =~= size_histogram@);
        text
    }

    /// Hands out the heap report, once: the first call gives the report as
    /// text, every later call gives `None`. The counters and the live
    /// objects are never changed. The calling thread's flag is raised while
    /// the text is put together and is given back as it came.
    pub fn dump_stats(&mut self, skip: &mut SkipTracking) -> (report: Option<String>)
        ensures
            final(skip).is_set() == old(skip).is_set(),
            final(self)@ == old(self)@.reported(),
            match report {
                Some(text) => !old(self)@.report_written && text@ == heap_report_text(
                    old(self)@,
                ),
                None => old(self)@.report_written,
            },
    {
        if self.report_written {
            return None;
        }
        self.report_written = true;
        let was_raised = skip.get();
        skip.set(true);
        let size_histo = Self::size_hisogram_to_str(&self.size_histogram);
        let unsafe_size_histo = Self::size_hisogram_to_str(&self.unsafe_size_histogram);
        let mut text = String::new();
        text.append("\n===== Heap Usage Statistics =====\nTotal heap usage: ");
        append_decimal(&mut text, self.total_usage as u64);
        text.append(" bytes\nTotal heap allocations: ");
        append_decimal(&mut text, self.total_alloc as u64);
        text.append("\nTotal heap re-allocations: ");
        append_decimal(&mut text, self.total_realloc as u64);
        text.append("\nTotal heap deallocations: ");
        append_decimal(&mut text, self.total_dealloc as u64);
        text.append("\nUnsafe heap memory: ");
        append_decimal(&mut text, self.unsafe_mem as u64);
        text.append("\nUnsafe heap objects: ");
        append_decimal(&mut text, self.total_unsafe_objs as u64);
        text.append("\nUnsafe memory instructions: ");
        append_decimal(&mut text, self.total_mem_insts as u64);
        text.append("\nUnsafe load: ");
        append_decimal(&mut text, self.unsafe_load as u64);
        text.append("\nUnsafe store: ");
        append_decimal(&mut text, self.unsafe_store as u64);
        text.append("\nSize histogram: ");
        text.append(size_histo.as_str());
        text.append("\nUnsafe size histogram: ");
        text.append(unsafe_size_histo.as_str());
        text.append("\n");
        skip.set(was_raised);
        assert(text@ =~= heap_report_text(old(self)@));
        Some(text)
    }

    /// Counts an object of `size` bytes in its size class: among the objects
    /// that tagged code has touched if `is_unsafe`, among all objects
    /// otherwise.
    pub fn classify_obj_by_size(&mut self, size: usize, is_unsafe: bool)
        ensures
            final(self)@ == old(self)@.classify(size, is_unsafe),
    {
        let mut class: usize = OBJ_SIZE_NUM - 1;
        let mut i: usize = 0;
        while i < OBJ_SIZE_NUM - 1
            invariant_except_break
                class == OBJ_SIZE_NUM - 1,
                class_from(size, i as int) == size_class(size),
            invariant
                i <= OBJ_SIZE_NUM - 1,
            ensures
                class < OBJ_SIZE_NUM,
                class == size_class(size),
            decreases OBJ_SIZE_NUM - 1 - i,
        {
            proof {
                lemma_class_limit(i);
            }
            if size <= (1 << i) * (1 << 10) {
                class = i;
                break ;
            }
            i += 1;
        }
        if is_unsafe {
            let count = self.unsafe_size_histogram[class];
            self.unsafe_size_histogram[class] = count.wrapping_add(1);
            assert(self@.unsafe_size_histogram =~= bumped(
                old(self)@.unsafe_size_histogram,
                class as int,
            ));
        } else {
            let count = self.size_histogram[class];
            self.size_histogram[class] = count.wrapping_add(1);
            assert(self@.size_histogram =~= bumped(old(self)@.size_histogram, class as int));
        }
    }
}

/// The limit of a size class below the last, as the tracker computes it.
proof fn lemma_class_limit(class: usize)
    requires
        class < OBJ_SIZE_NUM - 1,
    ensures
        (1usize << class) * (1usize << 10) == class_limit(class as int),
        class_limit(class as int) <= 0x40_0000,
{
    reveal_with_fuel(class_limit, 14);
    assert((1usize << class) * (1usize << 10) == if class == 0 {
        1024usize
    } else if class == 1 {
        2048usize
    } else if class == 2 {
        4096usize
    } else if class == 3 {
        8192usize
    } else if class == 4 {
        0x4000usize
    } else if class == 5 {
        0x8000usize
    } else if class == 6 {
        0x1_0000usize
    } else if class == 7 {
        0x2_0000usize
    } else if class == 8 {
        0x4_0000usize
    } else if class == 9 {
        0x8_0000usize
    } else if class == 10 {
        0x10_0000usize
    } else if class == 11 {
        0x20_0000usize
    } else {
        0x40_0000usize
    }) by (bit_vector)
        requires
            class < 13,
    ;
}

/// The counts of a histogram in decimal, separated by `"; "`.
pub open spec fn histogram_text(histogram: Seq<usize>) -> Seq<char>
    decreases histogram.len(),
{
    if histogram.len() == 0 {
        Seq::empty()
    } else if histogram.len() == 1 {
        decimal(histogram[0] as nat)
    } else {
        histogram_text(histogram.drop_last()) + "; "@ + decimal(histogram.last() as nat)
    }
}

/// The text of the heap report: a heading, then one `key: value` line per
/// figure.
pub open spec fn heap_report_text(heap: HeapView) -> Seq<char> {
    "\n===== Heap Usage Statistics =====\nTotal heap usage: "@ + decimal(heap.total_usage as nat)
        + " bytes\nTotal heap allocations: "@ + decimal(heap.total_alloc as nat)
        + "\nTotal heap re-allocations: "@ + decimal(heap.total_realloc as nat)
        + "\nTotal heap deallocations: "@ + decimal(heap.total_dealloc as nat)
        + "\nUnsafe heap memory: "@ + decimal(heap.unsafe_mem as nat) + "\nUnsafe heap objects: "@
        + decimal(heap.total_unsafe_objs as nat) + "\nUnsafe memory instructions: "@ + decimal(
        heap.total_mem_insts as nat,
    ) + "\nUnsafe load: "@ + decimal(heap.unsafe_load as nat) + "\nUnsafe store: "@ + decimal(
        heap.unsafe_store as nat,
    ) + "\nSize histogram: "@ + histogram_text(heap.size_histogram) + "\nUnsafe size histogram: "@
        + histogram_text(heap.unsafe_size_histogram) + "\n"@
}

proof fn lemma_decimal_not_empty(n: nat)
    ensures
        decimal(n).len() > 0,
    decreases n,
{
    if n >= 10 {
        lemma_decimal_not_empty(n / 10);
    }
}

/// Tagged code loads from `ptr`, or stores to it.
pub fn dyn_unsafe_mem_access(
    tracker: &mut HeapTracker,
    skip: &mut SkipTracking,
    ptr: usize,
    is_load: bool,
)
    ensures
        final(skip).is_set() == old(skip).is_set(),
        final(tracker)@ == if old(skip).is_set() {
            old(tracker)@
        } else {
            old(tracker)@.access_unsafe(ptr, is_load)
        },
{
    tracker.access_unsafe_heap_obj(skip, ptr, is_load);
}

/// Code accesses the memory at `ptr`.
pub fn dyn_mem_access(tracker: &mut HeapTracker, skip: &mut SkipTracking, ptr: usize)
    ensures
        final(skip).is_set() == old(skip).is_set(),
        final(tracker)@ == if old(skip).is_set() {
            old(tracker)@
        } else {
            old(tracker)@.access(ptr)
        },
{
    let _ = tracker.access_heap_obj(skip, ptr);
}

/// An object that is allocated at the address of an object that has been
/// given back is not among the objects that tagged code has touched, whatever
/// was the case of the object before it; the first access of tagged code to
/// it counts it, with its own size.
pub proof fn lemma_reused_address_starts_untagged(
    heap: HeapView,
    ptr: usize,
    size: usize,
    addr: usize,
    is_load: bool,
)
    requires
        ptr != 0,
    ensures
        ({
            let reused = heap.deallocated(ptr).allocated(ptr, size);
            &&& !reused.live_unsafe_objs.contains(ptr)
            &&& reused.live_objs.contains_key(ptr)
            &&& reused.live_objs[ptr] == size
            &&& owner(reused.live_objs, addr) == Some((ptr, size)) ==> {
                let touched = reused.access_unsafe(addr, is_load);
                &&& touched.live_unsafe_objs.contains(ptr)
                &&& touched.total_unsafe_objs == usize_specs::wrapping_add(
                    reused.total_unsafe_objs,
                    1,
                )
                &&& touched.unsafe_mem == usize_specs::wrapping_add(reused.unsafe_mem, size)
            }
        }),
{
}

/// An object is counted among the objects that tagged code has touched once:
/// after one access of tagged code to an address, another access to the same
/// address counts a load or a store and nothing else.
pub proof fn lemma_tagged_object_counted_once(
    heap: HeapView,
    addr: usize,
    first_is_load: bool,
    is_load: bool,
)
    ensures
        ({
            let once = heap.access_unsafe(addr, first_is_load);
            let twice = once.access_unsafe(addr, is_load);
            twice == if owner(heap.live_objs, addr) is None {
                once
            } else if is_load {
                HeapView { unsafe_load: usize_specs::wrapping_add(once.unsafe_load, 1), ..once }
            } else {
                HeapView { unsafe_store: usize_specs::wrapping_add(once.unsafe_store, 1), ..once }
            }
        }),
{
}

impl HeapView {
    /// Every object that tagged code has touched is live.
    pub open spec fn tagged_are_live(self) -> bool {
        forall|base: usize|
            self.live_unsafe_objs.contains(base) ==> self.live_objs.contains_key(base)
    }
}

/// At most one live object holds an address, and `owner` names it with its
/// size.
pub proof fn lemma_owner_is_the_covering_object(objs: Map<usize, usize>, addr: usize)
    ensures
        forall|a: usize, b: usize| covers(objs, a, addr) && covers(objs, b, addr) ==> a == b,
        forall|base: usize|
            covers(objs, base, addr) ==> owner(objs, addr) == Some((base, objs[base])),
        owner(objs, addr) matches Some((base, size)) ==> covers(objs, base, addr) && size
            == objs[base],
{
}

/// The objects that tagged code has touched are live objects, and stay so
/// whatever happens: allocation, deallocation, reallocation, and accesses of
/// any code.
pub proof fn lemma_tagged_objects_stay_live(
    heap: HeapView,
    ptr: usize,
    size: usize,
    new_ptr: usize,
    is_load: bool,
)
    requires
        heap.tagged_are_live(),
    ensures
        heap.allocated(ptr, size).tagged_are_live(),
        heap.deallocated(ptr).tagged_are_live(),
        heap.moved(ptr, new_ptr, size).tagged_are_live(),
        heap.resized(size, size).tagged_are_live(),
        heap.access(ptr).tagged_are_live(),
        heap.access_unsafe(ptr, is_load).tagged_are_live(),
{
    lemma_owner_is_the_covering_object(heap.live_objs, ptr);
}

/// An object that tagged code has touched stays among the touched objects
/// until it is given back or moved: accesses and allocations at other
/// addresses leave it there.
pub proof fn lemma_tagged_until_freed(
    heap: HeapView,
    base: usize,
    ptr: usize,
    size: usize,
    is_load: bool,
)
    requires
        heap.live_unsafe_objs.contains(base),
    ensures
        heap.access(ptr).live_unsafe_objs.contains(base),
        heap.access_unsafe(ptr, is_load).live_unsafe_objs.contains(base),
        heap.allocated(ptr, size).live_unsafe_objs.contains(base),
        ptr != base ==> heap.deallocated(ptr).live_unsafe_objs.contains(base),
        !heap.deallocated(base).live_unsafe_objs.contains(base),
{
}

/// The size class of an object is the smallest class whose limit holds the
/// object's size, and the last class for an object beyond all limits.
pub proof fn lemma_size_class_is_smallest_fit(size: usize)
    ensures
        0 <= size_class(size) < OBJ_SIZE_NUM,
        size_class(size) < OBJ_SIZE_NUM - 1 ==> size <= class_limit(size_class(size)),
        forall|class: int| 0 <= class < size_class(size) ==> size > class_limit(class),
{
    reveal_with_fuel(class_from, 14);
}

/// The number of reports that `calls` calls for the heap report hand out,
/// one after the other, on a tracker that starts as `heap`.
pub open spec fn reports_written(heap: HeapView, calls: nat) -> nat
    decreases calls,
{
    if calls == 0 {
        0
    } else if heap.report_written {
        reports_written(heap.reported(), (calls - 1) as nat)
    } else {
        1 + reports_written(heap.reported(), (calls - 1) as nat)
    }
}

/// However often the heap report is asked for, it is handed out once: by
/// the first call where none was handed out before, and by no call
/// otherwise.
pub proof fn lemma_report_written_once(heap: HeapView, calls: nat)
    ensures
        reports_written(heap, calls) == if heap.report_written || calls == 0 {
            0nat
        } else {
            1nat
        },
    decreases calls,
{
    if calls > 0 {
        lemma_report_written_once(heap.reported(), (calls - 1) as nat);
    }
}

} // verus!
