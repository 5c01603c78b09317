//! Counts of executed instructions and of called functions, as the
//! instrumentation reports them per basic block and per function entry.

use crate::text::{append_decimal, decimal};
use vstd::prelude::*;
use vstd::wrapping::u64_specs;

verus! {

/// Greatest number of functions that can be tracked.
pub const MAX_FUNCTIONS: usize = 65536;

/// Number of 64-bit words that hold one bit per function.
pub const BITSET_WORDS: usize = 1024;

/// What is known of a function from compile time.
#[derive(Clone, Copy, Debug, PartialEq, Eq, Structural)]
pub struct FunctionMetadata {
    pub id: u32,
    /// Not zero if the function holds tagged instructions.
    pub has_unsafe_inst: u8,
    /// Not zero if the function holds tagged regions.
    pub has_unsafe_regions: u8,
}

/// Whether bit `bit` of `word` is set.
pub open spec fn bit_of(word: u64, bit: u64) -> bool {
    word & (1u64 << bit) != 0
}

/// A set of function ids, one bit each.
pub struct AtomicBitset {
    words: Vec<u64>,
}

impl View for AtomicBitset {
    type V = Set<int>;

    closed spec fn view(&self) -> Set<int> {
        Set::new(
            |i: int|
                0 <= i < MAX_FUNCTIONS && bit_of(self.words@[i / 64], (i % 64) as u64),
        )
    }
}

proof fn lemma_bit_after_or(word: u64, bit: u64, other: u64)
    requires
        bit < 64,
        other < 64,
    ensures
        bit_of(word | (1u64 << bit), other) == (bit_of(word, other) || other == bit),
        !bit_of(0, other),
{
    assert((word | (1u64 << bit)) & (1u64 << other) != 0 <==> (word & (1u64 << other) != 0
        || other == bit)) by (bit_vector)
        requires
            bit < 64,
            other < 64,
    ;
    assert(0u64 & (1u64 << other) == 0) by (bit_vector);
}

impl AtomicBitset {
    pub closed spec fn wf(&self) -> bool {
        self.words@.len() == BITSET_WORDS
    }

    /// The empty set.
    pub fn new() -> (bitset: Self)
        ensures
            bitset.wf(),
            bitset@ == Set::<int>::empty(),
    {
        let mut words: Vec<u64> = Vec::new();
        let mut i: usize = 0;
        while i < BITSET_WORDS
            invariant
                i <= BITSET_WORDS,
                words@.len() == i,
                forall|j: int| 0 <= j < i ==> #[trigger] words@[j] == 0,
            decreases BITSET_WORDS - i,
        {
            words.push(0);
            i += 1;
        }
        let bitset = AtomicBitset { words };
        proof {
            assert forall|i: int| !bitset@.contains(i) by {
                if 0 <= i < MAX_FUNCTIONS {
                    lemma_bit_after_or(0, 0, (i % 64) as u64);
                }
            }
            assert(bitset@ =~= Set::<int>::empty());
        }
        bitset
    }

    /// Puts `index` into the set.
    pub fn set(&mut self, index: usize)
        requires
            old(self).wf(),
            index < MAX_FUNCTIONS,
        ensures
            final(self).wf(),
            final(self)@ == old(self)@.insert(index as int),
    {
        let word_idx = index / 64;
        let bit_idx = index % 64;
        let word = self.words[word_idx];
        self.words.set(word_idx, word | (1u64 << bit_idx));
        proof {
            assert forall|i: int| self@.contains(i) == old(self)@.insert(index as int).contains(
                i,
            ) by {
                if 0 <= i < MAX_FUNCTIONS && i / 64 == word_idx {
                    lemma_bit_after_or(word, bit_idx as u64, (i % 64) as u64);
                }
            }
            assert(self@ =~= old(self)@.insert(index as int));
        }
    }

    /// Whether `index` is in the set.
    pub fn is_set(&self, index: usize) -> (present: bool)
        requires
            self.wf(),
            index < MAX_FUNCTIONS,
        ensures
            present == self@.contains(index as int),
    {
        let word_idx = index / 64;
        let bit_idx = index % 64;
        (self.words[word_idx] & (1u64 << bit_idx)) != 0
    }
}

/// What a tracker of instructions and functions holds, as plain values.
pub struct TrackerView {
    /// The functions known from compile time, by id.
    pub metadata: Seq<FunctionMetadata>,
    /// Number of calls of each function, by id.
    pub function_calls: Seq<u64>,
    /// The ids of the functions that have been called.
    pub functions_seen: Set<int>,
    pub total_instructions: u64,
    pub total_unsafe_instructions: u64,
    pub unsafe_loads: u64,
    pub unsafe_stores: u64,
    pub unsafe_calls: u64,
    pub unsafe_casts: u64,
    pub unsafe_geps: u64,
    pub unsafe_others: u64,
    pub stats_written: bool,
    pub metadata_initialized: bool,
}

/// The counts of one basic block.
#[derive(Clone, Copy, Debug, PartialEq, Eq, Structural)]
pub struct BlockCounts {
    pub total: u32,
    pub unsafe_total: u32,
    pub unsafe_load: u16,
    pub unsafe_store: u16,
    pub unsafe_call: u16,
    pub unsafe_cast: u16,
    pub unsafe_gep: u16,
    pub unsafe_other: u16,
}

/// Whether a function holds tagged code.
pub open spec fn is_unsafe_function(meta: FunctionMetadata) -> bool {
    meta.has_unsafe_inst != 0 || meta.has_unsafe_regions != 0
}

/// Over the first `n` function ids: how many of the functions have been
/// called, how many of those hold tagged code, the calls of all of them, and
/// the calls of those that hold tagged code. The sums of calls wrap around.
pub open spec fn function_totals(tracker: TrackerView, n: int) -> (nat, nat, u64, u64)
    decreases n,
{
    if n <= 0 {
        (0, 0, 0, 0)
    } else {
        let rest = function_totals(tracker, n - 1);
        let id = n - 1;
        let calls = tracker.function_calls[id];
        if !tracker.functions_seen.contains(id) {
            rest
        } else if is_unsafe_function(tracker.metadata[id]) {
            (
                rest.0 + 1,
                rest.1 + 1,
                u64_specs::wrapping_add(rest.2, calls),
                u64_specs::wrapping_add(rest.3, calls),
            )
        } else {
            (rest.0 + 1, rest.1, u64_specs::wrapping_add(rest.2, calls), rest.3)
        }
    }
}

impl TrackerView {
    /// The compile-time table arrives. Only the first arrival counts, and a
    /// table of more than `MAX_FUNCTIONS` entries is not taken.
    pub open spec fn init_metadata(self, metadata: Seq<FunctionMetadata>) -> TrackerView {
        if self.metadata_initialized {
            self
        } else if metadata.len() > MAX_FUNCTIONS {
            TrackerView { metadata_initialized: true, ..self }
        } else {
            TrackerView { metadata_initialized: true, metadata, ..self }
        }
    }

    /// The function `func_id` is entered. An id at or above `MAX_FUNCTIONS`
    /// is not tracked.
    pub open spec fn record_function(self, func_id: u32) -> TrackerView {
        if func_id >= MAX_FUNCTIONS {
            self
        } else {
            TrackerView {
                function_calls: self.function_calls.update(
                    func_id as int,
                    u64_specs::wrapping_add(self.function_calls[func_id as int], 1),
                ),
                functions_seen: self.functions_seen.insert(func_id as int),
                ..self
            }
        }
    }

    /// A basic block with the counts `block` is executed. The counts of its
    /// tagged instructions are taken only where their total is not zero.
    pub open spec fn record_block(self, block: BlockCounts) -> TrackerView {
        let total_instructions = u64_specs::wrapping_add(
            self.total_instructions,
            block.total as u64,
        );
        if block.unsafe_total == 0 {
            TrackerView { total_instructions, ..self }
        } else {
            TrackerView {
                total_instructions,
                total_unsafe_instructions: u64_specs::wrapping_add(
                    self.total_unsafe_instructions,
                    block.unsafe_total as u64,
                ),
                unsafe_loads: u64_specs::wrapping_add(self.unsafe_loads, block.unsafe_load as u64),
                unsafe_stores: u64_specs::wrapping_add(
                    self.unsafe_stores,
                    block.unsafe_store as u64,
                ),
                unsafe_calls: u64_specs::wrapping_add(self.unsafe_calls, block.unsafe_call as u64),
                unsafe_casts: u64_specs::wrapping_add(self.unsafe_casts, block.unsafe_cast as u64),
                unsafe_geps: u64_specs::wrapping_add(self.unsafe_geps, block.unsafe_gep as u64),
                unsafe_others: u64_specs::wrapping_add(
                    self.unsafe_others,
                    block.unsafe_other as u64,
                ),
                ..self
            }
        }
    }

    /// Whether a call for the report gives one: the first call does, if the
    /// compile-time table has arrived and holds a function.
    pub open spec fn reports(self) -> bool {
        !self.stats_written && self.metadata_initialized && self.metadata.len() > 0
    }

    /// The text of the report: one `key: value` line per figure.
    pub open spec fn report_text(self) -> Seq<char> {
        let functions = function_totals(self, self.metadata.len() as int);
        "Total instructions: "@ + decimal(self.total_instructions as nat)
            + "\nUnsafe instructions: "@ + decimal(self.total_unsafe_instructions as nat)
            + "\nUnsafe loads: "@ + decimal(self.unsafe_loads as nat) + "\nUnsafe stores: "@
            + decimal(self.unsafe_stores as nat) + "\nUnsafe calls: "@ + decimal(
            self.unsafe_calls as nat,
        ) + "\nUnsafe casts: "@ + decimal(self.unsafe_casts as nat) + "\nUnsafe GEPs: "@ + decimal(
            self.unsafe_geps as nat,
        ) + "\nUnsafe others: "@ + decimal(self.unsafe_others as nat) + "\nUnique functions: "@
            + decimal(functions.0) + "\nUnique unsafe functions: "@ + decimal(functions.1)
            + "\nTotal function calls: "@ + decimal(functions.2 as nat)
            + "\nUnsafe function calls: "@ + decimal(functions.3 as nat) + "\n"@
    }
}

/// The tracker of instructions and functions.
pub struct UnsafeTracker {
    metadata: Vec<FunctionMetadata>,
    function_calls: Vec<u64>,
    functions_seen: AtomicBitset,
    total_instructions: u64,
    total_unsafe_instructions: u64,
    unsafe_loads: u64,
    unsafe_stores: u64,
    unsafe_calls: u64,
    unsafe_casts: u64,
    unsafe_geps: u64,
    unsafe_others: u64,
    stats_written: bool,
    metadata_initialized: bool,
}

impl View for UnsafeTracker {
    type V = TrackerView;

    closed spec fn view(&self) -> TrackerView {
        TrackerView {
            metadata: self.metadata@,
            function_calls: self.function_calls@,
            functions_seen: self.functions_seen@,
            total_instructions: self.total_instructions,
            total_unsafe_instructions: self.total_unsafe_instructions,
            unsafe_loads: self.unsafe_loads,
            unsafe_stores: self.unsafe_stores,
            unsafe_calls: self.unsafe_calls,
            unsafe_casts: self.unsafe_casts,
            unsafe_geps: self.unsafe_geps,
            unsafe_others: self.unsafe_others,
            stats_written: self.stats_written,
            metadata_initialized: self.metadata_initialized,
        }
    }
}

impl UnsafeTracker {
    /// The tables have their fixed size, and the compile-time table fits.
    pub closed spec fn wf(&self) -> bool {
        &&& self.functions_seen.wf()
        &&& self.function_calls@.len() == MAX_FUNCTIONS
        &&& self.metadata@.len() <= MAX_FUNCTIONS
    }

    /// A tracker that has seen nothing.
    pub fn new() -> (tracker: Self)
        ensures
            tracker.wf(),
            tracker@ == (TrackerView {
                metadata: Seq::empty(),
                function_calls: Seq::new(MAX_FUNCTIONS as nat, |i: int| 0u64),
                functions_seen: Set::empty(),
                total_instructions: 0,
                total_unsafe_instructions: 0,
                unsafe_loads: 0,
                unsafe_stores: 0,
                unsafe_calls: 0,
                unsafe_casts: 0,
                unsafe_geps: 0,
                unsafe_others: 0,
                stats_written: false,
                metadata_initialized: false,
            }),
    {
        let mut function_calls: Vec<u64> = Vec::new();
        let mut i: usize = 0;
        while i < MAX_FUNCTIONS
            invariant
                i <= MAX_FUNCTIONS,
                function_calls@.len() == i,
                forall|j: int| 0 <= j < i ==> #[trigger] function_calls@[j] == 0,
            decreases MAX_FUNCTIONS - i,
        {
            function_calls.push(0);
            i += 1;
        }
        assert(function_calls@ =~= Seq::new(MAX_FUNCTIONS as nat, |i: int| 0u64));
        UnsafeTracker {
            metadata: Vec::new(),
            function_calls,
            functions_seen: AtomicBitset::new(),
            total_instructions: 0,
            total_unsafe_instructions: 0,
            unsafe_loads: 0,
            unsafe_stores: 0,
            unsafe_calls: 0,
            unsafe_casts: 0,
            unsafe_geps: 0,
            unsafe_others: 0,
            stats_written: false,
            metadata_initialized: false,
        }
    }

    /// Whether `init_metadata` would turn the table `metadata` down for its
    /// length: it does on the first call, for a table of more than
    /// `MAX_FUNCTIONS` entries. The caller has that to report.
    pub fn rejects_table(&self, metadata: &Vec<FunctionMetadata>) -> (rejected: bool)
        ensures
            rejected == (!self@.metadata_initialized && metadata@.len() > MAX_FUNCTIONS),
    {
        !self.metadata_initialized && metadata.len() > MAX_FUNCTIONS
    }

    /// Takes the compile-time table of functions. Only the first call has an
    /// effect, and a table of more than `MAX_FUNCTIONS` entries is not
    /// taken.
    pub fn init_metadata(&mut self, metadata: &Vec<FunctionMetadata>)
        requires
            old(self).wf(),
        ensures
            final(self).wf(),
            final(self)@ == old(self)@.init_metadata(metadata@),
    {
        if self.metadata_initialized {
            return ;
        }
        self.metadata_initialized = true;
        if metadata.len() > MAX_FUNCTIONS {
            return ;
        }
        let mut table: Vec<FunctionMetadata> = Vec::new();
        let mut i: usize = 0;
        while i < metadata.len()
            invariant
                i <= metadata.len(),
                table@ == metadata@.take(i as int),
            decreases metadata.len() - i,
        {
            table.push(metadata[i]);
            i += 1;
            assert(table@ =~= metadata@.take(i as int));
        }
        assert(table@ =~= metadata@);
        self.metadata = table;
    }

    /// Counts an entry of the function `func_id`. An id at or above
    /// `MAX_FUNCTIONS` is not tracked.
    pub fn record_function(&mut self, func_id: u32)
        requires
            old(self).wf(),
        ensures
            final(self).wf(),
            final(self)@ == old(self)@.record_function(func_id),
    {
        if func_id as usize >= MAX_FUNCTIONS {
            return ;
        }
        let calls = self.function_calls[func_id as usize];
        self.function_calls.set(func_id as usize, calls.wrapping_add(1));
        self.functions_seen.set(func_id as usize);
    }

    /// Counts the instructions of a basic block of the function `_func_id`.
    pub fn record_block(
        &mut self,
        _func_id: u32,
        total: u32,
        unsafe_total: u32,
        unsafe_load: u16,
        unsafe_store: u16,
        unsafe_call: u16,
        unsafe_cast: u16,
        unsafe_gep: u16,
        unsafe_other: u16,
    )
        requires
            old(self).wf(),
        ensures
            final(self).wf(),
            final(self)@ == old(self)@.record_block(
                BlockCounts {
                    total,
                    unsafe_total,
                    unsafe_load,
                    unsafe_store,
                    unsafe_call,
                    unsafe_cast,
                    unsafe_gep,
                    unsafe_other,
                },
            ),
    {
        self.total_instructions = self.total_instructions.wrapping_add(total as u64);
        if unsafe_total == 0 {
            return ;
        }
        self.total_unsafe_instructions = self.total_unsafe_instructions.wrapping_add(
            unsafe_total as u64,
        );
        if unsafe_load > 0 {
            self.unsafe_loads = self.unsafe_loads.wrapping_add(unsafe_load as u64);
        }
        if unsafe_store > 0 {
            self.unsafe_stores = self.unsafe_stores.wrapping_add(unsafe_store as u64);
        }
        if unsafe_call > 0 {
            self.unsafe_calls = self.unsafe_calls.wrapping_add(unsafe_call as u64);
        }
        if unsafe_cast > 0 {
            self.unsafe_casts = self.unsafe_casts.wrapping_add(unsafe_cast as u64);
        }
        if unsafe_gep > 0 {
            self.unsafe_geps = self.unsafe_geps.wrapping_add(unsafe_gep as u64);
        }
        if unsafe_other > 0 {
            self.unsafe_others = self.unsafe_others.wrapping_add(unsafe_other as u64);
        }
    }

    /// Hands out the report, once: the text for the first call, if the
    /// compile-time table has arrived and holds a function, and `None` for
    /// every call otherwise. The counts are never changed.
    pub fn dump_stats(&mut self) -> (report: Option<String>)
        requires
            old(self).wf(),
        ensures
            final(self).wf(),
            final(self)@ == (TrackerView { stats_written: true, ..old(self)@ }),
            match report {
                Some(text) => old(self)@.reports() && text@ == old(self)@.report_text(),
                None => !old(self)@.reports(),
            },
    {
        if self.stats_written {
            return None;
        }
        self.stats_written = true;
        if !self.metadata_initialized {
            return None;
        }
        let metadata_count = self.metadata.len();
        if metadata_count == 0 {
            return None;
        }
        let mut unique_functions: u32 = 0;
        let mut unique_unsafe_functions: u32 = 0;
        let mut total_function_calls: u64 = 0;
        let mut unsafe_function_calls: u64 = 0;
        let mut i: usize = 0;
        while i < metadata_count
            invariant
                self.wf(),
                i <= metadata_count == self.metadata@.len(),
                unique_unsafe_functions <= unique_functions <= i,
                (
                    unique_functions as nat,
                    unique_unsafe_functions as nat,
                    total_function_calls,
                    unsafe_function_calls,
                ) == function_totals(old(self)@, i as int),
                self@ == (TrackerView { stats_written: true, ..old(self)@ }),
            decreases metadata_count - i,
        {
            if self.functions_seen.is_set(i) {
                unique_functions += 1;
                let meta = self.metadata[i];
                let is_unsafe = meta.has_unsafe_inst != 0 || meta.has_unsafe_regions != 0;
                if is_unsafe {
                    unique_unsafe_functions += 1;
                }
                let calls = self.function_calls[i];
                total_function_calls = total_function_calls.wrapping_add(calls);
                if is_unsafe {
                    unsafe_function_calls = unsafe_function_calls.wrapping_add(calls);
                }
            }
            i += 1;
        }
        let mut text = String::new();
        text.append("Total instructions: ");
        append_decimal(&mut text, self.total_instructions);
        text.append("\nUnsafe instructions: ");
        append_decimal(&mut text, self.total_unsafe_instructions);
        text.append("\nUnsafe loads: ");
        append_decimal(&mut text, self.unsafe_loads);
        text.append("\nUnsafe stores: ");
        append_decimal(&mut text, self.unsafe_stores);
        text.append("\nUnsafe calls: ");
        append_decimal(&mut text, self.unsafe_calls);
        text.append("\nUnsafe casts: ");
        append_decimal(&mut text, self.unsafe_casts);
        text.append("\nUnsafe GEPs: ");
        append_decimal(&mut text, self.unsafe_geps);
        text.append("\nUnsafe others: ");
        append_decimal(&mut text, self.unsafe_others);
        text.append("\nUnique functions: ");
        append_decimal(&mut text, unique_functions as u64);
        text.append("\nUnique unsafe functions: ");
        append_decimal(&mut text, unique_unsafe_functions as u64);
        text.append("\nTotal function calls: ");
        append_decimal(&mut text, total_function_calls);
        text.append("\nUnsafe function calls: ");
        append_decimal(&mut text, unsafe_function_calls);
        text.append("\n");
        assert(text@ =~= old(self)@.report_text());
        Some(text)
    }
}

} // verus!
