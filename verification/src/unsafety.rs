//! Which parts of a function are tagged: what an analysis of the function's
//! body hands on to the passes that instrument it.

use vstd::prelude::*;

verus! {

/// A range of source positions, from `lo` up to `hi`.
#[derive(Clone, Copy, Debug, PartialEq, Eq, Structural)]
pub struct Span {
    pub lo: u32,
    pub hi: u32,
}

impl Span {
    /// Whether `other` lies within `self`.
    pub open spec fn encloses(self, other: Span) -> bool {
        self.lo <= other.lo && other.hi <= self.hi
    }

    /// Whether `other` lies within `self`.
    pub fn contains(self, other: Span) -> (inside: bool)
        ensures
            inside == self.encloses(other),
    {
        self.lo <= other.lo && other.hi <= self.hi
    }
}

/// A block of a function body: where it stands, and whether it is written
/// as a tagged block.
#[derive(Clone, Copy, Debug, PartialEq, Eq, Structural)]
pub struct BlockInfo {
    pub explicit_unsafe: bool,
    pub span: Span,
}

/// What the analysis reads of a function body.
pub struct ThirInfo {
    /// Whether the body is that of a function declared as tagged.
    pub is_unsafe_fn: bool,
    /// The blocks of the body, in the order of the body.
    pub blocks: Vec<BlockInfo>,
}

/// The tagged code of a function.
pub struct UnsafeCode {
    /// Whether the function as a whole is tagged.
    pub is_unsafe_fn: bool,
    /// The tagged blocks of a function that is not tagged as a whole, if
    /// there are any.
    pub unsafe_blocks: Option<Vec<Span>>,
}

/// The spans of the tagged blocks among `blocks`, in their order.
pub open spec fn unsafe_spans(blocks: Seq<BlockInfo>) -> Seq<Span>
    decreases blocks.len(),
{
    if blocks.len() == 0 {
        Seq::empty()
    } else if blocks.last().explicit_unsafe {
        unsafe_spans(blocks.drop_last()).push(blocks.last().span)
    } else {
        unsafe_spans(blocks.drop_last())
    }
}

/// The libraries that come with the language. Their functions are not
/// analysed.
pub open spec fn is_rust_native_lib(name: Seq<char>) -> bool {
    ||| name == "alloc"@
    ||| name == "backtrace"@
    ||| name == "core"@
    ||| name == "panic_abort"@
    ||| name == "panic_unwind"@
    ||| name == "portable-simd"@
    ||| name == "profiler_builtins"@
    ||| name == "std"@
    ||| name == "stdarch"@
    ||| name == "sysroot"@
    ||| name == "unwind"@
}

fn same_text(name: &String, other: &str) -> (same: bool)
    ensures
        same == (name@ == other@),
{
    let other = other.to_owned();
    *name == other
}

/// Whether a function of the crate `crate_name` is left out of the
/// analysis: it is if the crate is one of the libraries that come with the
/// language, unless those are asked for with `include_native_lib`.
pub fn ignore_fn(include_native_lib: bool, crate_name: &str) -> (ignored: bool)
    ensures
        ignored == (!include_native_lib && is_rust_native_lib(crate_name@)),
{
    if include_native_lib {
        return false;
    }
    let name = crate_name.to_owned();
    same_text(&name, "alloc") || same_text(&name, "backtrace") || same_text(&name, "core")
        || same_text(&name, "panic_abort") || same_text(&name, "panic_unwind") || same_text(
        &name,
        "portable-simd",
    ) || same_text(&name, "profiler_builtins") || same_text(&name, "std") || same_text(
        &name,
        "stdarch",
    ) || same_text(&name, "sysroot") || same_text(&name, "unwind")
}

impl UnsafeCode {
    /// A function without tagged code.
    pub fn new_empty() -> (code: UnsafeCode)
        ensures
            !code.is_unsafe_fn,
            code.unsafe_blocks is None,
    {
        UnsafeCode { is_unsafe_fn: false, unsafe_blocks: None }
    }

    /// The tagged code of a function, from what is read of its body. A
    /// function declared as tagged is tagged as a whole, and its blocks are
    /// not looked at. Of any other function the tagged blocks are collected,
    /// in their order.
    pub fn new(thir: Option<&ThirInfo>) -> (code: UnsafeCode)
        ensures
            match thir {
                None => !code.is_unsafe_fn && code.unsafe_blocks is None,
                Some(thir) => if thir.is_unsafe_fn {
                    code.is_unsafe_fn && code.unsafe_blocks is None
                } else {
                    &&& !code.is_unsafe_fn
                    &&& match code.unsafe_blocks {
                        Some(spans) => spans@.len() > 0 && spans@ == unsafe_spans(thir.blocks@),
                        None => unsafe_spans(thir.blocks@).len() == 0,
                    }
                },
            },
    {
        let mut unsafe_code = Self::new_empty();
        if let Some(thir) = thir {
            if thir.is_unsafe_fn {
                unsafe_code.is_unsafe_fn = true;
                return unsafe_code;
            }
            let mut spans: Vec<Span> = Vec::new();
            let mut i: usize = 0;
            while i < thir.blocks.len()
                invariant
                    i <= thir.blocks.len(),
                    spans@ == unsafe_spans(thir.blocks@.take(i as int)),
                decreases thir.blocks.len() - i,
            {
                let block = thir.blocks[i];
                if block.explicit_unsafe {
                    spans.push(block.span);
                }
                i += 1;
                proof {
                    let taken = thir.blocks@.take(i as int);
                    assert(taken.drop_last() =~= thir.blocks@.take(i - 1));
                    assert(spans@ =~= unsafe_spans(taken));
                }
            }
            assert(thir.blocks@.take(i as int) =~= thir.blocks@);
            if spans.len() > 0 {
                unsafe_code.unsafe_blocks = Some(spans);
            }
        }
        unsafe_code
    }

    /// Whether code at `span` is tagged: it is in a function that is tagged
    /// as a whole, and where it lies within one of the tagged blocks.
    pub fn in_unsafe(&self, span: Span) -> (tagged: bool)
        ensures
            tagged == (self.is_unsafe_fn || match self.unsafe_blocks {
                Some(blocks) => exists|i: int|
                    0 <= i < blocks@.len() && (#[trigger] blocks@[i]).encloses(span),
                None => false,
            }),
    {
        if self.is_unsafe_fn {
            return true;
        }
        if let Some(blocks) = &self.unsafe_blocks {
            let mut i: usize = 0;
            while i < blocks.len()
                invariant
                    i <= blocks.len(),
                    self.unsafe_blocks == Some(*blocks),
                    forall|j: int| 0 <= j < i ==> !(#[trigger] blocks@[j]).encloses(span),
                decreases blocks.len() - i,
            {
                if blocks[i].contains(span) {
                    assert(self.unsafe_blocks->0@[i as int].encloses(span));
                    return true;
                }
                i += 1;
            }
        }
        false
    }
}

} // verus!
