use unsafe_perf::unsafety::{ignore_fn, BlockInfo, Span, ThirInfo, UnsafeCode};

fn span(lo: u32, hi: u32) -> Span {
    Span { lo, hi }
}

#[test]
fn native_libraries_are_ignored() {
    for name in [
        "alloc",
        "backtrace",
        "core",
        "panic_abort",
        "panic_unwind",
        "portable-simd",
        "profiler_builtins",
        "std",
        "stdarch",
        "sysroot",
        "unwind",
    ] {
        assert!(ignore_fn(false, name), "{}", name);
        assert!(!ignore_fn(true, name), "{}", name);
    }
}

#[test]
fn other_crates_are_analysed() {
    for name in ["", "my_app", "Std", "std ", "stdx", "allo", "portable_simd", "serde"] {
        assert!(!ignore_fn(false, name), "{}", name);
        assert!(!ignore_fn(true, name), "{}", name);
    }
}

#[test]
fn span_contains_what_lies_within() {
    assert!(span(10, 20).contains(span(10, 20)));
    assert!(span(10, 20).contains(span(12, 15)));
    assert!(span(10, 20).contains(span(20, 20)));
    assert!(!span(10, 20).contains(span(9, 15)));
    assert!(!span(10, 20).contains(span(15, 21)));
    assert!(!span(10, 20).contains(span(0, 100)));
}

#[test]
fn empty_code_has_nothing_tagged() {
    let code = UnsafeCode::new_empty();
    assert!(!code.is_unsafe_fn);
    assert!(code.unsafe_blocks.is_none());
    assert!(!code.in_unsafe(span(0, 0)));
    let code = UnsafeCode::new(None);
    assert!(!code.is_unsafe_fn);
    assert!(code.unsafe_blocks.is_none());
}

#[test]
fn tagged_function_is_tagged_as_a_whole() {
    let thir = ThirInfo {
        is_unsafe_fn: true,
        blocks: vec![BlockInfo { explicit_unsafe: true, span: span(5, 9) }],
    };
    let code = UnsafeCode::new(Some(&thir));
    assert!(code.is_unsafe_fn);
    assert!(code.unsafe_blocks.is_none());
    assert!(code.in_unsafe(span(1000, 2000)));
}

#[test]
fn tagged_blocks_are_collected_in_order() {
    let thir = ThirInfo {
        is_unsafe_fn: false,
        blocks: vec![
            BlockInfo { explicit_unsafe: false, span: span(0, 100) },
            BlockInfo { explicit_unsafe: true, span: span(10, 20) },
            BlockInfo { explicit_unsafe: false, span: span(12, 14) },
            BlockInfo { explicit_unsafe: true, span: span(50, 60) },
        ],
    };
    let code = UnsafeCode::new(Some(&thir));
    assert!(!code.is_unsafe_fn);
    assert_eq!(code.unsafe_blocks, Some(vec![span(10, 20), span(50, 60)]));
    assert!(code.in_unsafe(span(12, 14)));
    assert!(code.in_unsafe(span(50, 60)));
    assert!(!code.in_unsafe(span(30, 40)));
    assert!(!code.in_unsafe(span(15, 55)));
    assert!(!code.in_unsafe(span(0, 100)));
}

#[test]
fn function_without_tagged_blocks() {
    let thir = ThirInfo {
        is_unsafe_fn: false,
        blocks: vec![BlockInfo { explicit_unsafe: false, span: span(0, 100) }],
    };
    let code = UnsafeCode::new(Some(&thir));
    assert!(!code.is_unsafe_fn);
    assert!(code.unsafe_blocks.is_none());
    assert!(!code.in_unsafe(span(1, 2)));
    let thir = ThirInfo { is_unsafe_fn: false, blocks: Vec::new() };
    assert!(UnsafeCode::new(Some(&thir)).unsafe_blocks.is_none());
}
