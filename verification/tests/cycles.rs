use unsafe_perf::cpu_cycle_counter::{
    calculate_total_stats, cpu_cycle_end_measurement, cpu_cycle_start_measurement, dump_stats,
    external_call_end, external_call_start, inconsistent_slots, initialize_thread, is_attached,
    pop_context, print_cpu_cycle_stats,
    push_context, record_program_start, stack_is_full, thread_cleanup, transition_state,
    ContextError,
    ContextFrame, CycleReport, ExecutionState, ThreadContext, ThreadRegistry, ThreadState,
    ThreadStats, MAX_CONTEXT_DEPTH, MAX_THREADS,
};

fn stats_of(registry: &ThreadRegistry, slot: usize) -> ThreadStats {
    registry.get(slot).unwrap()
}

#[test]
fn test_cpu_cycle_counter_functions() {
    let mut registry = ThreadRegistry::new();
    let mut ctx = ThreadContext::new();
    let mut clock: u64 = 1000;

    // Record program start
    record_program_start(&mut registry, &mut ctx, 1, clock);

    // Test cycle measurement
    clock += 10;
    let _start = cpu_cycle_start_measurement(&mut registry, &mut ctx, 1, clock);
    // Do some work
    let mut sum = 0u64;
    for i in 0..100 {
        sum = sum.wrapping_add(i);
    }
    clock += 100;
    cpu_cycle_end_measurement(&mut registry, &mut ctx, 1, clock);

    // Test external call tracking
    clock += 5;
    let _ext_start = external_call_start(&mut registry, &mut ctx, 1, clock);
    // Simulate some external call work
    for i in 0..50 {
        sum = sum.wrapping_add(i);
    }
    clock += 50;
    external_call_end(&mut registry, &mut ctx, clock);

    // Prevent optimization
    assert!(sum > 0);

    // Test stats printing (should not panic)
    let report = print_cpu_cycle_stats(&mut registry, clock);
    assert_eq!(
        report,
        Some(CycleReport {
            total_cycles: 165,
            unsafe_cycles: 100,
            external_cycles: 50,
            internal_cycles: 115,
        })
    );
    let stats = stats_of(&registry, 0);
    assert_eq!(stats.normal_cycles, 15);
    assert_eq!(stats.unsafe_cycles, 100);
    assert_eq!(stats.external_safe_cycles, 50);
    assert_eq!(stats.external_unsafe_cycles, 0);
    assert_eq!(stats.unsafe_blocks, 1);
    assert_eq!(stats.external_calls, 1);
}

#[test]
fn new_registry_is_empty() {
    let registry = ThreadRegistry::new();
    assert_eq!(registry.next_slot(), 0);
    assert_eq!(registry.get(0), Some(ThreadStats::new()));
    assert_eq!(registry.get(MAX_THREADS - 1), Some(ThreadStats::new()));
    assert_eq!(registry.get(MAX_THREADS), None);
    let stats = ThreadStats::new();
    assert_eq!(stats.state, ThreadState::Uninitialized);
    assert_eq!(stats.thread_id, 0);
    assert_eq!(stats.start_tsc, 0);
    assert_eq!(stats.unsafe_blocks, 0);
}

#[test]
fn slots_are_handed_out_in_order() {
    let mut registry = ThreadRegistry::new();
    assert_eq!(registry.allocate_slot(), Some(0));
    assert_eq!(registry.allocate_slot(), Some(1));
    assert_eq!(registry.allocate_slot(), Some(2));
    assert_eq!(registry.next_slot(), 3);
}

#[test]
fn registering_starts_a_normal_frame() {
    let mut registry = ThreadRegistry::new();
    let mut ctx = ThreadContext::new();
    assert_eq!(initialize_thread(&mut registry, &mut ctx, 42, 500), Some(0));
    assert_eq!(ctx.slot, Some(0));
    assert_eq!(
        ctx.frames,
        vec![ContextFrame { state: ExecutionState::Normal, start_tsc: 500 }]
    );
    let stats = stats_of(&registry, 0);
    assert_eq!(stats.thread_id, 42);
    assert_eq!(stats.state, ThreadState::Active);
    assert_eq!(stats.start_tsc, 500);
    assert_eq!(stats.last_known_tsc, 500);
    // a second call changes nothing
    assert_eq!(initialize_thread(&mut registry, &mut ctx, 43, 900), Some(0));
    assert_eq!(stats_of(&registry, 0), stats);
    assert_eq!(registry.next_slot(), 1);
}

#[test]
fn tagged_region_with_external_call() {
    // enter Tagged, work 50, call External for 30, return, work 20, exit Tagged
    let mut registry = ThreadRegistry::new();
    let mut ctx = ThreadContext::new();
    assert_eq!(cpu_cycle_start_measurement(&mut registry, &mut ctx, 7, 100), 100);
    assert_eq!(external_call_start(&mut registry, &mut ctx, 7, 150), 150);
    assert_eq!(
        ctx.frames,
        vec![
            ContextFrame { state: ExecutionState::Unsafe, start_tsc: 100 },
            ContextFrame { state: ExecutionState::ExternalUnsafe, start_tsc: 150 },
        ]
    );
    external_call_end(&mut registry, &mut ctx, 180);
    assert_eq!(
        ctx.frames,
        vec![ContextFrame { state: ExecutionState::Unsafe, start_tsc: 180 }]
    );
    cpu_cycle_end_measurement(&mut registry, &mut ctx, 7, 200);
    let stats = stats_of(&registry, 0);
    assert_eq!(stats.unsafe_cycles, 70);
    assert_eq!(stats.external_unsafe_cycles, 30);
    assert_eq!(stats.normal_cycles, 0);
    assert_eq!(stats.external_safe_cycles, 0);
    assert_eq!(stats.unsafe_blocks, 1);
    assert_eq!(stats.external_calls, 1);
    assert_eq!(
        ctx.frames,
        vec![ContextFrame { state: ExecutionState::Normal, start_tsc: 200 }]
    );
}

#[test]
fn accumulators_add_up_to_the_lifetime() {
    let mut registry = ThreadRegistry::new();
    let mut ctx = ThreadContext::new();
    record_program_start(&mut registry, &mut ctx, 1, 10);
    cpu_cycle_start_measurement(&mut registry, &mut ctx, 1, 25);
    external_call_start(&mut registry, &mut ctx, 1, 40);
    cpu_cycle_start_measurement(&mut registry, &mut ctx, 1, 41);
    cpu_cycle_end_measurement(&mut registry, &mut ctx, 1, 47);
    external_call_end(&mut registry, &mut ctx, 90);
    cpu_cycle_end_measurement(&mut registry, &mut ctx, 1, 120);
    external_call_start(&mut registry, &mut ctx, 1, 130);
    external_call_end(&mut registry, &mut ctx, 131);
    thread_cleanup(&mut registry, &ctx, 200);
    let stats = stats_of(&registry, 0);
    assert_eq!(stats.state, ThreadState::Terminated);
    assert_eq!(stats.start_tsc, 10);
    assert_eq!(stats.last_known_tsc, 200);
    assert_eq!(stats.normal_cycles, 15 + 10 + 69);
    assert_eq!(stats.unsafe_cycles, 15 + 30);
    assert_eq!(stats.external_unsafe_cycles, 1 + 6);
    assert_eq!(stats.external_safe_cycles, 43 + 1);
    assert_eq!(
        stats.normal_cycles
            + stats.unsafe_cycles
            + stats.external_safe_cycles
            + stats.external_unsafe_cycles,
        190
    );
}

#[test]
fn external_call_inside_external_call_counts_as_from_normal() {
    let mut registry = ThreadRegistry::new();
    let mut ctx = ThreadContext::new();
    cpu_cycle_start_measurement(&mut registry, &mut ctx, 1, 10);
    external_call_start(&mut registry, &mut ctx, 1, 20);
    external_call_start(&mut registry, &mut ctx, 1, 30);
    assert_eq!(ctx.frames[1].state, ExecutionState::ExternalUnsafe);
    assert_eq!(ctx.frames[2].state, ExecutionState::ExternalSafe);
}

#[test]
fn entering_a_tagged_region_twice_keeps_the_state() {
    let mut registry = ThreadRegistry::new();
    let mut ctx = ThreadContext::new();
    cpu_cycle_start_measurement(&mut registry, &mut ctx, 1, 10);
    cpu_cycle_start_measurement(&mut registry, &mut ctx, 1, 20);
    assert_eq!(
        ctx.frames,
        vec![ContextFrame { state: ExecutionState::Unsafe, start_tsc: 20 }]
    );
    let stats = stats_of(&registry, 0);
    assert_eq!(stats.unsafe_cycles, 10);
    assert_eq!(stats.unsafe_blocks, 2);
}

#[test]
fn frame_that_starts_at_zero_is_not_charged() {
    let mut registry = ThreadRegistry::new();
    let mut ctx = ThreadContext::new();
    record_program_start(&mut registry, &mut ctx, 1, 0);
    cpu_cycle_start_measurement(&mut registry, &mut ctx, 1, 5);
    assert_eq!(stats_of(&registry, 0).normal_cycles, 0);
    cpu_cycle_end_measurement(&mut registry, &mut ctx, 1, 9);
    assert_eq!(stats_of(&registry, 0).unsafe_cycles, 4);
}

#[test]
fn clock_that_runs_backwards_charges_nothing() {
    let mut registry = ThreadRegistry::new();
    let mut ctx = ThreadContext::new();
    record_program_start(&mut registry, &mut ctx, 1, 100);
    assert_eq!(
        transition_state(&mut registry, &mut ctx, ExecutionState::Unsafe, 1, 90),
        Ok(())
    );
    assert_eq!(stats_of(&registry, 0).normal_cycles, 0);
    assert_eq!(ctx.frames[0], ContextFrame { state: ExecutionState::Unsafe, start_tsc: 90 });
}

#[test]
fn accumulators_wrap_around() {
    let mut registry = ThreadRegistry::new();
    let mut ctx = ThreadContext::new();
    record_program_start(&mut registry, &mut ctx, 1, 1);
    // charge u64::MAX - 1 cycles, then run the clock back and charge again
    transition_state(&mut registry, &mut ctx, ExecutionState::Normal, 1, u64::MAX).unwrap();
    assert_eq!(stats_of(&registry, 0).normal_cycles, u64::MAX - 1);
    transition_state(&mut registry, &mut ctx, ExecutionState::Normal, 1, 1).unwrap();
    transition_state(&mut registry, &mut ctx, ExecutionState::Normal, 1, 4).unwrap();
    assert_eq!(stats_of(&registry, 0).normal_cycles, 1);
}

#[test]
fn transition_without_a_frame_is_refused() {
    let mut registry = ThreadRegistry::new();
    assert_eq!(registry.allocate_slot(), Some(0));
    let mut ctx = ThreadContext { slot: Some(0), frames: Vec::new() };
    assert_eq!(
        transition_state(&mut registry, &mut ctx, ExecutionState::Unsafe, 1, 10),
        Err(ContextError::InvalidStackDepth)
    );
    assert_eq!(ContextError::InvalidStackDepth.message(), "Invalid stack depth");
    assert!(ctx.frames.is_empty());
    assert_eq!(stats_of(&registry, 0), ThreadStats::new());
    // the entry points go on without tracking
    assert_eq!(cpu_cycle_start_measurement(&mut registry, &mut ctx, 1, 10), 10);
    assert_eq!(stats_of(&registry, 0), ThreadStats::new());
}

#[test]
fn stack_overflow_is_not_tracked() {
    let mut registry = ThreadRegistry::new();
    let mut ctx = ThreadContext::new();
    record_program_start(&mut registry, &mut ctx, 1, 1);
    for i in 1..MAX_CONTEXT_DEPTH {
        assert_eq!(
            push_context(&mut registry, &mut ctx, ExecutionState::ExternalSafe, 1, 1 + i as u64),
            Ok(())
        );
    }
    assert_eq!(ctx.frames.len(), MAX_CONTEXT_DEPTH);
    let before = stats_of(&registry, 0);
    assert_eq!(
        push_context(&mut registry, &mut ctx, ExecutionState::ExternalSafe, 1, 1000),
        Err(ContextError::StackOverflow)
    );
    assert_eq!(ContextError::StackOverflow.message(), "Context stack overflow");
    assert_eq!(ctx.frames.len(), MAX_CONTEXT_DEPTH);
    assert_eq!(stats_of(&registry, 0), before);
    // the entry point gives the timestamp back and counts nothing
    assert_eq!(external_call_start(&mut registry, &mut ctx, 1, 2000), 2000);
    assert_eq!(stats_of(&registry, 0), before);
}

#[test]
fn first_frame_is_never_popped() {
    let mut registry = ThreadRegistry::new();
    let mut ctx = ThreadContext::new();
    assert_eq!(
        pop_context(&mut registry, &mut ctx, 5),
        Err(ContextError::ThreadNotInitialized)
    );
    assert_eq!(ContextError::ThreadNotInitialized.message(), "Thread not initialized");
    record_program_start(&mut registry, &mut ctx, 1, 10);
    assert_eq!(pop_context(&mut registry, &mut ctx, 20), Err(ContextError::EmptyStack));
    assert_eq!(
        ContextError::EmptyStack.message(),
        "Cannot pop from empty context stack"
    );
    assert_eq!(
        ctx.frames,
        vec![ContextFrame { state: ExecutionState::Normal, start_tsc: 10 }]
    );
    assert_eq!(stats_of(&registry, 0).normal_cycles, 0);
    external_call_end(&mut registry, &mut ctx, 30);
    assert_eq!(stats_of(&registry, 0).normal_cycles, 0);
}

#[test]
fn pop_resumes_the_frame_below() {
    let mut registry = ThreadRegistry::new();
    let mut ctx = ThreadContext::new();
    record_program_start(&mut registry, &mut ctx, 1, 10);
    push_context(&mut registry, &mut ctx, ExecutionState::ExternalSafe, 1, 30).unwrap();
    assert_eq!(pop_context(&mut registry, &mut ctx, 70), Ok(()));
    assert_eq!(
        ctx.frames,
        vec![ContextFrame { state: ExecutionState::Normal, start_tsc: 70 }]
    );
    let stats = stats_of(&registry, 0);
    assert_eq!(stats.normal_cycles, 20);
    assert_eq!(stats.external_safe_cycles, 40);
}

#[test]
fn registry_capacity_is_fixed() {
    let mut registry = ThreadRegistry::new();
    let mut contexts = Vec::new();
    for i in 0..MAX_THREADS {
        let mut ctx = ThreadContext::new();
        assert_eq!(initialize_thread(&mut registry, &mut ctx, i as u64, 1), Some(i));
        contexts.push(ctx);
    }
    assert_eq!(registry.next_slot(), MAX_THREADS);
    // one thread too many: dropped, and everything goes on
    let mut late = ThreadContext::new();
    assert_eq!(initialize_thread(&mut registry, &mut late, 9999, 2), None);
    assert_eq!(late.slot, None);
    assert!(late.frames.is_empty());
    assert_eq!(cpu_cycle_start_measurement(&mut registry, &mut late, 9999, 3), 0);
    cpu_cycle_end_measurement(&mut registry, &mut late, 9999, 4);
    assert_eq!(external_call_start(&mut registry, &mut late, 9999, 5), 0);
    external_call_end(&mut registry, &mut late, 6);
    record_program_start(&mut registry, &mut late, 9999, 7);
    assert_eq!(
        transition_state(&mut registry, &mut late, ExecutionState::Unsafe, 9999, 8),
        Err(ContextError::ThreadNotInitialized)
    );
    assert_eq!(
        push_context(&mut registry, &mut late, ExecutionState::ExternalSafe, 9999, 9),
        Err(ContextError::ThreadNotInitialized)
    );
    thread_cleanup(&mut registry, &late, 10);
    assert_eq!(late.slot, None);
    assert_eq!(registry.next_slot(), MAX_THREADS);
    assert_eq!(stats_of(&registry, 17).thread_id, 17);
    // the others are still tracked
    cpu_cycle_start_measurement(&mut registry, &mut contexts[17], 17, 50);
    assert_eq!(stats_of(&registry, 17).normal_cycles, 49);
    // once a thread ends, the late one gets its slot
    thread_cleanup(&mut registry, &contexts[5], 60);
    assert_eq!(initialize_thread(&mut registry, &mut late, 9999, 61), Some(5));
}

#[test]
fn reclaimed_slot_starts_from_zero() {
    let mut registry = ThreadRegistry::new();
    let mut a = ThreadContext::new();
    let mut other = ThreadContext::new();
    record_program_start(&mut registry, &mut other, 1, 5);
    record_program_start(&mut registry, &mut a, 2, 10);
    cpu_cycle_start_measurement(&mut registry, &mut a, 2, 20);
    external_call_start(&mut registry, &mut a, 2, 30);
    thread_cleanup(&mut registry, &a, 100);
    let ended = stats_of(&registry, 1);
    assert_eq!(ended.state, ThreadState::Terminated);
    assert_eq!(ended.unsafe_blocks, 1);
    assert_eq!(ended.external_unsafe_cycles, 70);

    let mut b = ThreadContext::new();
    assert_eq!(initialize_thread(&mut registry, &mut b, 3, 200), Some(1));
    assert_eq!(registry.next_slot(), 2);
    assert_eq!(
        stats_of(&registry, 1),
        ThreadStats {
            thread_id: 3,
            state: ThreadState::Active,
            start_tsc: 200,
            last_known_tsc: 200,
            normal_cycles: 0,
            unsafe_cycles: 0,
            external_safe_cycles: 0,
            external_unsafe_cycles: 0,
            unsafe_blocks: 0,
            external_calls: 0,
        }
    );
    assert_eq!(
        b.frames,
        vec![ContextFrame { state: ExecutionState::Normal, start_tsc: 200 }]
    );
}

#[test]
fn first_terminated_slot_is_reclaimed() {
    let mut registry = ThreadRegistry::new();
    let mut contexts = Vec::new();
    for i in 0..4u64 {
        let mut ctx = ThreadContext::new();
        record_program_start(&mut registry, &mut ctx, i, 1);
        contexts.push(ctx);
    }
    thread_cleanup(&mut registry, &contexts[3], 9);
    thread_cleanup(&mut registry, &contexts[1], 9);
    assert_eq!(registry.allocate_slot(), Some(1));
    assert_eq!(stats_of(&registry, 1), ThreadStats::new());
    assert_eq!(registry.allocate_slot(), Some(3));
    assert_eq!(registry.allocate_slot(), Some(4));
    assert_eq!(registry.next_slot(), 5);
}

#[test]
fn report_is_handed_out_once() {
    let mut registry = ThreadRegistry::new();
    let mut ctx = ThreadContext::new();
    record_program_start(&mut registry, &mut ctx, 1, 10);
    cpu_cycle_start_measurement(&mut registry, &mut ctx, 1, 30);
    thread_cleanup(&mut registry, &ctx, 100);
    let first = print_cpu_cycle_stats(&mut registry, 500);
    assert_eq!(
        first,
        Some(CycleReport {
            total_cycles: 90,
            unsafe_cycles: 70,
            external_cycles: 0,
            internal_cycles: 90,
        })
    );
    for _ in 0..5 {
        assert_eq!(print_cpu_cycle_stats(&mut registry, 600), None);
    }
    assert_eq!(stats_of(&registry, 0).unsafe_cycles, 70);
}

#[test]
fn totals_use_the_clock_for_active_threads() {
    let mut registry = ThreadRegistry::new();
    let mut a = ThreadContext::new();
    let mut b = ThreadContext::new();
    record_program_start(&mut registry, &mut a, 1, 100);
    record_program_start(&mut registry, &mut b, 2, 200);
    cpu_cycle_start_measurement(&mut registry, &mut a, 1, 150);
    cpu_cycle_end_measurement(&mut registry, &mut a, 1, 175);
    external_call_start(&mut registry, &mut b, 2, 260);
    external_call_end(&mut registry, &mut b, 300);
    thread_cleanup(&mut registry, &b, 310);
    // a is active: seen from 100 to 1000; b has ended: seen from 200 to 310
    assert_eq!(
        calculate_total_stats(&registry, 1000),
        (900 + 110, 50 + 60 + 10, 25, 40, 0, 1, 1)
    );
    assert_eq!(
        dump_stats(&registry, 1000),
        CycleReport {
            total_cycles: 1010,
            unsafe_cycles: 25,
            external_cycles: 40,
            internal_cycles: 970,
        }
    );
}

#[test]
fn slot_with_more_tagged_cycles_than_lifetime_is_left_out() {
    let mut registry = ThreadRegistry::new();
    let mut a = ThreadContext::new();
    let mut b = ThreadContext::new();
    record_program_start(&mut registry, &mut a, 1, 100);
    record_program_start(&mut registry, &mut b, 2, 100);
    cpu_cycle_start_measurement(&mut registry, &mut a, 1, 100);
    cpu_cycle_end_measurement(&mut registry, &mut a, 1, 400);
    cpu_cycle_start_measurement(&mut registry, &mut b, 2, 110);
    cpu_cycle_end_measurement(&mut registry, &mut b, 2, 120);
    // at 300 the first thread has 300 tagged cycles in a lifetime of 200
    assert_eq!(calculate_total_stats(&registry, 300), (200, 10, 10, 0, 0, 1, 0));
    // a clock before the start of both leaves only threads without tagged cycles
    assert_eq!(calculate_total_stats(&registry, 50), (0, 0, 0, 0, 0, 0, 0));
    assert_eq!(calculate_total_stats(&registry, 400), (600, 10, 310, 0, 0, 2, 0));
}

#[test]
fn unused_slots_are_not_counted() {
    let mut registry = ThreadRegistry::new();
    assert_eq!(calculate_total_stats(&registry, 77), (0, 0, 0, 0, 0, 0, 0));
    // a slot that is claimed but whose thread has not started yet
    assert_eq!(registry.allocate_slot(), Some(0));
    assert_eq!(calculate_total_stats(&registry, 77), (0, 0, 0, 0, 0, 0, 0));
}

#[test]
fn internal_cycles_do_not_go_below_zero() {
    let mut registry = ThreadRegistry::new();
    let mut ctx = ThreadContext::new();
    record_program_start(&mut registry, &mut ctx, 1, 100);
    external_call_start(&mut registry, &mut ctx, 1, 100);
    external_call_end(&mut registry, &mut ctx, 500);
    // seen at 200, the thread has 400 external cycles in a lifetime of 100
    assert_eq!(
        dump_stats(&registry, 200),
        CycleReport {
            total_cycles: 100,
            unsafe_cycles: 0,
            external_cycles: 400,
            internal_cycles: 0,
        }
    );
}

#[test]
fn report_text_has_one_line_per_figure() {
    let report = CycleReport {
        total_cycles: 1010,
        unsafe_cycles: 25,
        external_cycles: 40,
        internal_cycles: 970,
    };
    assert_eq!(
        report.text(),
        "\n===== CPU Cycle Statistics =====\nTotal cycles: 1010\nUnsafe cycles: 25\nExternal cycles: 40\nInternal cycles: 970\n"
    );
    let zero = CycleReport {
        total_cycles: 0,
        unsafe_cycles: 0,
        external_cycles: 0,
        internal_cycles: u64::MAX,
    };
    assert_eq!(
        zero.text(),
        format!(
            "\n===== CPU Cycle Statistics =====\nTotal cycles: 0\nUnsafe cycles: 0\nExternal cycles: 0\nInternal cycles: {}\n",
            u64::MAX
        )
    );
}

#[test]
fn cleanup_without_a_slot_does_nothing() {
    let mut registry = ThreadRegistry::new();
    let ctx = ThreadContext::new();
    thread_cleanup(&mut registry, &ctx, 10);
    assert_eq!(registry.next_slot(), 0);
    assert_eq!(stats_of(&registry, 0), ThreadStats::new());
}

#[test]
fn cleanup_charges_the_open_frame() {
    let mut registry = ThreadRegistry::new();
    let mut ctx = ThreadContext::new();
    cpu_cycle_start_measurement(&mut registry, &mut ctx, 1, 10);
    // the region is never left
    thread_cleanup(&mut registry, &ctx, 60);
    let stats = stats_of(&registry, 0);
    assert_eq!(stats.unsafe_cycles, 50);
    assert_eq!(stats.last_known_tsc, 60);
    assert_eq!(stats.state, ThreadState::Terminated);
    assert_eq!(ctx.slot, Some(0));
}

#[test]
fn inconsistent_slots_are_listed_in_order() {
    let mut registry = ThreadRegistry::new();
    let mut contexts = Vec::new();
    for i in 0..5u64 {
        let mut ctx = ThreadContext::new();
        record_program_start(&mut registry, &mut ctx, i, 100);
        contexts.push(ctx);
    }
    for i in [1usize, 3, 4] {
        cpu_cycle_start_measurement(&mut registry, &mut contexts[i], i as u64, 100);
        cpu_cycle_end_measurement(&mut registry, &mut contexts[i], i as u64, 100 + 10 * i as u64);
    }
    // seen at 125: slot 1 has 10 tagged cycles, slot 3 has 30, slot 4 has 40
    assert_eq!(inconsistent_slots(&registry, 125), vec![3, 4]);
    assert_eq!(inconsistent_slots(&registry, 130), vec![4]);
    assert_eq!(inconsistent_slots(&registry, 140), Vec::<usize>::new());
    assert_eq!(inconsistent_slots(&registry, 0), vec![1, 3, 4]);
    // a thread that has ended is judged by its last timestamp
    thread_cleanup(&mut registry, &contexts[4], 150);
    assert_eq!(inconsistent_slots(&registry, 0), vec![1, 3]);
}

#[test]
fn contexts_belong_to_the_registry_that_gave_the_slot() {
    let mut registry = ThreadRegistry::new();
    let mut ctx = ThreadContext::new();
    assert!(is_attached(&registry, &ctx));
    record_program_start(&mut registry, &mut ctx, 1, 10);
    assert!(is_attached(&registry, &ctx));
    let other = ThreadRegistry::new();
    assert!(!is_attached(&other, &ctx));
    let stray = ThreadContext {
        slot: None,
        frames: vec![ContextFrame { state: ExecutionState::Normal, start_tsc: 1 }],
    };
    assert!(!is_attached(&registry, &stray));
    let deep = ThreadContext {
        slot: Some(0),
        frames: vec![
            ContextFrame { state: ExecutionState::Normal, start_tsc: 1 };
            MAX_CONTEXT_DEPTH + 1
        ],
    };
    assert!(!is_attached(&registry, &deep));
}

#[test]
fn full_stack_is_told_before_the_call() {
    let mut registry = ThreadRegistry::new();
    let mut ctx = ThreadContext::new();
    // a thread without a slot gets one with the call, and its stack is not full
    assert!(!stack_is_full(&ctx));
    for i in 0..MAX_CONTEXT_DEPTH as u64 - 1 {
        assert!(!stack_is_full(&ctx));
        external_call_start(&mut registry, &mut ctx, 1, 10 + i);
    }
    assert_eq!(ctx.frames.len(), MAX_CONTEXT_DEPTH);
    assert!(stack_is_full(&ctx));
    let before = stats_of(&registry, 0);
    assert_eq!(before.external_calls, MAX_CONTEXT_DEPTH as u64 - 1);
    assert_eq!(external_call_start(&mut registry, &mut ctx, 1, 500), 500);
    assert_eq!(stats_of(&registry, 0), before);
    assert_eq!(ctx.frames.len(), MAX_CONTEXT_DEPTH);
    external_call_end(&mut registry, &mut ctx, 600);
    assert!(!stack_is_full(&ctx));
}
