use stm32f3_common::shared::{EdgeCounter, InterruptShared};

#[test]
fn interleaved_reads_lose_no_interrupt() {
    let mut state: InterruptShared<u32> = InterruptShared::new();
    assert_eq!(state.populate(7), Ok(()));
    let n = 1000u32;
    let mut last_read = 0u32;
    for i in 0..n {
        state.on_interrupt(i % 3 == 0);
        if i % 7 == 0 {
            let seen = state.events();
            assert_eq!(seen, i + 1);
            assert!(seen >= last_read);
            last_read = seen;
        }
    }
    assert_eq!(state.events(), n);
    assert_eq!(state.acknowledged(), 334);
}

#[test]
fn handle_slot_is_populated_once() {
    let mut state: InterruptShared<(u32, u32)> = InterruptShared::new();
    assert!(!state.is_populated());
    assert_eq!(state.handle(), None);
    state.on_interrupt(true);
    assert_eq!(state.populate((1, 2)), Ok(()));
    state.on_interrupt(true);
    assert_eq!(state.populate((3, 4)), Err((3, 4)));
    state.on_interrupt(false);
    assert!(state.is_populated());
    assert_eq!(state.handle(), Some(&(1, 2)));
}

#[test]
fn pending_flag_drained_only_with_handle() {
    let mut state: InterruptShared<u8> = InterruptShared::new();
    assert!(!state.on_interrupt(true));
    assert_eq!(state.acknowledged(), 0);
    assert_eq!(state.events(), 1);
    state.populate(0).unwrap();
    assert!(state.on_interrupt(true));
    assert!(!state.on_interrupt(false));
    assert_eq!(state.events(), 3);
    assert_eq!(state.acknowledged(), 1);
}

#[test]
fn edge_counter_counts_increments() {
    let mut c = EdgeCounter::new();
    assert_eq!(c.read(), 0);
    for _ in 0..5 {
        c.increment();
    }
    assert_eq!(c.read(), 5);
}
