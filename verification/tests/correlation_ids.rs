use turn_core::correlation::CorrelationTable;
use turn_core::ids::CallIdGen;

#[test]
fn ids_count_up_from_zero() {
    let mut gen = CallIdGen::new();
    assert_eq!(gen.next(), 0);
    assert_eq!(gen.next(), 1);
    assert_eq!(gen.next(), 2);
}

#[test]
fn id_wraparound_resumes_at_zero() {
    let mut gen = CallIdGen::starting_at(u32::MAX - 1);
    assert_eq!(gen.next(), u32::MAX - 1);
    assert_eq!(gen.next(), u32::MAX);
    // never skips to one
    assert_eq!(gen.next(), 0);
    assert_eq!(gen.next(), 1);
}

#[test]
fn wrapped_id_correlates() {
    let mut gen = CallIdGen::starting_at(u32::MAX);
    assert_eq!(gen.next(), u32::MAX);
    let wrapped = gen.next();
    assert_eq!(wrapped, 0);
    let mut table: CorrelationTable<&'static str> = CorrelationTable::new();
    assert!(table.register(wrapped, "slot for the wrapped call").is_ok());
    assert_eq!(table.resolve(wrapped), Some("slot for the wrapped call"));
    assert!(!table.is_pending(wrapped));
}

#[test]
fn permuted_replies_reach_their_own_callers() {
    let mut table: CorrelationTable<String> = CorrelationTable::new();
    let n: u32 = 8;
    for id in 0..n {
        assert!(table.register(id, format!("slot {}", id)).is_ok());
    }
    assert_eq!(table.pending_count(), n as usize);
    // resolve in an arbitrary permuted order
    for id in [5u32, 0, 7, 2, 6, 1, 4, 3] {
        let slot = table.resolve(id).expect("call should be in flight");
        assert_eq!(slot, format!("slot {}", id));
    }
    assert_eq!(table.pending_count(), 0);
}

#[test]
fn late_reply_is_dropped_without_error() {
    let mut table: CorrelationTable<u8> = CorrelationTable::new();
    assert!(table.register(3, 30).is_ok());
    // an id with no pending call takes nothing out
    assert_eq!(table.resolve(99), None);
    assert_eq!(table.pending_count(), 1);
    assert_eq!(table.resolve(3), Some(30));
    // a second reply for the same id finds nothing: remove-once semantics
    assert_eq!(table.resolve(3), None);
}

#[test]
fn duplicate_registration_is_refused() {
    let mut table: CorrelationTable<u8> = CorrelationTable::new();
    assert!(table.register(1, 10).is_ok());
    // the in-flight call keeps its slot; the new slot comes back
    assert_eq!(table.register(1, 11), Err(11));
    assert_eq!(table.resolve(1), Some(10));
}
