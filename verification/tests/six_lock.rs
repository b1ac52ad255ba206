use six_lock::six::SixLock;

#[test]
fn new_lock_is_unlocked() {
    let lock = SixLock::new();
    assert_eq!(lock.read_count(), 0);
    assert_eq!(lock.intent_count(), 0);
    assert!(!lock.is_write_held());
    assert_eq!(lock.sequence(), 0);
}

#[test]
fn reads_accumulate_and_release() {
    let mut lock = SixLock::new();
    let a = lock.read();
    let b = lock.read();
    let c = lock.try_read().expect("no write held, so a read must be admitted");
    assert_eq!(lock.read_count(), 3);
    assert_eq!(lock.sequence(), 0);
    b.release(&mut lock);
    assert_eq!(lock.read_count(), 2);
    a.release(&mut lock);
    c.release(&mut lock);
    assert_eq!(lock.read_count(), 0);
    assert_eq!(lock.sequence(), 0);
}

#[test]
fn intent_is_exclusive_across_lineages() {
    let mut lock = SixLock::new();
    let first = lock.try_intent().expect("intent slot free");
    assert_eq!(lock.intent_count(), 1);
    assert!(lock.try_intent().is_none(), "a second lineage must be refused");
    let dup = first.duplicate(&mut lock);
    assert_eq!(lock.intent_count(), 2, "the holder itself may still duplicate");
    dup.release(&mut lock);
    assert!(lock.try_intent().is_none(), "one hold remains");
    first.release(&mut lock);
    assert_eq!(lock.intent_count(), 0);
    let again = lock.try_intent().expect("slot free again");
    again.release(&mut lock);
}

#[test]
fn intent_does_not_block_readers() {
    let mut lock = SixLock::new();
    let intent = lock.intent();
    let r = lock.try_read().expect("intent must not block readers");
    assert_eq!(lock.read_count(), 1);
    assert_eq!(lock.intent_count(), 1);
    r.release(&mut lock);
    intent.release(&mut lock);
}

#[test]
fn write_blocks_new_reads_but_keeps_old_ones() {
    let mut lock = SixLock::new();
    let early_reader = lock.read();
    let intent = lock.intent();
    let w = intent.try_write(&mut lock).expect("write slot free");
    assert!(lock.is_write_held());
    assert!(lock.try_read().is_none(), "no new read while write held");
    assert_eq!(lock.read_count(), 1, "the early reader is not evicted");
    early_reader.release(&mut lock);
    assert_eq!(lock.read_count(), 0);
    w.release(&mut lock);
    let late = lock.try_read().expect("admitted again once the write is gone");
    late.release(&mut lock);
    intent.release(&mut lock);
}

#[test]
fn scenario_unlocked_to_write_and_back() {
    let mut lock = SixLock::new();
    let reader = lock.read();
    assert_eq!(lock.read_count(), 1);
    let intent = lock.try_intent().expect("intent free, reader still counted");
    assert_eq!(lock.read_count(), 1);
    let w = intent.try_write(&mut lock).expect("no write held, succeeds immediately");
    assert!(lock.is_write_held());
    assert_eq!(lock.sequence(), 1);
    reader.release(&mut lock);
    assert_eq!(lock.read_count(), 0);
    assert!(lock.try_read().is_none(), "a third party is refused while write held");
    w.release(&mut lock);
    assert!(!lock.is_write_held());
    assert_eq!(lock.sequence(), 2, "leaving the write mode advances the sequence again");
    let r = lock.try_read().expect("admitted once more");
    r.release(&mut lock);
    intent.release(&mut lock);
}

#[test]
fn write_release_keeps_intent_hold() {
    let mut lock = SixLock::new();
    let intent = lock.intent();
    let w = intent.write(&mut lock);
    w.release(&mut lock);
    assert_eq!(lock.intent_count(), 1, "the intent hold survives the write");
    let w2 = intent.try_write(&mut lock).expect("the same intent can write again");
    w2.release(&mut lock);
    intent.release(&mut lock);
    assert_eq!(lock.sequence(), 4);
}

#[test]
fn try_write_fails_while_write_held() {
    let mut lock = SixLock::new();
    let intent = lock.intent();
    let twin = intent.duplicate(&mut lock);
    let w = intent.try_write(&mut lock).expect("slot free");
    assert!(twin.try_write(&mut lock).is_none(), "the write slot is single");
    w.release(&mut lock);
    twin.release(&mut lock);
    intent.release(&mut lock);
}

#[test]
fn downgrade_then_upgrade_round_trips() {
    let mut lock = SixLock::new();
    let pre_reader = lock.read();
    let intent = lock.intent();
    let reads_before = lock.read_count();
    let reader = intent.downgrade(&mut lock);
    assert_eq!(lock.intent_count(), 0);
    assert_eq!(lock.read_count(), reads_before + 1);
    let intent_again = reader
        .try_upgrade(&mut lock)
        .unwrap_or_else(|_| panic!("intent slot free, upgrade must succeed"));
    assert_eq!(lock.intent_count(), 1);
    assert_eq!(lock.read_count(), reads_before, "read count is back to before the downgrade");
    intent_again.release(&mut lock);
    pre_reader.release(&mut lock);
}

#[test]
fn upgrade_conflict_returns_the_read_guard() {
    let mut lock = SixLock::new();
    let reader = lock.read();
    let intent = lock.intent();
    match reader.try_upgrade(&mut lock) {
        Ok(_) => panic!("intent is held elsewhere, the upgrade must fail"),
        Err(reader_back) => {
            assert_eq!(lock.read_count(), 1, "the read hold is not lost");
            assert_eq!(lock.intent_count(), 1);
            reader_back.release(&mut lock);
        }
    }
    assert_eq!(lock.read_count(), 0);
    intent.release(&mut lock);
}

#[test]
fn relock_succeeds_with_no_intervening_write() {
    let mut lock = SixLock::new();
    let reader = lock.read();
    let handle = reader.relock_handle(&lock);
    reader.release(&mut lock);
    let other = lock.read();
    other.release(&mut lock);
    let intent = lock.intent();
    intent.release(&mut lock);
    let relocked = handle
        .try_read(&mut lock)
        .expect("read and intent churn leaves the sequence untouched");
    assert_eq!(lock.read_count(), 1);
    relocked.release(&mut lock);
}

#[test]
fn relock_fails_after_a_write() {
    let mut lock = SixLock::new();
    let reader = lock.read();
    let handle = reader.relock_handle(&lock);
    reader.release(&mut lock);
    let intent = lock.intent();
    let w = intent.write(&mut lock);
    assert!(handle.try_read(&mut lock).is_none(), "refused while the write is held");
    w.release(&mut lock);
    assert!(handle.try_read(&mut lock).is_none(), "still refused after it is released");
    intent.release(&mut lock);
    assert!(handle.try_read(&mut lock).is_none(), "a write happened: stale for good");
}

#[test]
fn relock_for_intent_checks_the_intent_slot() {
    let mut lock = SixLock::new();
    let reader = lock.read();
    let handle = reader.relock_handle(&lock);
    reader.release(&mut lock);
    let blocker = lock.intent();
    assert!(handle.try_intent(&mut lock).is_none(), "intent held elsewhere");
    blocker.release(&mut lock);
    let intent = handle.try_intent(&mut lock).expect("slot free, sequence unchanged");
    assert_eq!(lock.intent_count(), 1);
    let w = intent.write(&mut lock);
    w.release(&mut lock);
    intent.release(&mut lock);
    assert!(handle.try_intent(&mut lock).is_none(), "stale once a write happened");
}

#[test]
fn duplicate_and_release_balance_out() {
    let mut lock = SixLock::new();
    let reader = lock.read();
    assert_eq!(lock.read_count(), 1);
    let mut dups = Vec::new();
    for _ in 0..5 {
        dups.push(reader.duplicate(&mut lock));
    }
    assert_eq!(lock.read_count(), 6);
    for d in dups {
        d.release(&mut lock);
    }
    reader.release(&mut lock);
    assert_eq!(lock.read_count(), 0, "all six releases accounted for, none leaked");
    assert_eq!(lock.sequence(), 0, "read churn never moves the sequence");
}

#[test]
fn sequence_moves_only_on_write_transitions() {
    let mut lock = SixLock::new();
    let r = lock.read();
    let i = lock.try_intent().expect("free");
    let d = i.duplicate(&mut lock);
    d.release(&mut lock);
    r.release(&mut lock);
    assert_eq!(lock.sequence(), 0);
    let w = i.write(&mut lock);
    assert_eq!(lock.sequence(), 1);
    w.release(&mut lock);
    assert_eq!(lock.sequence(), 2);
    i.release(&mut lock);
    assert_eq!(lock.sequence(), 2);
}
