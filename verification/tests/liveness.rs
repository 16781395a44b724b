use spider::liveness::live_set::LiveSet;
use spider::liveness::locals::{LocalTracker, Locals};
use spider::wasm::instruction::{
    Call, I32Constant, Instruction, IntegerBinaryOperation, IntegerBinaryOperator, IntegerType,
    LocalSet, Location, MemoryStore, StoreType,
};

#[test]
fn live_set_grows_and_shrinks() {
    let mut set = LiveSet::new();

    set.grow_insert(5);
    set.grow_insert(1);
    set.grow_insert(5);
    assert_eq!(set.ascending(), vec![1, 5]);
    assert!(set.contains(5));
    assert!(!set.contains(4));

    set.remove(5);
    set.remove(100);
    assert_eq!(set.ascending(), vec![1]);

    set.clear();
    assert!(set.ascending().is_empty());
}

#[test]
fn a_copy_kills_its_destination_and_reads_its_source() {
    let mut tracker = LocalTracker::new();

    tracker.handle_instruction(Instruction::LocalSet(LocalSet { destination: 1, source: 2 }));
    assert_eq!(tracker.live(), vec![2]);
    assert_eq!(tracker.get_count(), 3);

    tracker.handle_instruction(Instruction::I32Constant(I32Constant { destination: 2, data: 7 }));
    assert!(tracker.live().is_empty());
    assert_eq!(tracker.get_count(), 3);
}

#[test]
fn a_register_read_and_written_stays_live() {
    let mut tracker = LocalTracker::new();

    tracker.handle_instruction(Instruction::IntegerBinaryOperation(IntegerBinaryOperation {
        destination: 4,
        lhs: 4,
        rhs: 6,
        kind: IntegerType::I32,
        operator: IntegerBinaryOperator::Add,
    }));

    assert_eq!(tracker.live(), vec![4, 6]);
    assert_eq!(tracker.get_count(), 7);
}

#[test]
fn calls_write_and_read_their_ranges() {
    let mut tracker = LocalTracker::new();

    tracker.handle_instruction(Instruction::LocalSet(LocalSet { destination: 0, source: 8 }));
    tracker.handle_instruction(Instruction::Call(Call {
        destinations: (8, 10),
        sources: (4, 6),
        function: 2,
    }));

    assert_eq!(tracker.live(), vec![2, 4, 5]);
    assert_eq!(tracker.get_count(), 10);
}

#[test]
fn instructions_are_walked_backwards() {
    let mut tracker = LocalTracker::new();
    let code = [
        Instruction::I32Constant(I32Constant { destination: 5, data: 0 }),
        Instruction::MemoryStore(MemoryStore {
            destination: Location { reference: 1, offset: 5 },
            source: 6,
            offset: 0,
            kind: StoreType::I32,
        }),
        Instruction::Unreachable,
    ];

    tracker.handle_instructions(&code);

    assert_eq!(tracker.live(), vec![6]);
    assert_eq!(tracker.get_count(), 7);
}

#[test]
fn blocks_record_their_live_registers() {
    let mut locals = Locals::new();

    locals.set_len(3);
    locals.insert(1, &[2, 5, 9]);
    locals.insert(0, &[5, 7]);

    assert_eq!(locals.get(0), &[5, 7]);
    assert_eq!(locals.get(1), &[2, 5, 9]);
    assert!(locals.get(2).is_empty());

    let mut successors = vec![42];
    locals.get_union(&[0, 1, 2], &mut successors);
    assert_eq!(successors, vec![2, 5, 7, 9]);

    let mut tracker = LocalTracker::new();
    tracker.read_other_in(&locals, 1);
    assert_eq!(tracker.live(), vec![2, 5, 9]);
}
