use spider::graph::simple::{IntegerCompareOperator, IntegerType, LoadType};
use spider::tree::expression::{
    BooleanToInteger, Expression, IntegerCompareOperation, Local, Location, MemoryLoad, Name,
    RefIsNull,
};

fn is_nonzero_test_of_i32(e: &Expression, value: i32) -> bool {
    match e {
        Expression::IntegerCompareOperation(operation) => {
            matches!(operation.lhs, Expression::I32(v) if v == value)
                && matches!(operation.rhs, Expression::I32(0))
                && operation.kind == IntegerType::I32
                && operation.operator == IntegerCompareOperator::NotEqual
        }
        _ => false,
    }
}

#[test]
fn integer_constant_becomes_nonzero_test() {
    let e = Expression::I32(5).into_boolean();
    assert!(is_nonzero_test_of_i32(&e, 5));
}

#[test]
fn local_becomes_nonzero_test() {
    let local = Local::Fast { name: Name { id: 3 } };
    let e = Expression::Local(local).into_boolean();
    match e {
        Expression::IntegerCompareOperation(operation) => {
            assert!(matches!(operation.lhs, Expression::Local(l) if l == local));
            assert!(matches!(operation.rhs, Expression::I32(0)));
            assert_eq!(operation.operator, IntegerCompareOperator::NotEqual);
        }
        _ => panic!("expected a comparison"),
    }
}

#[test]
fn boolean_to_integer_gives_back_its_boolean() {
    let inner = Expression::RefIsNull(Box::new(RefIsNull { source: Expression::Null }));
    let e = Expression::BooleanToInteger(Box::new(BooleanToInteger { source: inner }))
        .into_boolean();
    match e {
        Expression::RefIsNull(check) => assert!(matches!(check.source, Expression::Null)),
        _ => panic!("expected the inner null check"),
    }
}

#[test]
fn comparison_stays_as_it_is() {
    let comparison = IntegerCompareOperation {
        lhs: Expression::I32(1),
        rhs: Expression::I32(2),
        kind: IntegerType::I32,
        operator: IntegerCompareOperator::LessThan { signed: true },
    };
    let e = Expression::IntegerCompareOperation(Box::new(comparison)).into_boolean();
    match e {
        Expression::IntegerCompareOperation(operation) => {
            assert!(matches!(operation.lhs, Expression::I32(1)));
            assert!(matches!(operation.rhs, Expression::I32(2)));
            assert_eq!(operation.operator, IntegerCompareOperator::LessThan { signed: true });
        }
        _ => panic!("expected the same comparison"),
    }
}

#[test]
fn trap_stays_a_trap() {
    assert!(matches!(Expression::Trap.into_boolean(), Expression::Trap));
}

#[test]
fn narrow_memory_load_becomes_nonzero_test() {
    let load = MemoryLoad {
        source: Location { reference: Expression::Null, offset: Expression::I32(8) },
        offset: 4,
        kind: LoadType::I32_U8,
    };
    let e = Expression::MemoryLoad(Box::new(load)).into_boolean();
    match e {
        Expression::IntegerCompareOperation(operation) => {
            assert!(matches!(operation.lhs, Expression::MemoryLoad(_)));
            assert!(matches!(operation.rhs, Expression::I32(0)));
        }
        _ => panic!("expected a comparison"),
    }
}

#[test]
fn into_local_reads_the_local() {
    let local = Local::Slow { offset: 12 };
    assert_eq!(Expression::Local(local).into_local(), local);
}
