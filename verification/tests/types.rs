use spider::wasm::stack_builder::{Jump, StackBuilder, LOCAL_BASE};
use spider::wasm::types::{build_function_key, BlockKind, Signature, Types};

fn texts(names: &[&str]) -> Vec<Vec<char>> {
    names.iter().map(|name| name.chars().collect()).collect()
}

#[test]
fn function_keys_join_parameters_and_results() {
    let signature = Signature { parameters: texts(&["i32", "f64"]), results: texts(&["i64"]) };

    assert_eq!(build_function_key(&signature), "i32,f64->i64");
}

#[test]
fn function_keys_fold_unsafe_characters() {
    let signature = Signature { parameters: texts(&["(ref null $t)"]), results: texts(&[]) };

    assert_eq!(build_function_key(&signature), "_ref_null__t_->");
}

#[test]
fn a_type_section_gives_keys_and_counts() {
    // One recursion group per function type: (i32) -> (i64), then (i32, f64) -> ().
    let bytes = [0x02, 0x60, 0x01, 0x7f, 0x01, 0x7e, 0x60, 0x02, 0x7f, 0x7c, 0x00];
    let mut types = Types::new();

    types.add_sub_types(&bytes);
    assert_eq!(types.get_type_key(0), "i32->i64");
    assert_eq!(types.get_type_key(1), "i32,f64->");
    assert_eq!(types.get_parameter_count(BlockKind::FuncType(1)), 2);
    assert_eq!(types.get_result_count(BlockKind::FuncType(0)), 1);
    assert_eq!(types.get_result_count(BlockKind::Type), 1);
    assert_eq!(types.get_parameter_count(BlockKind::Empty), 0);
}

#[test]
fn a_truncated_type_section_is_reported() {
    let bytes = [0x02, 0x60, 0x01, 0x7f, 0x01, 0x7e, 0x60];
    let mut types = Types::new();

    assert!(types.try_add_sub_types(&[0x01, 0x60, 0x00, 0x00]));
    assert!(!types.try_add_sub_types(&bytes));
    assert_eq!(types.get_type_key(0), "->");
    assert!(types.try_add_sub_types(&[0x01, 0x60, 0x01, 0x7f, 0x00]));
    assert_eq!(types.get_type_key(1), "i32->");
}

#[test]
fn a_function_section_gives_type_indices() {
    let bytes = [0x02, 0x00, 0x05];
    let mut types = Types::new();

    types.add_functions(&bytes);
    assert_eq!(types.get_function_index(0), 0);
    assert_eq!(types.get_function_index(1), 5);
    assert!(!types.try_add_functions(&[0x03, 0x01]));
    assert!(types.try_add_functions(&[0x01, 0x07]));
    assert_eq!(types.get_function_index(2), 7);
}

#[test]
fn a_function_type_is_found_through_its_function() {
    let bytes = [0x01, 0x60, 0x02, 0x7f, 0x7f, 0x00];
    let mut types = Types::new();
    types.add_sub_types(&bytes);
    types.add_function(0);

    let signature = types.get_function_type(0);
    assert_eq!(signature.parameters.len(), 2);
    assert!(signature.results.is_empty());
}

#[test]
fn a_function_frames_its_arguments_and_locals() {
    let bytes = [0x01, 0x60, 0x02, 0x7f, 0x7f, 0x01, 0x7f];
    let mut types = Types::new();
    types.add_sub_types(&bytes);

    let mut stack = StackBuilder::new();
    stack.set_function_data(&types, BlockKind::FuncType(0), 3);

    assert_eq!(stack.get_top(), LOCAL_BASE + 5);
    let level = stack.pull_level();
    assert_eq!(level.parameters, 2);
    assert_eq!(level.results, 1);
    assert_eq!(level.base, LOCAL_BASE);
    assert_eq!(stack.get_top(), LOCAL_BASE + 1);
}

#[test]
fn levels_take_their_parameters_from_the_stack() {
    let bytes = [0x01, 0x60, 0x01, 0x7f, 0x02, 0x7f, 0x7f];
    let mut types = Types::new();
    types.add_sub_types(&bytes);

    let mut stack = StackBuilder::new();
    stack.set_top(10);
    stack.push_level(&types, BlockKind::FuncType(0), Some(3));
    stack.push_local();
    stack.push_local();

    let level = stack.pull_level();
    assert_eq!(level.base, 9);
    assert_eq!(level.destination, Some(3));
    assert_eq!(stack.get_top(), 11);
}

#[test]
fn registers_wrap_in_unreachable_code() {
    let mut stack = StackBuilder::new();

    assert_eq!(stack.pull_local(), u16::MAX);
    assert_eq!(stack.get_top(), u16::MAX);
    assert_eq!(stack.push_local(), u16::MAX);
    assert_eq!(stack.get_top(), 0);
}

#[test]
fn calls_pull_arguments_and_push_results() {
    let mut stack = StackBuilder::new();
    stack.set_top(20);
    let signature = Signature { parameters: texts(&["i32", "i32", "i32"]), results: texts(&["f32"]) };

    let (destinations, sources) = stack.load_function_type(&signature);
    assert_eq!(sources, (17, 20));
    assert_eq!(destinations, (17, 18));
    assert_eq!(stack.get_top(), 18);
}

#[test]
fn jumps_are_recorded_on_their_level() {
    let types = Types::new();
    let mut stack = StackBuilder::new();
    stack.set_function_data(&types, BlockKind::Empty, 0);
    stack.push_level(&types, BlockKind::Empty, None);
    stack.set_top(7);
    stack.jump_to_depth(6, 2, 1);
    stack.jump_to_level(5, 0, 1);

    let inner = stack.pull_level();
    let Jump { stack: height, source, branch } = inner.jumps[0];
    assert_eq!((height, source, branch), (7, 5, 0));
    let outer = stack.pull_level();
    assert_eq!(outer.jumps.len(), 1);
    assert_eq!((outer.jumps[0].stack, outer.jumps[0].source, outer.jumps[0].branch), (7, 6, 2));
}
