use spider::lua::printer::{fmt_delimited, fmt_locals, fmt_stack_enter, fmt_stack_leave, packs_dependencies, LuaNoFFIPrinter};
use spider::tree::expression::{Expression, Function, Local, Name, Scoped};
use spider::tree::statement::{Assign, Sequence, Statement};

fn text(bytes: Vec<u8>) -> String {
    String::from_utf8(bytes).unwrap()
}

fn function(arguments: Vec<Name>, code: Vec<Statement>, key: Option<Vec<u8>>) -> Function {
    Function {
        arguments,
        locals: vec![Name { id: 300 }],
        stack: 0,
        code: Sequence { list: code },
        returns: vec![Expression::Local(Local::Fast { name: Name { id: 300 } })],
        key,
    }
}

fn scoped(count: u32, code: Vec<Statement>) -> Scoped {
    Scoped {
        dependencies: (0..count).map(|id| (Name { id }, Expression::I32(id as i32))).collect(),
        function: function(vec![Name { id: 200 }], code, None),
    }
}

#[test]
fn names_print_with_prefix_or_exact_text() {
    let mut printer = LuaNoFFIPrinter::new();
    assert_eq!(text(printer.print_name(Name { id: 7 })), "loc_7_");
    printer.set_exact_name(Name { id: 7 }, b"runtime".to_vec());
    assert_eq!(text(printer.print_name(Name { id: 7 })), "runtime");
    assert_eq!(printer.take_exact_name(Name { id: 7 }), Some(b"runtime".to_vec()));
    assert_eq!(text(printer.print_name(Name { id: 7 })), "loc_7_");
    assert_eq!(text(printer.print_names(&[Name { id: 1 }, Name { id: 20 }])), "loc_1_, loc_20_");
}

#[test]
fn locals_print_by_name_or_stack_slot() {
    let printer = LuaNoFFIPrinter::new();
    assert_eq!(text(printer.print_local(Local::Slow { offset: 3 })), "excess_stack[stack_top - 3]");
    assert_eq!(text(printer.print_local(Local::Fast { name: Name { id: 4 } })), "loc_4_");
}

#[test]
fn frames_and_locals_are_indented() {
    let mut printer = LuaNoFFIPrinter::new();
    printer.indent();
    assert_eq!(
        text(fmt_stack_enter(4, &printer)),
        "\tlocal stack_top = excess_stack.top + 4\n\texcess_stack.top = stack_top\n"
    );
    assert_eq!(text(fmt_stack_leave(4, &printer)), "\texcess_stack.top = stack_top - 4\n");
    assert!(fmt_stack_enter(0, &printer).is_empty());
    assert_eq!(text(fmt_locals(&[Name { id: 2 }, Name { id: 3 }], &printer)), "\tlocal loc_2_, loc_3_\n");
    assert!(fmt_locals(&[], &printer).is_empty());
}

#[test]
fn function_value_registers_its_type() {
    let printer = LuaNoFFIPrinter::new();
    let typed = function(vec![Name { id: 1 }], vec![], Some(b"i32->i32".to_vec()));
    assert_eq!(text(printer.print_function_open(&typed)), "rt_function_type((function(loc_1_)\n");
    assert_eq!(text(printer.print_function_close(&typed)), "end), \"i32->i32\")");
}

#[test]
fn packing_starts_at_forty_eight_dependencies() {
    assert!(!packs_dependencies(47));
    assert!(packs_dependencies(48));
}

#[test]
fn few_dependencies_become_locals() {
    let mut printer = LuaNoFFIPrinter::new();
    let closure = scoped(2, vec![]);
    let (open, start, previous) = printer.open_scoped(&closure);
    assert_eq!(text(open), "(function()\n");
    assert_eq!(start, 0);
    assert!(previous.is_empty());
    assert_eq!(text(printer.print_scoped_local(Name { id: 0 }, b"5")), "\tlocal loc_0_ = 5;\n");
    assert_eq!(text(printer.print_scoped_return()), "\treturn ");
    assert_eq!(text(printer.close_scoped(&closure, &[])), "\nend)()");
}

#[test]
fn many_dependencies_are_packed_into_a_table() {
    let mut printer = LuaNoFFIPrinter::new();
    let copy = Statement::Assign(Box::new(Assign {
        destination: Local::Fast { name: Name { id: 100 } },
        source: Expression::Local(Local::Fast { name: Name { id: 1 } }),
    }));
    let other = Statement::Assign(Box::new(Assign {
        destination: Local::Fast { name: Name { id: 101 } },
        source: Expression::I32(3),
    }));
    let closure = scoped(48, vec![copy, other]);
    let (open, start, previous) = printer.open_scoped(&closure);
    let open = text(open);
    let arguments: Vec<String> = (0..48).map(|i| format!("__spider_scoped_dependency_{i}")).collect();
    let entries: String = (0..48).map(|i| format!("\t\t\t__spider_scoped_dependency_{i},\n")).collect();
    let expected = format!(
        "(function()\n(function({})\n\t\tlocal __spider_scoped_dependencies = {{\n{}\t\t}}\n\t\treturn (function(loc_200_)\n\t\t\tlocal loc_300_\n",
        arguments.join(", "),
        entries
    );
    assert_eq!(open, expected);
    assert_eq!(start, 1);
    assert_eq!(previous.len(), 49);
    assert_eq!(text(printer.print_name(Name { id: 0 })), "__spider_scoped_dependencies[1]");
    assert_eq!(text(printer.print_name(Name { id: 47 })), "__spider_scoped_dependencies[48]");
    assert_eq!(text(printer.print_name(Name { id: 100 })), "__spider_scoped_dependencies[2]");

    let close_body = printer.close_function_body(&closure.function, &[b"loc_300_".to_vec()], previous);
    assert_eq!(text(close_body), "\t\t\treturn loc_300_\n");
    // Names that had no exact text before keep the one the closure gave them.
    assert_eq!(text(printer.print_name(Name { id: 0 })), "__spider_scoped_dependencies[1]");

    let sources: Vec<Vec<u8>> = (0..48).map(|i| format!("{i}").into_bytes()).collect();
    let close = text(printer.close_scoped(&closure, &sources));
    let joined: Vec<String> = (0..48).map(|i| format!("{i}")).collect();
    assert_eq!(close, format!("\t\tend)\n\tend)({})\nend)()", joined.join(", ")));
}

#[test]
fn packed_bindings_put_back_earlier_exact_texts() {
    let mut printer = LuaNoFFIPrinter::new();
    printer.set_exact_name(Name { id: 5 }, b"outer".to_vec());
    let closure = scoped(48, vec![]);
    let (_open, start, previous) = printer.open_scoped(&closure);
    assert_eq!(start, 0);
    assert_eq!(text(printer.print_name(Name { id: 5 })), "__spider_scoped_dependencies[6]");
    printer.close_function_body(&closure.function, &[b"x".to_vec()], previous);
    assert_eq!(text(printer.print_name(Name { id: 5 })), "outer");
}

#[test]
fn runtime_names_are_sorted_and_distinct() {
    let mut printer = LuaNoFFIPrinter::new();
    assert!(printer.runtime_names().is_empty());
    printer.set_runtime_names(vec![b"i64_add".to_vec(), b"bit32_band".to_vec(), b"i64_add".to_vec()]);
    assert_eq!(printer.runtime_names(), &[b"bit32_band".to_vec(), b"i64_add".to_vec()]);
}

#[test]
fn delimited_items_are_separated_by_commas() {
    assert_eq!(text(fmt_delimited(&[b"a".to_vec(), b"bc".to_vec(), b"d".to_vec()])), "a, bc, d");
    assert!(fmt_delimited(&[]).is_empty());
}
