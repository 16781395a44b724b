use spider::lua::printer::{escape_ascii_text, use_table_backed_module_locals, LuaNoFFIPrinter, Piece};
use spider::tree::expression::{BooleanToInteger, Expression, Local, Name};
use spider::tree::statement::{Assign, Call, Export, Sequence, SwapAll};
use spider::tree::LuaNoFFITree;

fn text(bytes: Vec<u8>) -> String {
    String::from_utf8(bytes).unwrap()
}

fn fast(id: u32) -> Local {
    Local::Fast { name: Name { id } }
}

fn tree(locals: u32, exports: Vec<Export>) -> LuaNoFFITree {
    LuaNoFFITree {
        environment: Name { id: 0 },
        locals: (1..=locals).map(|id| Name { id }).collect(),
        stack: 0,
        code: Sequence { list: vec![] },
        exports,
    }
}

#[test]
fn swap_all_exchanges_each_neighbouring_pair() {
    let printer = LuaNoFFIPrinter::new();
    let swap = SwapAll { locals: vec![fast(1), fast(2), Local::Slow { offset: 3 }] };
    assert_eq!(
        text(printer.print_swap_all(&swap)),
        "loc_1_, loc_2_ = loc_2_, loc_1_;\nloc_2_, excess_stack[stack_top - 3] = excess_stack[stack_top - 3], loc_2_;\n"
    );
    assert!(printer.print_swap_all(&SwapAll { locals: vec![fast(1)] }).is_empty());
}

#[test]
fn assignments_calls_and_globals_print_their_parts() {
    let printer = LuaNoFFIPrinter::new();
    let assign = Assign { destination: fast(1), source: Expression::I32(5) };
    assert_eq!(text(printer.print_assign(&assign, b"5")), "loc_1_ = 5;\n");
    let call = Call { function: Expression::Null, results: vec![fast(4)], arguments: vec![Expression::I32(1), Expression::I32(2)] };
    assert_eq!(text(printer.print_call(&call, b"f", &[b"1".to_vec(), b"2".to_vec()])), "loc_4_ = f(1, 2)\n");
    let bare = Call { function: Expression::Null, results: vec![], arguments: vec![] };
    assert_eq!(text(printer.print_call(&bare, b"f", &[])), "f()\n");
    assert_eq!(text(printer.print_global_set(b"g", b"3")), "g[1] = 3;\n");
}

#[test]
fn repeat_tests_a_boolean_directly() {
    let mut printer = LuaNoFFIPrinter::new();
    assert_eq!(text(printer.open_repeat()), "repeat\n");
    let boolean = Expression::BooleanToInteger(Box::new(BooleanToInteger { source: Expression::Null }));
    assert_eq!(text(printer.close_repeat(&boolean, b"x")), "until not (x)\n");
    printer.open_repeat();
    assert_eq!(text(printer.close_repeat(&Expression::I32(1), b"x")), "until x == 0\n");
}

#[test]
fn a_small_module_declares_its_locals() {
    let mut printer = LuaNoFFIPrinter::new();
    printer.set_runtime_names(vec![b"i64_add".to_vec(), b"bit32_band".to_vec()]);
    let module = tree(1, vec![Export { identifier: b"run\"x".to_vec(), source: Expression::I32(0) }]);
    let (open, backed) = printer.open_module(&module);
    assert!(!backed);
    assert_eq!(
        text(open),
        "local function module(loc_0_)\n\tlocal excess_stack = { top = 0 }\n\tlocal bit32_band = runtime.bit32_band\n\tlocal rt_i64_add = runtime.rt_i64_add\n\tlocal loc_1_\n"
    );
    let close = printer.close_module(&module, &[b"loc_1_".to_vec()], backed);
    assert_eq!(text(close), "\tlocal export = {\n\t\t[\"run\\\"x\"] = loc_1_,\n\t}\n\treturn export\nend\n");
}

#[test]
fn a_large_module_keeps_its_locals_in_a_table() {
    let mut printer = LuaNoFFIPrinter::new();
    let module = tree(197, vec![]);
    assert!(!use_table_backed_module_locals(&printer, &module.locals, 0));
    let module = tree(198, vec![]);
    assert!(use_table_backed_module_locals(&printer, &module.locals, 0));
    let (open, backed) = printer.open_module(&module);
    assert!(backed);
    assert!(text(open).ends_with(
        "\tlocal module_locals = {}\n\tfor i = 1, 198 do\n\t\tmodule_locals[i] = 0\n\tend\n"
    ));
    assert_eq!(text(printer.print_name(Name { id: 1 })), "module_locals[1]");
    assert_eq!(text(printer.print_name(Name { id: 198 })), "module_locals[198]");
    printer.close_module(&module, &[], backed);
    assert_eq!(text(printer.print_name(Name { id: 1 })), "loc_1_");
}

#[test]
fn export_names_are_escaped() {
    assert_eq!(text(escape_ascii_text(&[0x09, b'a', 0x9d, b'\\'])), "\\ta\\x9d\\\\");
}

fn render(pieces: &[Piece]) -> String {
    let mut out = String::new();
    for piece in pieces {
        match piece {
            Piece::Text(text) => out.push_str(std::str::from_utf8(text).unwrap()),
            Piece::Condition(_) => out.push('c'),
            Piece::Branch(index, depth) => out.push_str(&format!("B{index}@{depth}\n")),
        }
    }
    out
}

fn branches(count: usize, empty: &[usize]) -> spider::tree::statement::Match {
    spider::tree::statement::Match {
        branches: (0..count)
            .map(|index| Sequence {
                list: if empty.contains(&index) {
                    vec![]
                } else {
                    vec![spider::tree::statement::Statement::SwapAll(Box::new(SwapAll { locals: vec![] }))]
                },
            })
            .collect(),
        condition: Expression::I32(0),
    }
}

#[test]
fn a_match_dispatches_by_binary_search() {
    let printer = LuaNoFFIPrinter::new();
    assert_eq!(
        render(&printer.plan_match(&branches(3, &[]))),
        "if (c) >= 0 and (c) < 2 then\n\tif (c) < 1 then\nB0@2\n\telse\nB1@2\n\tend\nelse\nB2@1\nend\n"
    );
}

#[test]
fn two_branches_make_an_if() {
    let printer = LuaNoFFIPrinter::new();
    assert_eq!(render(&printer.plan_match(&branches(2, &[0]))), "if c then\nB1@1\nend\n");
    assert_eq!(render(&printer.plan_match(&branches(2, &[1]))), "if not (c) then\nB0@1\nend\n");
    assert_eq!(render(&printer.plan_match(&branches(2, &[]))), "if c then\nB1@1\nelse\nB0@1\nend\n");
}

#[test]
fn a_large_match_is_dispatched_in_groups() {
    let printer = LuaNoFFIPrinter::new();
    let text = render(&printer.plan_match(&branches(600, &[])));
    assert!(text.starts_with(
        "do\n\tlocal __spider_match_selector = c\n\tif __spider_match_selector < 0 or __spider_match_selector >= 599 then\nB599@2\n\tend\n\tif __spider_match_selector >= 0 and __spider_match_selector < 512 then\n"
    ));
    assert!(text.contains("\tif __spider_match_selector >= 512 and __spider_match_selector < 599 then\n"));
    assert!(text.ends_with("\tend\nend\n"));
    assert_eq!(text.matches('B').count(), 600);
}
