use spider::library::printer::Printer;
use spider::library::sections::Sections;

const SOURCE: &str = "-- SECTION bit32_countlz\n\
-- NEEDS bit32_countlz_impl\n\
\n\
local function bit32_countlz(x)\n\
\treturn bit32_countlz_impl(x)\n\
end\n\
\n\
-- SECTION bit32_countlz_impl\n\
\n\
local bit32_countlz_impl, other = 1, 2\n\
local function helper() end\n\
\n\
-- SECTION user\n\
\n\
local function user()\n\
\treturn helper()\n\
end\n";

fn library() -> Sections {
    let mut sections = Sections::new();

    sections.parse_from(SOURCE.as_bytes());
    sections.resolve();
    sections
}

fn print(names: &[&[u8]]) -> String {
    let sections = library();
    let mut printer = Printer::new();

    printer.resolve(names, &sections);

    String::from_utf8(printer.print(&sections)).expect("library is text")
}

#[test]
fn an_empty_library_holds_only_the_runtime_table() {
    assert_eq!(print(&[]), "local runtime = {}\n\n");
}

#[test]
fn sections_print_after_what_they_need() {
    let source = print(&["bit32_countlz".as_bytes()]);

    assert_eq!(
        source,
        "local runtime = {}\n\n\
do -- SECTION bit32_countlz_impl\n\
local bit32_countlz_impl, other = 1, 2\n\
local function helper() end\n\
\truntime.bit32_countlz_impl = bit32_countlz_impl\n\
\truntime.other = other\n\
\truntime.helper = helper\n\
end\n\n\
do -- SECTION bit32_countlz\n\
\tlocal bit32_countlz_impl = runtime.bit32_countlz_impl\n\
local function bit32_countlz(x)\n\
\treturn bit32_countlz_impl(x)\n\
end\n\
\truntime.bit32_countlz = bit32_countlz\n\
end\n\n"
    );
}

#[test]
fn sections_import_and_export_their_names() {
    let source = print(&["bit32_countlz".as_bytes()]);

    assert!(source.starts_with("local runtime = {}\n\ndo -- SECTION "));
    assert!(source.ends_with("end\n\n"));
    assert!(source.contains("\tlocal bit32_countlz_impl = runtime.bit32_countlz_impl\n"));
    assert!(source.contains("\truntime.bit32_countlz = bit32_countlz\n"));
    assert!(source.contains("\truntime.bit32_countlz_impl = bit32_countlz_impl\n"));
}

#[test]
fn sections_pull_in_undeclared_dependencies() {
    let source = print(&["user".as_bytes()]);

    assert!(source.contains("do -- SECTION bit32_countlz_impl\n"));
    assert!(source.contains("do -- SECTION user\n\tlocal helper = runtime.helper\n"));
    assert!(source.find("SECTION bit32_countlz_impl").unwrap() < source.find("SECTION user").unwrap());
    assert!(!source.contains("SECTION bit32_countlz\n"));
}

#[test]
fn a_section_is_printed_once() {
    let source = print(&["bit32_countlz".as_bytes(), "user".as_bytes(), "bit32_countlz_impl".as_bytes()]);

    assert_eq!(source.matches("do -- SECTION bit32_countlz_impl\n").count(), 1);
    assert_eq!(source.matches("\ndo -- SECTION ").count(), 3);
}

#[test]
fn bindings_are_printed_for_every_name() {
    let sections = library();
    let mut printer = Printer::new();

    printer.resolve(&["bit32_countlz".as_bytes()], &sections);

    let source = String::from_utf8(printer.print_bindings(&["bit32_countlz_impl".as_bytes()], &sections)).unwrap();

    assert_eq!(
        source,
        "local bit32_countlz_impl, other, helper = runtime.bit32_countlz_impl, runtime.other, runtime.helper\n\n"
    );
}

#[test]
fn no_bindings_print_nothing() {
    let sections = library();
    let mut printer = Printer::default();

    printer.resolve(&["user".as_bytes()], &sections);

    assert!(printer.print_bindings(&[], &sections).is_empty());
}

#[test]
fn a_dependency_named_later_still_prints_first() {
    let source = print(&["bit32_countlz".as_bytes(), "bit32_countlz_impl".as_bytes()]);
    let dependency = source.find("do -- SECTION bit32_countlz_impl").expect("the dependency is printed");
    let dependent = source.find("do -- SECTION bit32_countlz\n").expect("the dependent is printed");

    assert!(dependency < dependent);
    assert_eq!(source.matches("do -- SECTION").count(), 2);
}
