use spider::library::sections::{Section, Sections};
use spider::printer::{print_function_type_close, print_function_type_open, runtime_binding_name};

const SOURCE: &str = "-- SECTION bit32_countlz\n\
-- NEEDS bit32_countlz_impl\n\
\n\
local function bit32_countlz(x)\n\
\treturn bit32_countlz_impl(x)\n\
end\n\
\n\
-- SECTION bit32_countlz_impl\n\
\n\
local bit32_countlz_impl, other = 1, 2\n\
local function helper() end\n";

fn names(list: &[Vec<u8>]) -> Vec<&str> {
    list.iter().map(|name| std::str::from_utf8(name).unwrap()).collect()
}

#[test]
fn a_section_reads_its_header_needs_and_contents() {
    let (section, rest) = Section::try_parse(SOURCE.as_bytes()).expect("a section should parse");

    assert_eq!(section.name, b"bit32_countlz".to_vec());
    assert_eq!(names(&section.references), vec!["bit32_countlz_impl"]);
    assert_eq!(
        section.contents,
        b"local function bit32_countlz(x)\n\treturn bit32_countlz_impl(x)\nend".to_vec()
    );
    assert_eq!(names(&section.defines), vec!["bit32_countlz"]);
    assert!(rest.starts_with(b"-- SECTION bit32_countlz_impl"));
}

#[test]
fn mentions_are_sorted_and_distinct() {
    let (section, _) = Section::try_parse(SOURCE.as_bytes()).unwrap();

    assert_eq!(
        names(&section.mentions),
        vec!["bit32_countlz", "bit32_countlz_impl", "end", "function", "local", "return", "x"]
    );
}

#[test]
fn local_lists_declare_each_name() {
    let (_, rest) = Section::try_parse(SOURCE.as_bytes()).unwrap();
    let (section, rest) = Section::try_parse(rest).unwrap();

    assert_eq!(section.name, b"bit32_countlz_impl".to_vec());
    assert!(section.references.is_empty());
    assert_eq!(names(&section.defines), vec!["bit32_countlz_impl", "other", "helper"]);
    assert!(rest.is_empty());
}

#[test]
fn only_names_at_the_first_column_are_declared() {
    let source = "-- SECTION scoped\nlocal a , b.c, 1d, _e =\n  local nested = 1\nlocal function f1()\r\nlocal g\r\n";
    let (section, _) = Section::try_parse(source.as_bytes()).unwrap();

    assert_eq!(names(&section.defines), vec!["a", "_e", "f1", "g"]);
}

#[test]
fn source_without_a_header_is_not_a_section() {
    assert!(Section::try_parse(b"local x = 1\n").is_none());
    assert!(Section::try_parse(b"-- SECTION unterminated").is_none());
    assert!(Section::try_parse(b"").is_none());
}

#[test]
fn sections_resolve_their_owners_and_sort_by_name() {
    let mut sections = Sections::new();

    sections.parse_from(SOURCE.as_bytes());
    sections.parse_from(b"-- SECTION alpha\nlocal alpha_value = 0\n");
    sections.resolve();

    assert_eq!(sections.find(b"alpha").name, b"alpha".to_vec());
    assert_eq!(names(&sections.find(b"bit32_countlz").references), vec!["bit32_countlz_impl"]);
    assert_eq!(sections.owner(b"helper"), Some(b"bit32_countlz_impl".to_vec()));
    assert_eq!(sections.owner(b"bit32_countlz"), Some(b"bit32_countlz".to_vec()));
    assert_eq!(sections.owner(b"alpha_value"), Some(b"alpha".to_vec()));
    assert_eq!(sections.owner(b"missing"), None);
}

#[test]
fn owners_are_empty_before_resolving() {
    let mut sections = Sections::new();

    sections.parse_from(SOURCE.as_bytes());

    assert_eq!(sections.owner(b"helper"), None);
}

#[test]
fn runtime_bindings_keep_conversion_names() {
    assert_eq!(runtime_binding_name(b"into_bits_f32"), b"into_bits_f32".to_vec());
    assert_eq!(runtime_binding_name(b"from_bits_f64"), b"from_bits_f64".to_vec());
    assert_eq!(runtime_binding_name(b"bit32_countlz"), b"bit32_countlz".to_vec());
    assert_eq!(runtime_binding_name(b"buffer_write_u32"), b"buffer_write_u32".to_vec());
    assert_eq!(runtime_binding_name(b"memory_new"), b"rt_memory_new".to_vec());
    assert_eq!(runtime_binding_name(b"bit"), b"rt_bit".to_vec());
}

#[test]
fn function_types_are_registered_only_with_a_key() {
    assert_eq!(print_function_type_open(Some(b"i32->i32")), b"rt_function_type(".to_vec());
    assert_eq!(print_function_type_open(None), Vec::<u8>::new());
    assert_eq!(print_function_type_close(Some(b"i32->i32")), b", \"i32->i32\")".to_vec());
    assert_eq!(print_function_type_close(None), Vec::<u8>::new());
}

#[test]
fn unicode_whitespace_is_trimmed_like_ascii() {
    let source = "-- SECTION wide\n-- NEEDS alpha\u{a0}\n-- NEEDS beta\u{2003}\n\u{3000}local x,\u{a0}y = 1, 2\u{a0}\n";
    let (section, rest) = Section::try_parse(source.as_bytes()).expect("a section should parse");

    assert_eq!(names(&section.references), vec!["alpha", "beta"]);
    assert_eq!(section.contents, "local x,\u{a0}y = 1, 2".as_bytes().to_vec());
    assert_eq!(names(&section.defines), vec!["x", "y"]);
    assert!(rest.is_empty());
}

#[test]
fn a_section_may_declare_a_local_twice() {
    let mut sections = Sections::new();

    sections.parse_from(b"-- SECTION twice\nlocal value = 0\nlocal value = 1\n");
    sections.resolve();

    assert_eq!(sections.owner(b"value"), Some(b"twice".to_vec()));
}
