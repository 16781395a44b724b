//! The state of the Lua printer and the text of names, locals, stack frames,
//! function bodies and scoped closures.
//!
//! A scoped closure captures its dependencies. Lua bounds the upvalues a
//! closure may capture and the locals a scope may hold, so from
//! [`PACKED_SCOPED_DEPENDENCIES_THRESHOLD`] dependencies up the closure takes
//! them as arguments, packs them into one table, and its body reads each from
//! there.
//!
//! A module keeps its locals in a table when declaring them would pass Lua's
//! limit of 200 active locals, and a match with many arms is dispatched by a
//! binary search split into groups, which keeps every jump within LuaJIT's
//! sixteen-bit offsets.
//!
//! The functions here print everything around the expressions and statements
//! of a function or closure, in the order the pieces appear: they take the
//! printed expressions as arguments, and the statements of a body go between
//! [`LuaNoFFIPrinter::open_function_body`] and
//! [`LuaNoFFIPrinter::close_function_body`], printed with the exact names the
//! first of these set.

use vstd::prelude::*;

use crate::library::text::{compare_bytes, lemma_less_order, less, strictly_sorted};
use crate::lua::name_texts::{entry, text_view, NameTexts};
use crate::printer::{
    append, function_type_open, keeps_own_name, print_function_type_close, print_function_type_open, runtime_binding_name,
    runtime_prefix,
};
use crate::tree::expression::{Expression, Function, Local, Name, Scoped};
use crate::tree::statement::{Assign, Call, Export, Match, Sequence, Statement, SwapAll};
use crate::tree::LuaNoFFITree;

verus! {

/// The number of dependencies from which a scoped closure packs them into a
/// table.
pub const PACKED_SCOPED_DEPENDENCIES_THRESHOLD: usize = 48;

/// The bytes of `loc`.
pub open spec fn lit_loc() -> Seq<u8> {
    seq![0x6Cu8, 0x6F, 0x63]
}

fn push_loc(out: &mut Vec<u8>)
    ensures
        final(out)@ == old(out)@ + lit_loc(),
{
    let bytes = [0x6Cu8, 0x6F, 0x63];
    assert(bytes@ =~= lit_loc());
    append(out, &bytes);
}

/// The bytes of `_`.
pub open spec fn lit_underscore() -> Seq<u8> {
    seq![0x5Fu8]
}

fn push_underscore(out: &mut Vec<u8>)
    ensures
        final(out)@ == old(out)@ + lit_underscore(),
{
    let bytes = [0x5Fu8];
    assert(bytes@ =~= lit_underscore());
    append(out, &bytes);
}

/// The bytes of `, `.
pub open spec fn lit_comma() -> Seq<u8> {
    seq![0x2Cu8, 0x20]
}

fn push_comma(out: &mut Vec<u8>)
    ensures
        final(out)@ == old(out)@ + lit_comma(),
{
    let bytes = [0x2Cu8, 0x20];
    assert(bytes@ =~= lit_comma());
    append(out, &bytes);
}

/// The bytes of `local `.
pub open spec fn lit_local() -> Seq<u8> {
    seq![0x6Cu8, 0x6F, 0x63, 0x61, 0x6C, 0x20]
}

fn push_local(out: &mut Vec<u8>)
    ensures
        final(out)@ == old(out)@ + lit_local(),
{
    let bytes = [0x6Cu8, 0x6F, 0x63, 0x61, 0x6C, 0x20];
    assert(bytes@ =~= lit_local());
    append(out, &bytes);
}

/// The bytes of `\n`.
pub open spec fn lit_newline() -> Seq<u8> {
    seq![0x0Au8]
}

fn push_newline(out: &mut Vec<u8>)
    ensures
        final(out)@ == old(out)@ + lit_newline(),
{
    let bytes = [0x0Au8];
    assert(bytes@ =~= lit_newline());
    append(out, &bytes);
}

/// The bytes of `excess_stack[stack_top - `.
pub open spec fn lit_slow_open() -> Seq<u8> {
    seq![0x65u8, 0x78, 0x63, 0x65, 0x73, 0x73, 0x5F, 0x73, 0x74, 0x61, 0x63, 0x6B, 0x5B, 0x73, 0x74, 0x61, 0x63, 0x6B, 0x5F, 0x74, 0x6F, 0x70, 0x20, 0x2D, 0x20]
}

fn push_slow_open(out: &mut Vec<u8>)
    ensures
        final(out)@ == old(out)@ + lit_slow_open(),
{
    let bytes = [0x65u8, 0x78, 0x63, 0x65, 0x73, 0x73, 0x5F, 0x73, 0x74, 0x61, 0x63, 0x6B, 0x5B, 0x73, 0x74, 0x61, 0x63, 0x6B, 0x5F, 0x74, 0x6F, 0x70, 0x20, 0x2D, 0x20];
    assert(bytes@ =~= lit_slow_open());
    append(out, &bytes);
}

/// The bytes of `]`.
pub open spec fn lit_close_bracket() -> Seq<u8> {
    seq![0x5Du8]
}

fn push_close_bracket(out: &mut Vec<u8>)
    ensures
        final(out)@ == old(out)@ + lit_close_bracket(),
{
    let bytes = [0x5Du8];
    assert(bytes@ =~= lit_close_bracket());
    append(out, &bytes);
}

/// The bytes of `local stack_top = excess_stack.top + `.
pub open spec fn lit_enter_first() -> Seq<u8> {
    seq![0x6Cu8, 0x6F, 0x63, 0x61, 0x6C, 0x20, 0x73, 0x74, 0x61, 0x63, 0x6B, 0x5F, 0x74, 0x6F, 0x70, 0x20, 0x3D, 0x20, 0x65, 0x78, 0x63, 0x65, 0x73, 0x73, 0x5F, 0x73, 0x74, 0x61, 0x63, 0x6B, 0x2E, 0x74, 0x6F, 0x70, 0x20, 0x2B, 0x20]
}

fn push_enter_first(out: &mut Vec<u8>)
    ensures
        final(out)@ == old(out)@ + lit_enter_first(),
{
    let bytes = [0x6Cu8, 0x6F, 0x63, 0x61, 0x6C, 0x20, 0x73, 0x74, 0x61, 0x63, 0x6B, 0x5F, 0x74, 0x6F, 0x70, 0x20, 0x3D, 0x20, 0x65, 0x78, 0x63, 0x65, 0x73, 0x73, 0x5F, 0x73, 0x74, 0x61, 0x63, 0x6B, 0x2E, 0x74, 0x6F, 0x70, 0x20, 0x2B, 0x20];
    assert(bytes@ =~= lit_enter_first());
    append(out, &bytes);
}

/// The bytes of `excess_stack.top = stack_top\n`.
pub open spec fn lit_enter_second() -> Seq<u8> {
    seq![0x65u8, 0x78, 0x63, 0x65, 0x73, 0x73, 0x5F, 0x73, 0x74, 0x61, 0x63, 0x6B, 0x2E, 0x74, 0x6F, 0x70, 0x20, 0x3D, 0x20, 0x73, 0x74, 0x61, 0x63, 0x6B, 0x5F, 0x74, 0x6F, 0x70, 0x0A]
}

fn push_enter_second(out: &mut Vec<u8>)
    ensures
        final(out)@ == old(out)@ + lit_enter_second(),
{
    let bytes = [0x65u8, 0x78, 0x63, 0x65, 0x73, 0x73, 0x5F, 0x73, 0x74, 0x61, 0x63, 0x6B, 0x2E, 0x74, 0x6F, 0x70, 0x20, 0x3D, 0x20, 0x73, 0x74, 0x61, 0x63, 0x6B, 0x5F, 0x74, 0x6F, 0x70, 0x0A];
    assert(bytes@ =~= lit_enter_second());
    append(out, &bytes);
}

/// The bytes of `excess_stack.top = stack_top - `.
pub open spec fn lit_leave() -> Seq<u8> {
    seq![0x65u8, 0x78, 0x63, 0x65, 0x73, 0x73, 0x5F, 0x73, 0x74, 0x61, 0x63, 0x6B, 0x2E, 0x74, 0x6F, 0x70, 0x20, 0x3D, 0x20, 0x73, 0x74, 0x61, 0x63, 0x6B, 0x5F, 0x74, 0x6F, 0x70, 0x20, 0x2D, 0x20]
}

fn push_leave(out: &mut Vec<u8>)
    ensures
        final(out)@ == old(out)@ + lit_leave(),
{
    let bytes = [0x65u8, 0x78, 0x63, 0x65, 0x73, 0x73, 0x5F, 0x73, 0x74, 0x61, 0x63, 0x6B, 0x2E, 0x74, 0x6F, 0x70, 0x20, 0x3D, 0x20, 0x73, 0x74, 0x61, 0x63, 0x6B, 0x5F, 0x74, 0x6F, 0x70, 0x20, 0x2D, 0x20];
    assert(bytes@ =~= lit_leave());
    append(out, &bytes);
}

/// The bytes of `__spider_scoped_dependencies`.
pub open spec fn lit_table_name() -> Seq<u8> {
    seq![0x5Fu8, 0x5F, 0x73, 0x70, 0x69, 0x64, 0x65, 0x72, 0x5F, 0x73, 0x63, 0x6F, 0x70, 0x65, 0x64, 0x5F, 0x64, 0x65, 0x70, 0x65, 0x6E, 0x64, 0x65, 0x6E, 0x63, 0x69, 0x65, 0x73]
}

fn push_table_name(out: &mut Vec<u8>)
    ensures
        final(out)@ == old(out)@ + lit_table_name(),
{
    let bytes = [0x5Fu8, 0x5F, 0x73, 0x70, 0x69, 0x64, 0x65, 0x72, 0x5F, 0x73, 0x63, 0x6F, 0x70, 0x65, 0x64, 0x5F, 0x64, 0x65, 0x70, 0x65, 0x6E, 0x64, 0x65, 0x6E, 0x63, 0x69, 0x65, 0x73];
    assert(bytes@ =~= lit_table_name());
    append(out, &bytes);
}

/// The bytes of `__spider_scoped_dependency_`.
pub open spec fn lit_argument_prefix() -> Seq<u8> {
    seq![0x5Fu8, 0x5F, 0x73, 0x70, 0x69, 0x64, 0x65, 0x72, 0x5F, 0x73, 0x63, 0x6F, 0x70, 0x65, 0x64, 0x5F, 0x64, 0x65, 0x70, 0x65, 0x6E, 0x64, 0x65, 0x6E, 0x63, 0x79, 0x5F]
}

fn push_argument_prefix(out: &mut Vec<u8>)
    ensures
        final(out)@ == old(out)@ + lit_argument_prefix(),
{
    let bytes = [0x5Fu8, 0x5F, 0x73, 0x70, 0x69, 0x64, 0x65, 0x72, 0x5F, 0x73, 0x63, 0x6F, 0x70, 0x65, 0x64, 0x5F, 0x64, 0x65, 0x70, 0x65, 0x6E, 0x64, 0x65, 0x6E, 0x63, 0x79, 0x5F];
    assert(bytes@ =~= lit_argument_prefix());
    append(out, &bytes);
}

/// The bytes of `[`.
pub open spec fn lit_open_bracket() -> Seq<u8> {
    seq![0x5Bu8]
}

fn push_open_bracket(out: &mut Vec<u8>)
    ensures
        final(out)@ == old(out)@ + lit_open_bracket(),
{
    let bytes = [0x5Bu8];
    assert(bytes@ =~= lit_open_bracket());
    append(out, &bytes);
}

/// The bytes of `(function(`.
pub open spec fn lit_function_open() -> Seq<u8> {
    seq![0x28u8, 0x66, 0x75, 0x6E, 0x63, 0x74, 0x69, 0x6F, 0x6E, 0x28]
}

fn push_function_open(out: &mut Vec<u8>)
    ensures
        final(out)@ == old(out)@ + lit_function_open(),
{
    let bytes = [0x28u8, 0x66, 0x75, 0x6E, 0x63, 0x74, 0x69, 0x6F, 0x6E, 0x28];
    assert(bytes@ =~= lit_function_open());
    append(out, &bytes);
}

/// The bytes of `)\n`.
pub open spec fn lit_close_line() -> Seq<u8> {
    seq![0x29u8, 0x0A]
}

fn push_close_line(out: &mut Vec<u8>)
    ensures
        final(out)@ == old(out)@ + lit_close_line(),
{
    let bytes = [0x29u8, 0x0A];
    assert(bytes@ =~= lit_close_line());
    append(out, &bytes);
}

/// The bytes of `(function()\n`.
pub open spec fn lit_scope_open() -> Seq<u8> {
    seq![0x28u8, 0x66, 0x75, 0x6E, 0x63, 0x74, 0x69, 0x6F, 0x6E, 0x28, 0x29, 0x0A]
}

fn push_scope_open(out: &mut Vec<u8>)
    ensures
        final(out)@ == old(out)@ + lit_scope_open(),
{
    let bytes = [0x28u8, 0x66, 0x75, 0x6E, 0x63, 0x74, 0x69, 0x6F, 0x6E, 0x28, 0x29, 0x0A];
    assert(bytes@ =~= lit_scope_open());
    append(out, &bytes);
}

/// The bytes of ` = {\n`.
pub open spec fn lit_table_open() -> Seq<u8> {
    seq![0x20u8, 0x3D, 0x20, 0x7B, 0x0A]
}

fn push_table_open(out: &mut Vec<u8>)
    ensures
        final(out)@ == old(out)@ + lit_table_open(),
{
    let bytes = [0x20u8, 0x3D, 0x20, 0x7B, 0x0A];
    assert(bytes@ =~= lit_table_open());
    append(out, &bytes);
}

/// The bytes of `,\n`.
pub open spec fn lit_entry_end() -> Seq<u8> {
    seq![0x2Cu8, 0x0A]
}

fn push_entry_end(out: &mut Vec<u8>)
    ensures
        final(out)@ == old(out)@ + lit_entry_end(),
{
    let bytes = [0x2Cu8, 0x0A];
    assert(bytes@ =~= lit_entry_end());
    append(out, &bytes);
}

/// The bytes of `}\n`.
pub open spec fn lit_table_close() -> Seq<u8> {
    seq![0x7Du8, 0x0A]
}

fn push_table_close(out: &mut Vec<u8>)
    ensures
        final(out)@ == old(out)@ + lit_table_close(),
{
    let bytes = [0x7Du8, 0x0A];
    assert(bytes@ =~= lit_table_close());
    append(out, &bytes);
}

/// The bytes of `return `.
pub open spec fn lit_return_keyword() -> Seq<u8> {
    seq![0x72u8, 0x65, 0x74, 0x75, 0x72, 0x6E, 0x20]
}

fn push_return_keyword(out: &mut Vec<u8>)
    ensures
        final(out)@ == old(out)@ + lit_return_keyword(),
{
    let bytes = [0x72u8, 0x65, 0x74, 0x75, 0x72, 0x6E, 0x20];
    assert(bytes@ =~= lit_return_keyword());
    append(out, &bytes);
}

/// The bytes of `end)`.
pub open spec fn lit_end_paren() -> Seq<u8> {
    seq![0x65u8, 0x6E, 0x64, 0x29]
}

fn push_end_paren(out: &mut Vec<u8>)
    ensures
        final(out)@ == old(out)@ + lit_end_paren(),
{
    let bytes = [0x65u8, 0x6E, 0x64, 0x29];
    assert(bytes@ =~= lit_end_paren());
    append(out, &bytes);
}

/// The bytes of `end)(`.
pub open spec fn lit_end_call_open() -> Seq<u8> {
    seq![0x65u8, 0x6E, 0x64, 0x29, 0x28]
}

fn push_end_call_open(out: &mut Vec<u8>)
    ensures
        final(out)@ == old(out)@ + lit_end_call_open(),
{
    let bytes = [0x65u8, 0x6E, 0x64, 0x29, 0x28];
    assert(bytes@ =~= lit_end_call_open());
    append(out, &bytes);
}

/// The bytes of `end)()`.
pub open spec fn lit_end_call() -> Seq<u8> {
    seq![0x65u8, 0x6E, 0x64, 0x29, 0x28, 0x29]
}

fn push_end_call(out: &mut Vec<u8>)
    ensures
        final(out)@ == old(out)@ + lit_end_call(),
{
    let bytes = [0x65u8, 0x6E, 0x64, 0x29, 0x28, 0x29];
    assert(bytes@ =~= lit_end_call());
    append(out, &bytes);
}

/// The bytes of ` = `.
pub open spec fn lit_assign() -> Seq<u8> {
    seq![0x20u8, 0x3D, 0x20]
}

fn push_assign(out: &mut Vec<u8>)
    ensures
        final(out)@ == old(out)@ + lit_assign(),
{
    let bytes = [0x20u8, 0x3D, 0x20];
    assert(bytes@ =~= lit_assign());
    append(out, &bytes);
}

/// The bytes of `;\n`.
pub open spec fn lit_statement_end() -> Seq<u8> {
    seq![0x3Bu8, 0x0A]
}

fn push_statement_end(out: &mut Vec<u8>)
    ensures
        final(out)@ == old(out)@ + lit_statement_end(),
{
    let bytes = [0x3Bu8, 0x0A];
    assert(bytes@ =~= lit_statement_end());
    append(out, &bytes);
}

/// `depth` one level deeper, wrapping around.
pub open spec fn deeper(depth: u16) -> u16 {
    if depth == u16::MAX {
        0
    } else {
        (depth + 1) as u16
    }
}

/// `depth` one level shallower, wrapping around.
pub open spec fn shallower(depth: u16) -> u16 {
    if depth == 0 {
        u16::MAX
    } else {
        (depth - 1) as u16
    }
}

/// `depth` tab characters.
pub open spec fn tabs(depth: nat) -> Seq<u8> {
    Seq::new(depth, |i: int| 0x09u8)
}

/// The decimal digits of `n`.
pub open spec fn decimal(n: nat) -> Seq<u8>
    decreases n,
{
    if n < 10 {
        seq![(n + 48) as u8]
    } else {
        decimal(n / 10).push((n % 10 + 48) as u8)
    }
}

/// Returns the decimal digits of `n`.
pub fn decimal_text(n: u64) -> (text: Vec<u8>)
    ensures
        text@ == decimal(n as nat),
    decreases n,
{
    if n < 10 {
        let mut text: Vec<u8> = Vec::new();
        text.push(n as u8 + 48);
        text
    } else {
        let mut text = decimal_text(n / 10);
        text.push((n % 10) as u8 + 48);
        text
    }
}

/// How `name` prints: its exact name when it has one, and otherwise its
/// prefix, `loc` by default, then `_`, its identifier and `_`.
pub open spec fn name_text(names: Map<u32, Seq<u8>>, exact: Map<u32, Seq<u8>>, name: Name) -> Seq<u8> {
    if exact.contains_key(name.id) {
        exact[name.id]
    } else {
        (if names.contains_key(name.id) {
            names[name.id]
        } else {
            lit_loc()
        }) + lit_underscore() + decimal(name.id as nat) + lit_underscore()
    }
}

/// How a list of names prints: each name, separated by `, `.
pub open spec fn name_list_text(names: Map<u32, Seq<u8>>, exact: Map<u32, Seq<u8>>, list: Seq<Name>) -> Seq<u8>
    decreases list.len(),
{
    if list.len() == 0 {
        Seq::empty()
    } else if list.len() == 1 {
        name_text(names, exact, list[0])
    } else {
        name_list_text(names, exact, list.drop_last()) + lit_comma() + name_text(names, exact, list.last())
    }
}

/// Texts separated by `, `.
pub open spec fn joined(texts: Seq<Seq<u8>>) -> Seq<u8>
    decreases texts.len(),
{
    if texts.len() == 0 {
        Seq::empty()
    } else if texts.len() == 1 {
        texts[0]
    } else {
        joined(texts.drop_last()) + lit_comma() + texts.last()
    }
}

/// The views of a list of texts.
pub open spec fn text_views(texts: Seq<Vec<u8>>) -> Seq<Seq<u8>> {
    texts.map_values(|text: Vec<u8>| text@)
}

/// Prints a Lua tree: the names it gives to variables and the indentation
/// depth.
pub struct LuaNoFFIPrinter {
    names: NameTexts,
    exact_names: NameTexts,
    depth: u16,
    runtime_names: Vec<Vec<u8>>,
}

impl LuaNoFFIPrinter {
    /// The prefixes that names print with.
    pub closed spec fn names(&self) -> Map<u32, Seq<u8>> {
        self.names@
    }

    /// The exact texts that names print as, which take the place of their
    /// prefix and identifier.
    pub closed spec fn exact_names(&self) -> Map<u32, Seq<u8>> {
        self.exact_names@
    }

    /// The indentation depth.
    pub closed spec fn depth(&self) -> u16 {
        self.depth
    }

    /// How `name` prints with this printer.
    pub open spec fn name_spec(&self, name: Name) -> Seq<u8> {
        name_text(self.names(), self.exact_names(), name)
    }

    /// How a list of names prints with this printer.
    pub open spec fn names_spec(&self, list: Seq<Name>) -> Seq<u8> {
        name_list_text(self.names(), self.exact_names(), list)
    }

    /// Creates a printer with no name and no indentation.
    pub fn new() -> (printer: Self)
        ensures
            printer.names() =~= Map::empty(),
            printer.exact_names() =~= Map::empty(),
            printer.depth() == 0,
            printer.runtime_list().len() == 0,
    {
        LuaNoFFIPrinter { names: NameTexts::new(), exact_names: NameTexts::new(), depth: 0, runtime_names: Vec::new() }
    }

    /// The indentation of the current depth.
    pub fn tab(&self) -> (text: Vec<u8>)
        ensures
            text@ == tabs(self.depth() as nat),
    {
        let mut text: Vec<u8> = Vec::new();
        let mut i: u16 = 0;
        while i < self.depth
            invariant
                i <= self.depth,
                text@ == tabs(i as nat),
            decreases self.depth - i,
        {
            text.push(0x09u8);
            i = i + 1;
            assert(text@ =~= tabs(i as nat));
        }
        text
    }

    /// The prefix of `name`, if it has one.
    pub fn get_name(&self, name: Name) -> (text: Option<Vec<u8>>)
        ensures
            text_view(text) == entry(self.names(), name.id),
    {
        self.names.get(name.id)
    }

    /// The exact text of `name`, if it has one.
    pub fn get_exact_name(&self, name: Name) -> (text: Option<Vec<u8>>)
        ensures
            text_view(text) == entry(self.exact_names(), name.id),
    {
        self.exact_names.get(name.id)
    }

    /// Makes `name` print as `value`.
    pub fn set_exact_name(&mut self, name: Name, value: Vec<u8>)
        ensures
            final(self).runtime_list() == old(self).runtime_list(),
            final(self).exact_names() == old(self).exact_names().insert(name.id, value@),
            final(self).names() == old(self).names(),
            final(self).depth() == old(self).depth(),
    {
        self.exact_names.insert(name.id, value);
    }

    /// Removes the exact text of `name` and returns it.
    pub fn take_exact_name(&mut self, name: Name) -> (text: Option<Vec<u8>>)
        ensures
            final(self).runtime_list() == old(self).runtime_list(),
            text_view(text) == entry(old(self).exact_names(), name.id),
            final(self).exact_names() == old(self).exact_names().remove(name.id),
            final(self).names() == old(self).names(),
            final(self).depth() == old(self).depth(),
    {
        self.exact_names.remove(name.id)
    }

    /// Removes every exact text.
    pub fn clear_exact_names(&mut self)
        ensures
            final(self).runtime_list() == old(self).runtime_list(),
            final(self).exact_names() =~= Map::empty(),
            final(self).names() == old(self).names(),
            final(self).depth() == old(self).depth(),
    {
        self.exact_names.clear();
    }

    /// Goes one indentation level deeper.
    pub fn indent(&mut self)
        ensures
            final(self).runtime_list() == old(self).runtime_list(),
            final(self).depth() == deeper(old(self).depth()),
            final(self).names() == old(self).names(),
            final(self).exact_names() == old(self).exact_names(),
    {
        self.depth = if self.depth == u16::MAX {
            0
        } else {
            self.depth + 1
        };
    }

    /// Goes one indentation level shallower.
    pub fn outdent(&mut self)
        ensures
            final(self).runtime_list() == old(self).runtime_list(),
            final(self).depth() == shallower(old(self).depth()),
            final(self).names() == old(self).names(),
            final(self).exact_names() == old(self).exact_names(),
    {
        self.depth = if self.depth == 0 {
            u16::MAX
        } else {
            self.depth - 1
        };
    }

    /// How `name` prints.
    pub fn print_name(&self, name: Name) -> (text: Vec<u8>)
        ensures
            text@ == self.name_spec(name),
    {
        match self.get_exact_name(name) {
            Some(exact) => exact,
            None => {
                let mut text = match self.get_name(name) {
                    Some(prefix) => prefix,
                    None => {
                        let mut loc: Vec<u8> = Vec::new();
                        push_loc(&mut loc);
                        loc
                    },
                };
                push_underscore(&mut text);
                let digits = decimal_text(name.id as u64);
                append(&mut text, digits.as_slice());
                push_underscore(&mut text);
                text
            },
        }
    }

    /// How a list of names prints: each name, separated by `, `.
    pub fn print_names(&self, list: &[Name]) -> (text: Vec<u8>)
        ensures
            text@ == self.names_spec(list@),
    {
        let mut text: Vec<u8> = Vec::new();
        let mut i: usize = 0;
        while i < list.len()
            invariant
                i <= list@.len(),
                text@ == self.names_spec(list@.subrange(0, i as int)),
            decreases list@.len() - i,
        {
            if i != 0 {
                push_comma(&mut text);
            }
            let name = self.print_name(list[i]);
            append(&mut text, name.as_slice());
            i = i + 1;
            assert(list@.subrange(0, i as int).drop_last() =~= list@.subrange(0, i - 1));
        }
        assert(list@.subrange(0, i as int) =~= list@);
        text
    }

    /// How a local prints: a fast local by its name, a slow local as its
    /// slot on the excess stack.
    pub fn print_local(&self, local: Local) -> (text: Vec<u8>)
        ensures
            text@ == local_text(self.names(), self.exact_names(), local),
    {
        match local {
            Local::Fast { name } => self.print_name(name),
            Local::Slow { offset } => {
                let mut text: Vec<u8> = Vec::new();
                push_slow_open(&mut text);
                let digits = decimal_text(offset as u64);
                append(&mut text, digits.as_slice());
                push_close_bracket(&mut text);
                text
            },
        }
    }
}

/// How a local prints: a fast local by its name, a slow local as its slot on
/// the excess stack.
pub open spec fn local_text(names: Map<u32, Seq<u8>>, exact: Map<u32, Seq<u8>>, local: Local) -> Seq<u8> {
    match local {
        Local::Fast { name } => name_text(names, exact, name),
        Local::Slow { offset } => lit_slow_open() + decimal(offset as nat) + lit_close_bracket(),
    }
}

/// The declaration of a function's locals: nothing for none, and otherwise
/// one indented `local` line listing them.
pub open spec fn locals_text(
    names: Map<u32, Seq<u8>>,
    exact: Map<u32, Seq<u8>>,
    depth: u16,
    list: Seq<Name>,
) -> Seq<u8> {
    if list.len() == 0 {
        Seq::empty()
    } else {
        tabs(depth as nat) + lit_local() + name_list_text(names, exact, list) + lit_newline()
    }
}

/// Declares a function's locals: nothing for none, and otherwise one indented
/// `local` line listing them. They start out unassigned, since each is
/// assigned a constant of its type before it is read.
pub fn fmt_locals(names: &[Name], printer: &LuaNoFFIPrinter) -> (text: Vec<u8>)
    ensures
        text@ == locals_text(printer.names(), printer.exact_names(), printer.depth(), names@),
{
    if names.len() == 0 {
        return Vec::new();
    }
    let mut text = printer.tab();
    push_local(&mut text);
    let list = printer.print_names(names);
    append(&mut text, list.as_slice());
    push_newline(&mut text);
    text
}

/// The entry into a function's frame on the excess stack: nothing for an
/// empty frame, and otherwise the new stack top and its publication.
pub open spec fn stack_enter_text(depth: u16, size: u16) -> Seq<u8> {
    if size == 0 {
        Seq::empty()
    } else {
        tabs(depth as nat) + lit_enter_first() + decimal(size as nat) + lit_newline() + tabs(depth as nat)
            + lit_enter_second()
    }
}

/// The exit from a function's frame on the excess stack: nothing for an
/// empty frame, and otherwise the old stack top restored.
pub open spec fn stack_leave_text(depth: u16, size: u16) -> Seq<u8> {
    if size == 0 {
        Seq::empty()
    } else {
        tabs(depth as nat) + lit_leave() + decimal(size as nat) + lit_newline()
    }
}

/// Enters a function's frame of `size` slots on the excess stack.
pub fn fmt_stack_enter(size: u16, printer: &LuaNoFFIPrinter) -> (text: Vec<u8>)
    ensures
        text@ == stack_enter_text(printer.depth(), size),
{
    if size == 0 {
        return Vec::new();
    }
    let mut text = printer.tab();
    push_enter_first(&mut text);
    let digits = decimal_text(size as u64);
    append(&mut text, digits.as_slice());
    push_newline(&mut text);
    let tab = printer.tab();
    append(&mut text, tab.as_slice());
    push_enter_second(&mut text);
    text
}

/// Leaves a function's frame of `size` slots on the excess stack.
pub fn fmt_stack_leave(size: u16, printer: &LuaNoFFIPrinter) -> (text: Vec<u8>)
    ensures
        text@ == stack_leave_text(printer.depth(), size),
{
    if size == 0 {
        return Vec::new();
    }
    let mut text = printer.tab();
    push_leave(&mut text);
    let digits = decimal_text(size as u64);
    append(&mut text, digits.as_slice());
    push_newline(&mut text);
    text
}

/// The exact text of entry `index` of the packed dependency table:
/// `__spider_scoped_dependencies[index + 1]`, Lua tables counting from one.
pub open spec fn packed_entry(index: nat) -> Seq<u8> {
    lit_table_name() + lit_open_bracket() + decimal(index + 1) + lit_close_bracket()
}

/// The exact texts after each name of `bindings`, in order, was bound to its
/// packed table entry.
pub open spec fn packed_names(exact: Map<u32, Seq<u8>>, bindings: Seq<(Name, usize)>) -> Map<u32, Seq<u8>>
    decreases bindings.len(),
{
    if bindings.len() == 0 {
        exact
    } else {
        packed_names(exact, bindings.drop_last()).insert(
            bindings.last().0.id,
            packed_entry(bindings.last().1 as nat),
        )
    }
}

/// What binding the names of `bindings` displaced: each name with the exact
/// text it had just before its binding.
pub open spec fn packed_saved(exact: Map<u32, Seq<u8>>, bindings: Seq<(Name, usize)>) -> Seq<(Name, Option<Seq<u8>>)> {
    Seq::new(
        bindings.len(),
        |k: int| (bindings[k].0, entry(packed_names(exact, bindings.take(k)), bindings[k].0.id)),
    )
}

/// The views of saved exact texts.
pub open spec fn saved_view(previous: Seq<(Name, Option<Vec<u8>>)>) -> Seq<(Name, Option<Seq<u8>>)> {
    previous.map_values(|saved: (Name, Option<Vec<u8>>)| (saved.0, text_view(saved.1)))
}

/// The copy that statement `k` of `list` makes under the exact texts
/// `exact`: when it assigns a fast local from a fast local that has an exact
/// text, the destination and that text.
pub open spec fn copy_of(list: Seq<Statement>, k: int, exact: Map<u32, Seq<u8>>) -> Option<(Name, Seq<u8>)> {
    if 0 <= k < list.len() {
        match list[k] {
            Statement::Assign(assign) => match assign.destination {
                Local::Fast { name: destination } => match assign.source {
                    Expression::Local(Local::Fast { name: source }) => if exact.contains_key(source.id) {
                        Some((destination, exact[source.id]))
                    } else {
                        None
                    },
                    _ => None,
                },
                _ => None,
            },
            _ => None,
        }
    } else {
        None
    }
}

/// The exact texts after the first `count` statements of `list` each gave
/// their destination the exact text of their source.
pub open spec fn copied_names(list: Seq<Statement>, exact: Map<u32, Seq<u8>>, count: nat) -> Map<u32, Seq<u8>>
    decreases count,
{
    if count == 0 {
        exact
    } else {
        let before = copied_names(list, exact, (count - 1) as nat);
        match copy_of(list, count - 1, before) {
            Some(copy) => before.insert(copy.0.id, copy.1),
            None => before,
        }
    }
}

/// Whether each of the first `count` statements of `list` is a copy.
pub open spec fn leading_copies(list: Seq<Statement>, exact: Map<u32, Seq<u8>>, count: nat) -> bool {
    forall|k: int| 0 <= k < count ==> #[trigger] copy_of(list, k, copied_names(list, exact, k as nat)) is Some
}

/// What the first `count` copies of `list` displaced: each destination with
/// the exact text it had just before.
pub open spec fn copies_saved(list: Seq<Statement>, exact: Map<u32, Seq<u8>>, count: nat) -> Seq<(Name, Option<Seq<u8>>)> {
    Seq::new(
        count,
        |k: int|
            {
                let destination = (copy_of(list, k, copied_names(list, exact, k as nat))->0).0;
                (destination, entry(copied_names(list, exact, k as nat), destination.id))
            },
    )
}

/// The exact texts after each saved text of `previous` was put back, in
/// order; a name that had none keeps what it has.
pub open spec fn restored(exact: Map<u32, Seq<u8>>, previous: Seq<(Name, Option<Seq<u8>>)>) -> Map<u32, Seq<u8>>
    decreases previous.len(),
{
    if previous.len() == 0 {
        exact
    } else {
        let before = restored(exact, previous.drop_last());
        match previous.last().1 {
            Some(text) => before.insert(previous.last().0.id, text),
            None => before,
        }
    }
}

fn copy_bytes(bytes: &[u8]) -> (copy: Vec<u8>)
    ensures
        copy@ == bytes@,
{
    let mut copy: Vec<u8> = Vec::new();
    append(&mut copy, bytes);
    copy
}

fn packed_entry_text(index: usize) -> (text: Vec<u8>)
    requires
        index < usize::MAX,
    ensures
        text@ == packed_entry(index as nat),
{
    let mut text: Vec<u8> = Vec::new();
    push_table_name(&mut text);
    push_open_bracket(&mut text);
    let digits = decimal_text((index + 1) as u64);
    append(&mut text, digits.as_slice());
    push_close_bracket(&mut text);
    text
}

impl LuaNoFFIPrinter {
    /// Binds the name of each packed dependency to its table entry, in order,
    /// and returns what each binding displaced.
    pub fn bind_packed_dependencies(&mut self, bindings: &[(Name, usize)]) -> (previous: Vec<(Name, Option<Vec<u8>>)>)
        requires
            forall|k: int| 0 <= k < bindings@.len() ==> #[trigger] bindings@[k].1 < usize::MAX,
        ensures
            final(self).exact_names() == packed_names(old(self).exact_names(), bindings@),
            final(self).names() == old(self).names(),
            final(self).depth() == old(self).depth(),
            saved_view(previous@) == packed_saved(old(self).exact_names(), bindings@),
    {
        let ghost exact = self.exact_names();
        let mut previous: Vec<(Name, Option<Vec<u8>>)> = Vec::new();
        let mut i: usize = 0;
        while i < bindings.len()
            invariant
                i <= bindings@.len(),
                forall|k: int| 0 <= k < bindings@.len() ==> #[trigger] bindings@[k].1 < usize::MAX,
                self.exact_names() == packed_names(exact, bindings@.take(i as int)),
                self.names() == old(self).names(),
                self.depth() == old(self).depth(),
                previous@.len() == i,
                forall|k: int|
                    0 <= k < i ==> #[trigger] saved_view(previous@)[k] == (
                        bindings@[k].0,
                        entry(packed_names(exact, bindings@.take(k)), bindings@[k].0.id),
                    ),
            decreases bindings@.len() - i,
        {
            let name = bindings[i].0;
            let index = bindings[i].1;
            let ghost before = self.exact_names();
            let ghost saved_before = previous@;
            let taken = self.take_exact_name(name);
            let text = packed_entry_text(index);
            self.set_exact_name(name, text);
            previous.push((name, taken));
            proof {
                assert(bindings@.take(i + 1).drop_last() =~= bindings@.take(i as int));
                assert(before.remove(name.id).insert(name.id, packed_entry(index as nat)) =~= before.insert(
                    name.id,
                    packed_entry(index as nat),
                ));
                assert forall|k: int| 0 <= k < i + 1 implies #[trigger] saved_view(previous@)[k] == (
                    bindings@[k].0,
                    entry(packed_names(exact, bindings@.take(k)), bindings@[k].0.id),
                ) by {
                    if k == i {
                        assert(saved_view(previous@)[k] == (name, text_view(taken)));
                    } else {
                        assert(previous@[k] == saved_before[k]);
                        assert(saved_view(saved_before)[k] == (
                            bindings@[k].0,
                            entry(packed_names(exact, bindings@.take(k)), bindings@[k].0.id),
                        ));
                    }
                }
            }
            i = i + 1;
        }
        assert(bindings@.take(i as int) =~= bindings@);
        assert(saved_view(previous@) =~= packed_saved(exact, bindings@));
        previous
    }

    fn copy_at(&self, list: &[Statement], k: usize) -> (copy: Option<(Name, Vec<u8>)>)
        ensures
            match copy {
                Some(found) => copy_of(list@, k as int, self.exact_names()) == Some((found.0, found.1@)),
                None => copy_of(list@, k as int, self.exact_names()) is None,
            },
    {
        if k >= list.len() {
            return None;
        }
        match &list[k] {
            Statement::Assign(assign) => match assign.destination {
                Local::Fast { name: destination } => match &assign.source {
                    Expression::Local(Local::Fast { name: source }) => match self.get_exact_name(*source) {
                        Some(text) => Some((destination, text)),
                        None => None,
                    },
                    _ => None,
                },
                _ => None,
            },
            _ => None,
        }
    }

    /// Gives the destination of each leading copy of `list`, an assignment of
    /// a fast local from a fast local with an exact text, that exact text too,
    /// saving what each displaced in `previous`, and returns the number of
    /// those copies: the body's first statement still to print.
    pub fn bind_leading_copies(&mut self, list: &[Statement], previous: &mut Vec<(Name, Option<Vec<u8>>)>) -> (count: usize)
        ensures
            count <= list@.len(),
            leading_copies(list@, old(self).exact_names(), count as nat),
            copy_of(list@, count as int, copied_names(list@, old(self).exact_names(), count as nat)) is None,
            final(self).exact_names() == copied_names(list@, old(self).exact_names(), count as nat),
            final(self).names() == old(self).names(),
            final(self).depth() == old(self).depth(),
            saved_view(final(previous)@) == saved_view(old(previous)@) + copies_saved(
                list@,
                old(self).exact_names(),
                count as nat,
            ),
    {
        let ghost exact = self.exact_names();
        let ghost start = previous@;
        let length = list.len();
        let mut i: usize = 0;
        let mut next = self.copy_at(list, 0);
        while next.is_some()
            invariant
                length == list@.len(),
                i <= list@.len(),
                leading_copies(list@, exact, i as nat),
                self.exact_names() == copied_names(list@, exact, i as nat),
                self.names() == old(self).names(),
                self.depth() == old(self).depth(),
                match next {
                    Some(found) => copy_of(list@, i as int, self.exact_names()) == Some((found.0, found.1@)),
                    None => copy_of(list@, i as int, self.exact_names()) is None,
                },
                previous@.len() == start.len() + i,
                forall|k: int| 0 <= k < start.len() ==> #[trigger] previous@[k] == start[k],
                forall|k: int|
                    0 <= k < i ==> #[trigger] saved_view(previous@)[start.len() + k] == (
                        (copy_of(list@, k, copied_names(list@, exact, k as nat))->0).0,
                        entry(
                            copied_names(list@, exact, k as nat),
                            (copy_of(list@, k, copied_names(list@, exact, k as nat))->0).0.id,
                        ),
                    ),
            decreases list@.len() - i,
        {
            let ghost before = self.exact_names();
            let ghost saved_before = previous@;
            proof {
                assert(copy_of(list@, i as int, self.exact_names()) is Some);
                assert(i < list@.len());
            }
            let found = next.unwrap();
            let destination = found.0;
            let taken = self.take_exact_name(destination);
            self.set_exact_name(destination, found.1);
            previous.push((destination, taken));
            proof {
                assert(before.remove(destination.id).insert(destination.id, found.1@) =~= before.insert(
                    destination.id,
                    found.1@,
                ));
                assert(self.exact_names() == copied_names(list@, exact, (i + 1) as nat));
                assert forall|k: int| 0 <= k < i + 1 implies #[trigger] copy_of(
                    list@,
                    k,
                    copied_names(list@, exact, k as nat),
                ) is Some by {}
                assert forall|k: int| 0 <= k < i + 1 implies #[trigger] saved_view(previous@)[start.len() + k] == (
                    (copy_of(list@, k, copied_names(list@, exact, k as nat))->0).0,
                    entry(
                        copied_names(list@, exact, k as nat),
                        (copy_of(list@, k, copied_names(list@, exact, k as nat))->0).0.id,
                    ),
                ) by {
                    if k == i {
                        assert(saved_view(previous@)[start.len() + k] == (destination, text_view(taken)));
                    } else {
                        assert(previous@[start.len() + k] == saved_before[start.len() + k]);
                        assert(saved_view(saved_before)[start.len() + k] == saved_view(saved_before)[start.len() + k]);
                    }
                }
                assert forall|k: int| 0 <= k < start.len() implies #[trigger] previous@[k] == start[k] by {
                    assert(previous@[k] == saved_before[k]);
                }
            }
            i = i + 1;
            next = self.copy_at(list, i);
        }
        proof {
            assert(saved_view(previous@) =~= saved_view(start) + copies_saved(list@, exact, i as nat)) by {
                assert forall|k: int| 0 <= k < previous@.len() implies saved_view(previous@)[k] == (
                    saved_view(start) + copies_saved(list@, exact, i as nat))[k] by {
                    if k < start.len() {
                        assert(previous@[k] == start[k]);
                    } else {
                        assert(saved_view(previous@)[start.len() + (k - start.len())] == saved_view(previous@)[k]);
                    }
                }
            }
        }
        i
    }

    /// Puts back each saved exact text of `previous`, in order; a name saved
    /// with none keeps what it has.
    pub fn restore_exact_names(&mut self, previous: Vec<(Name, Option<Vec<u8>>)>)
        ensures
            final(self).exact_names() == restored(old(self).exact_names(), saved_view(previous@)),
            final(self).names() == old(self).names(),
            final(self).depth() == old(self).depth(),
    {
        let ghost exact = self.exact_names();
        let mut i: usize = 0;
        while i < previous.len()
            invariant
                i <= previous@.len(),
                self.exact_names() == restored(exact, saved_view(previous@).take(i as int)),
                self.names() == old(self).names(),
                self.depth() == old(self).depth(),
            decreases previous@.len() - i,
        {
            let name = previous[i].0;
            proof {
                assert(saved_view(previous@).take(i + 1).drop_last() =~= saved_view(previous@).take(i as int));
            }
            match &previous[i].1 {
                Some(text) => {
                    let copy = copy_bytes(text.as_slice());
                    self.set_exact_name(name, copy);
                },
                None => {},
            }
            i = i + 1;
        }
        assert(saved_view(previous@).take(i as int) =~= saved_view(previous@));
    }
}

/// What opens the registration of a function value's type: `rt_function_type(`
/// when it has a key.
pub open spec fn key_open(key: Option<Vec<u8>>) -> Seq<u8> {
    if key is Some {
        function_type_open()
    } else {
        Seq::empty()
    }
}

/// What closes the registration of a function value's type: `, "key")` when
/// it has a key.
pub open spec fn key_close(key: Option<Vec<u8>>) -> Seq<u8> {
    match key {
        Some(key) => seq![0x2Cu8, 0x20, 0x22] + key@ + seq![0x22u8, 0x29],
        None => Seq::empty(),
    }
}

/// The text that opens a function value: the registration of its type, then
/// `(function(`, its arguments and `)` with a line break.
pub open spec fn function_open_text(names: Map<u32, Seq<u8>>, exact: Map<u32, Seq<u8>>, function: Function) -> Seq<u8> {
    key_open(function.key) + lit_function_open() + name_list_text(names, exact, function.arguments@)
        + lit_close_line()
}

/// The line that returns a function's results: nothing for none, and
/// otherwise an indented `return` with the printed results.
pub open spec fn results_text(depth: u16, results: Seq<Seq<u8>>) -> Seq<u8> {
    if results.len() == 0 {
        Seq::empty()
    } else {
        tabs(depth as nat) + lit_return_keyword() + joined(results) + lit_newline()
    }
}

/// Whether a scoped closure with `count` dependencies packs them into a
/// table.
pub open spec fn packs(count: nat) -> bool {
    count >= PACKED_SCOPED_DEPENDENCIES_THRESHOLD
}

/// The argument through which a packing closure receives dependency `index`.
pub open spec fn packed_argument(index: nat) -> Seq<u8> {
    lit_argument_prefix() + decimal(index)
}

/// The arguments of a packing closure with `count` dependencies, separated
/// by `, `.
pub open spec fn packed_arguments(count: nat) -> Seq<u8>
    decreases count,
{
    if count == 0 {
        Seq::empty()
    } else if count == 1 {
        packed_argument(0)
    } else {
        packed_arguments((count - 1) as nat) + lit_comma() + packed_argument((count - 1) as nat)
    }
}

/// The entries of the dependency table: one indented line per argument.
pub open spec fn packed_entries(depth: u16, count: nat) -> Seq<u8>
    decreases count,
{
    if count == 0 {
        Seq::empty()
    } else {
        packed_entries(depth, (count - 1) as nat) + tabs(depth as nat) + packed_argument((count - 1) as nat)
            + lit_entry_end()
    }
}

/// The bindings through which a packing closure's body reads its
/// dependencies: each dependency's name with its position.
pub open spec fn packed_bindings(dependencies: Seq<(Name, Expression)>) -> Seq<(Name, usize)> {
    Seq::new(dependencies.len(), |k: int| (dependencies[k].0, k as usize))
}

/// Whether a scoped closure with `count` dependencies packs them into a
/// table.
pub fn packs_dependencies(count: usize) -> (packed: bool)
    ensures
        packed == packs(count as nat),
{
    count >= PACKED_SCOPED_DEPENDENCIES_THRESHOLD
}

fn key_texts(key: &Option<Vec<u8>>) -> (texts: (Vec<u8>, Vec<u8>))
    ensures
        texts.0@ == key_open(*key),
        texts.1@ == key_close(*key),
{
    match key {
        Some(key) => (print_function_type_open(Some(key.as_slice())), print_function_type_close(Some(key.as_slice()))),
        None => (print_function_type_open(None), print_function_type_close(None)),
    }
}

/// Prints already printed items separated by `, `.
pub fn fmt_delimited(texts: &[Vec<u8>]) -> (text: Vec<u8>)
    ensures
        text@ == joined(text_views(texts@)),
{
    let mut text: Vec<u8> = Vec::new();
    let mut i: usize = 0;
    while i < texts.len()
        invariant
            i <= texts@.len(),
            text@ == joined(text_views(texts@.subrange(0, i as int))),
        decreases texts@.len() - i,
    {
        if i != 0 {
            push_comma(&mut text);
        }
        append(&mut text, texts[i].as_slice());
        i = i + 1;
        assert(text_views(texts@.subrange(0, i as int)).drop_last() =~= text_views(texts@.subrange(0, i - 1)));
    }
    assert(texts@.subrange(0, i as int) =~= texts@);
    text
}

fn print_packed_arguments(count: usize) -> (text: Vec<u8>)
    ensures
        text@ == packed_arguments(count as nat),
{
    let mut text: Vec<u8> = Vec::new();
    let mut i: usize = 0;
    while i < count
        invariant
            i <= count,
            text@ == packed_arguments(i as nat),
        decreases count - i,
    {
        if i != 0 {
            push_comma(&mut text);
        }
        push_argument_prefix(&mut text);
        let digits = decimal_text(i as u64);
        append(&mut text, digits.as_slice());
        i = i + 1;
    }
    text
}

fn packed_bindings_of(dependencies: &Vec<(Name, Expression)>) -> (bindings: Vec<(Name, usize)>)
    ensures
        bindings@ == packed_bindings(dependencies@),
        forall|k: int| 0 <= k < bindings@.len() ==> #[trigger] bindings@[k].1 < usize::MAX,
{
    let mut bindings: Vec<(Name, usize)> = Vec::new();
    let mut i: usize = 0;
    while i < dependencies.len()
        invariant
            i <= dependencies@.len(),
            bindings@ == packed_bindings(dependencies@.subrange(0, i as int)),
            forall|k: int| 0 <= k < bindings@.len() ==> #[trigger] bindings@[k].1 < usize::MAX,
        decreases dependencies@.len() - i,
    {
        bindings.push((dependencies[i].0, i));
        i = i + 1;
        assert(bindings@ =~= packed_bindings(dependencies@.subrange(0, i as int)));
    }
    assert(dependencies@.subrange(0, i as int) =~= dependencies@);
    bindings
}

impl LuaNoFFIPrinter {
    /// The entries of the dependency table, at the current depth.
    fn print_packed_entries(&self, count: usize) -> (text: Vec<u8>)
        ensures
            text@ == packed_entries(self.depth(), count as nat),
    {
        let mut text: Vec<u8> = Vec::new();
        let mut i: usize = 0;
        while i < count
            invariant
                i <= count,
                text@ == packed_entries(self.depth(), i as nat),
            decreases count - i,
        {
            let tab = self.tab();
            append(&mut text, tab.as_slice());
            push_argument_prefix(&mut text);
            let digits = decimal_text(i as u64);
            append(&mut text, digits.as_slice());
            push_entry_end(&mut text);
            i = i + 1;
        }
        text
    }

    /// Opens a function value: the registration of its type, then
    /// `(function(`, its arguments and `)` with a line break.
    pub fn print_function_open(&self, function: &Function) -> (text: Vec<u8>)
        ensures
            text@ == function_open_text(self.names(), self.exact_names(), *function),
    {
        let (open, _close) = key_texts(&function.key);
        let mut text = open;
        push_function_open(&mut text);
        let arguments = self.print_names(function.arguments.as_slice());
        append(&mut text, arguments.as_slice());
        push_close_line(&mut text);
        text
    }

    /// Closes a function value: an indented `end)`, then the end of the
    /// registration of its type.
    pub fn print_function_close(&self, function: &Function) -> (text: Vec<u8>)
        ensures
            text@ == tabs(self.depth() as nat) + lit_end_paren() + key_close(function.key),
    {
        let (_open, close) = key_texts(&function.key);
        let mut text = self.tab();
        push_end_paren(&mut text);
        append(&mut text, close.as_slice());
        text
    }

    /// Prints a function body up to its first statement still to print: the
    /// entry into its frame and the declaration of its locals.
    ///
    /// With `bindings`, the body belongs to a closure that packed its
    /// dependencies: first each bound name is made to print as its table
    /// entry; then each leading copy of a bound name into a fast local makes
    /// that local print as the same entry, and is not printed. Returns the
    /// text, the position of the first statement still to print, and what the
    /// bindings displaced, for [`Self::close_function_body`] to put back.
    pub fn open_function_body(&mut self, function: &Function, bindings: Option<&[(Name, usize)]>) -> (opened: (
        Vec<u8>,
        usize,
        Vec<(Name, Option<Vec<u8>>)>,
    ))
        requires
            bindings matches Some(bound) ==> forall|k: int| 0 <= k < bound@.len() ==> #[trigger] bound@[k].1 < usize::MAX,
        ensures
            final(self).names() == old(self).names(),
            final(self).depth() == old(self).depth(),
            match bindings {
                None => {
                    &&& opened.0@ == stack_enter_text(old(self).depth(), function.stack) + locals_text(
                        old(self).names(),
                        old(self).exact_names(),
                        old(self).depth(),
                        function.locals@,
                    )
                    &&& opened.1 == 0
                    &&& opened.2@.len() == 0
                    &&& final(self).exact_names() == old(self).exact_names()
                },
                Some(bound) => {
                    let packed = packed_names(old(self).exact_names(), bound@);
                    let list = function.code.list@;
                    &&& opened.0@ == stack_enter_text(old(self).depth(), function.stack) + locals_text(
                        old(self).names(),
                        packed,
                        old(self).depth(),
                        function.locals@,
                    )
                    &&& opened.1 <= list.len()
                    &&& leading_copies(list, packed, opened.1 as nat)
                    &&& copy_of(list, opened.1 as int, copied_names(list, packed, opened.1 as nat)) is None
                    &&& final(self).exact_names() == copied_names(list, packed, opened.1 as nat)
                    &&& saved_view(opened.2@) == packed_saved(old(self).exact_names(), bound@) + copies_saved(
                        list,
                        packed,
                        opened.1 as nat,
                    )
                },
            },
    {
        let mut text = fmt_stack_enter(function.stack, self);
        match bindings {
            Some(bound) => {
                let mut previous = self.bind_packed_dependencies(bound);
                let locals = fmt_locals(function.locals.as_slice(), self);
                append(&mut text, locals.as_slice());
                let start = self.bind_leading_copies(function.code.list.as_slice(), &mut previous);
                (text, start, previous)
            },
            None => {
                let locals = fmt_locals(function.locals.as_slice(), self);
                append(&mut text, locals.as_slice());
                (text, 0, Vec::new())
            },
        }
    }

    /// Prints the end of a function body, after its statements: the exit
    /// from its frame and the line returning its results, given printed;
    /// then puts back the exact texts that opening the body displaced.
    pub fn close_function_body(
        &mut self,
        function: &Function,
        results: &[Vec<u8>],
        previous: Vec<(Name, Option<Vec<u8>>)>,
    ) -> (text: Vec<u8>)
        requires
            results@.len() == function.returns@.len(),
        ensures
            text@ == stack_leave_text(old(self).depth(), function.stack) + results_text(
                old(self).depth(),
                text_views(results@),
            ),
            final(self).exact_names() == restored(old(self).exact_names(), saved_view(previous@)),
            final(self).names() == old(self).names(),
            final(self).depth() == old(self).depth(),
    {
        let mut text = fmt_stack_leave(function.stack, self);
        if results.len() != 0 {
            let tab = self.tab();
            append(&mut text, tab.as_slice());
            push_return_keyword(&mut text);
            let printed = fmt_delimited(results);
            append(&mut text, printed.as_slice());
            push_newline(&mut text);
        }
        self.restore_exact_names(previous);
        text
    }

    /// Opens a scoped closure, up to its first expression or statement.
    ///
    /// - With no dependency, nothing: the function prints as it is.
    /// - Below the threshold, `(function()` and a level deeper; each
    ///   dependency then becomes a local ([`Self::print_scoped_local`]) and
    ///   the closure returns the function.
    /// - From the threshold up, a closure taking the dependencies as
    ///   numbered arguments that packs them into one table, and returns the
    ///   function, whose body reads each dependency from its table entry: this
    ///   prints up to that body's first statement still to print, as
    ///   [`Self::open_function_body`] does with the packed bindings.
    pub fn open_scoped(&mut self, scoped: &Scoped) -> (opened: (Vec<u8>, usize, Vec<(Name, Option<Vec<u8>>)>))
        ensures
            final(self).names() == old(self).names(),
            ({
                let count = scoped.dependencies@.len();
                let d1 = deeper(old(self).depth());
                let d2 = deeper(d1);
                let d3 = deeper(d2);
                if count == 0 {
                    &&& opened.0@.len() == 0
                    &&& opened.1 == 0
                    &&& opened.2@.len() == 0
                    &&& final(self).exact_names() == old(self).exact_names()
                    &&& final(self).depth() == old(self).depth()
                } else if !packs(count) {
                    &&& opened.0@ == lit_scope_open()
                    &&& opened.1 == 0
                    &&& opened.2@.len() == 0
                    &&& final(self).exact_names() == old(self).exact_names()
                    &&& final(self).depth() == d1
                } else {
                    let bound = packed_bindings(scoped.dependencies@);
                    let packed = packed_names(old(self).exact_names(), bound);
                    let list = scoped.function.code.list@;
                    &&& opened.0@ == lit_scope_open() + lit_function_open() + packed_arguments(count)
                        + lit_close_line() + tabs(d2 as nat) + lit_local() + lit_table_name() + lit_table_open()
                        + packed_entries(d3, count) + tabs(d2 as nat) + lit_table_close() + tabs(d2 as nat)
                        + lit_return_keyword() + function_open_text(
                        old(self).names(),
                        old(self).exact_names(),
                        scoped.function,
                    ) + stack_enter_text(d3, scoped.function.stack) + locals_text(
                        old(self).names(),
                        packed,
                        d3,
                        scoped.function.locals@,
                    )
                    &&& opened.1 <= list.len()
                    &&& leading_copies(list, packed, opened.1 as nat)
                    &&& copy_of(list, opened.1 as int, copied_names(list, packed, opened.1 as nat)) is None
                    &&& final(self).exact_names() == copied_names(list, packed, opened.1 as nat)
                    &&& saved_view(opened.2@) == packed_saved(old(self).exact_names(), bound) + copies_saved(
                        list,
                        packed,
                        opened.1 as nat,
                    )
                    &&& final(self).depth() == d3
                }
            }),
    {
        let count = scoped.dependencies.len();
        if count == 0 {
            return (Vec::new(), 0, Vec::new());
        }
        let mut text: Vec<u8> = Vec::new();
        push_scope_open(&mut text);
        self.indent();
        if !packs_dependencies(count) {
            return (text, 0, Vec::new());
        }
        push_function_open(&mut text);
        let arguments = print_packed_arguments(count);
        append(&mut text, arguments.as_slice());
        push_close_line(&mut text);
        self.indent();
        let tab = self.tab();
        append(&mut text, tab.as_slice());
        push_local(&mut text);
        push_table_name(&mut text);
        push_table_open(&mut text);
        self.indent();
        let entries = self.print_packed_entries(count);
        append(&mut text, entries.as_slice());
        self.outdent();
        let tab = self.tab();
        append(&mut text, tab.as_slice());
        push_table_close(&mut text);
        append(&mut text, tab.as_slice());
        push_return_keyword(&mut text);
        let open = self.print_function_open(&scoped.function);
        append(&mut text, open.as_slice());
        self.indent();
        let bindings = packed_bindings_of(&scoped.dependencies);
        let (body, start, previous) = self.open_function_body(&scoped.function, Some(bindings.as_slice()));
        append(&mut text, body.as_slice());
        (text, start, previous)
    }

    /// One dependency of a scoped closure below the threshold, as a local:
    /// an indented `local`, its name, ` = `, its printed source and `;`.
    pub fn print_scoped_local(&self, name: Name, source: &[u8]) -> (text: Vec<u8>)
        ensures
            text@ == tabs(self.depth() as nat) + lit_local() + self.name_spec(name) + lit_assign() + source@
                + lit_statement_end(),
    {
        let mut text = self.tab();
        push_local(&mut text);
        let printed = self.print_name(name);
        append(&mut text, printed.as_slice());
        push_assign(&mut text);
        append(&mut text, source);
        push_statement_end(&mut text);
        text
    }

    /// The indented `return` before the function a scoped closure below the
    /// threshold returns.
    pub fn print_scoped_return(&self) -> (text: Vec<u8>)
        ensures
            text@ == tabs(self.depth() as nat) + lit_return_keyword(),
    {
        let mut text = self.tab();
        push_return_keyword(&mut text);
        text
    }

    /// Closes a scoped closure opened by [`Self::open_scoped`], after the
    /// function it returns; from the threshold up, after
    /// [`Self::close_function_body`], with the dependencies' printed sources
    /// as the arguments of the packing closure.
    pub fn close_scoped(&mut self, scoped: &Scoped, sources: &[Vec<u8>]) -> (text: Vec<u8>)
        requires
            packs(scoped.dependencies@.len()) ==> sources@.len() == scoped.dependencies@.len(),
        ensures
            final(self).names() == old(self).names(),
            final(self).exact_names() == old(self).exact_names(),
            ({
                let count = scoped.dependencies@.len();
                let d1 = shallower(old(self).depth());
                let d2 = shallower(d1);
                let d3 = shallower(d2);
                if count == 0 {
                    &&& text@.len() == 0
                    &&& final(self).depth() == old(self).depth()
                } else if !packs(count) {
                    &&& text@ == lit_newline() + tabs(d1 as nat) + lit_end_call()
                    &&& final(self).depth() == d1
                } else {
                    &&& text@ == tabs(d1 as nat) + lit_end_paren() + key_close(scoped.function.key) + lit_newline()
                        + tabs(d2 as nat) + lit_end_call_open() + joined(text_views(sources@)) + lit_close_line()
                        + tabs(d3 as nat) + lit_end_call()
                    &&& final(self).depth() == d3
                }
            }),
    {
        let count = scoped.dependencies.len();
        let mut text: Vec<u8> = Vec::new();
        if count == 0 {
            return text;
        }
        if !packs_dependencies(count) {
            push_newline(&mut text);
        } else {
            self.outdent();
            let close = self.print_function_close(&scoped.function);
            append(&mut text, close.as_slice());
            self.outdent();
            push_newline(&mut text);
            let tab = self.tab();
            append(&mut text, tab.as_slice());
            push_end_call_open(&mut text);
            let printed = fmt_delimited(sources);
            append(&mut text, printed.as_slice());
            push_close_line(&mut text);
        }
        self.outdent();
        let tab = self.tab();
        append(&mut text, tab.as_slice());
        push_end_call(&mut text);
        text
    }
}

/// The views of a list of byte strings.
pub open spec fn byte_views(list: Seq<Vec<u8>>) -> Seq<Seq<u8>> {
    list.map_values(|name: Vec<u8>| name@)
}

/// Inserts `name` into the strictly ascending `list`, unless it is there.
fn insert_sorted_name(list: &mut Vec<Vec<u8>>, name: Vec<u8>)
    requires
        strictly_sorted(byte_views(old(list)@)),
    ensures
        strictly_sorted(byte_views(final(list)@)),
        forall|x: Seq<u8>| byte_views(final(list)@).contains(x) <==> (byte_views(old(list)@).contains(x) || x == name@),
{
    let ghost before = byte_views(list@);
    let mut p: usize = 0;
    while p < list.len() && compare_bytes(list[p].as_slice(), name.as_slice()) < 0
        invariant
            byte_views(list@) == before,
            p <= list@.len(),
            forall|j: int| 0 <= j < p ==> less(#[trigger] before[j], name@),
        decreases list@.len() - p,
    {
        assert(before[p as int] == list@[p as int]@);
        p = p + 1;
    }
    if p < list.len() && compare_bytes(list[p].as_slice(), name.as_slice()) == 0 {
        assert(before[p as int] == list@[p as int]@);
        assert(before.contains(name@));
        return;
    }
    let ghost entry = name@;
    if p < list.len() {
        assert(before[p as int] == list@[p as int]@);
        proof {
            lemma_less_order(name@, before[p as int], name@);
        }
    }
    list.insert(p, name);
    proof {
        let names = byte_views(list@);
        assert(names =~= before.insert(p as int, entry));
        assert forall|i: int, j: int| 0 <= i < j < names.len() implies less(
            #[trigger] names[i],
            #[trigger] names[j],
        ) by {
            if j < p {
                assert(less(before[i], before[j]));
            } else if j == p {
                assert(less(before[i], entry));
            } else if i < p {
                assert(less(before[i], before[j - 1]));
            } else if i == p {
                if j - 1 > p {
                    assert(less(before[p as int], before[j - 1]));
                    lemma_less_order(entry, before[p as int], before[j - 1]);
                }
            } else {
                assert(less(before[i - 1], before[j - 1]));
            }
        }
        assert forall|x: Seq<u8>| names.contains(x) <==> (before.contains(x) || x == entry) by {
            if names.contains(x) {
                let k = choose|k: int| 0 <= k < names.len() && names[k] == x;
                if k < p {
                    assert(before[k] == x);
                } else if k > p {
                    assert(before[k - 1] == x);
                }
            }
            if before.contains(x) {
                let k = choose|k: int| 0 <= k < before.len() && before[k] == x;
                if k < p {
                    assert(names[k] == x);
                } else {
                    assert(names[k + 1] == x);
                }
            }
            if x == entry {
                assert(names[p as int] == x);
            }
        }
    }
}

impl LuaNoFFIPrinter {
    /// The runtime sections the printed tree refers to directly, ascending,
    /// each once.
    pub closed spec fn runtime_list(&self) -> Seq<Seq<u8>> {
        byte_views(self.runtime_names@)
    }

    /// Replaces the runtime sections the printed tree refers to: they are
    /// kept ascending, each once.
    pub fn set_runtime_names(&mut self, runtime_names: Vec<Vec<u8>>)
        ensures
            strictly_sorted(final(self).runtime_list()),
            forall|x: Seq<u8>| final(self).runtime_list().contains(x) <==> byte_views(runtime_names@).contains(x),
            final(self).names() == old(self).names(),
            final(self).exact_names() == old(self).exact_names(),
            final(self).depth() == old(self).depth(),
    {
        let mut sorted: Vec<Vec<u8>> = Vec::new();
        let mut i: usize = 0;
        while i < runtime_names.len()
            invariant
                i <= runtime_names@.len(),
                strictly_sorted(byte_views(sorted@)),
                forall|x: Seq<u8>| byte_views(sorted@).contains(x) <==> byte_views(runtime_names@.take(i as int)).contains(x),
            decreases runtime_names@.len() - i,
        {
            let name = copy_bytes(runtime_names[i].as_slice());
            insert_sorted_name(&mut sorted, name);
            proof {
                let next = byte_views(runtime_names@.take(i + 1));
                assert(next =~= byte_views(runtime_names@.take(i as int)).push(runtime_names@[i as int]@));
                assert forall|x: Seq<u8>| byte_views(sorted@).contains(x) <==> next.contains(x) by {
                    if x == runtime_names@[i as int]@ {
                        assert(next[i as int] == x);
                    }
                    if next.contains(x) {
                        let k = choose|k: int| 0 <= k < next.len() && next[k] == x;
                        if k < i {
                            assert(byte_views(runtime_names@.take(i as int))[k] == x);
                        }
                    }
                    if byte_views(runtime_names@.take(i as int)).contains(x) {
                        let k = choose|k: int| 0 <= k < i && byte_views(runtime_names@.take(i as int))[k] == x;
                        assert(next[k] == x);
                    }
                }
            }
            i = i + 1;
        }
        assert(runtime_names@.take(i as int) =~= runtime_names@);
        self.runtime_names = sorted;
    }

    /// The runtime sections the printed tree refers to directly, ascending,
    /// each once.
    pub fn runtime_names(&self) -> (names: &[Vec<u8>])
        ensures
            byte_views(names@) == self.runtime_list(),
    {
        self.runtime_names.as_slice()
    }
}

/// The bytes of `local function module(`.
pub open spec fn lit_module_open() -> Seq<u8> {
    seq![0x6Cu8, 0x6F, 0x63, 0x61, 0x6C, 0x20, 0x66, 0x75, 0x6E, 0x63, 0x74, 0x69, 0x6F, 0x6E, 0x20, 0x6D, 0x6F, 0x64, 0x75, 0x6C, 0x65, 0x28]
}

fn push_module_open(out: &mut Vec<u8>)
    ensures
        final(out)@ == old(out)@ + lit_module_open(),
{
    let bytes = [0x6Cu8, 0x6F, 0x63, 0x61, 0x6C, 0x20, 0x66, 0x75, 0x6E, 0x63, 0x74, 0x69, 0x6F, 0x6E, 0x20, 0x6D, 0x6F, 0x64, 0x75, 0x6C, 0x65, 0x28];
    assert(bytes@ =~= lit_module_open());
    append(out, &bytes);
}

/// The bytes of `local excess_stack = { top = 0 }\n`.
pub open spec fn lit_excess_stack() -> Seq<u8> {
    seq![0x6Cu8, 0x6F, 0x63, 0x61, 0x6C, 0x20, 0x65, 0x78, 0x63, 0x65, 0x73, 0x73, 0x5F, 0x73, 0x74, 0x61, 0x63, 0x6B, 0x20, 0x3D, 0x20, 0x7B, 0x20, 0x74, 0x6F, 0x70, 0x20, 0x3D, 0x20, 0x30, 0x20, 0x7D, 0x0A]
}

fn push_excess_stack(out: &mut Vec<u8>)
    ensures
        final(out)@ == old(out)@ + lit_excess_stack(),
{
    let bytes = [0x6Cu8, 0x6F, 0x63, 0x61, 0x6C, 0x20, 0x65, 0x78, 0x63, 0x65, 0x73, 0x73, 0x5F, 0x73, 0x74, 0x61, 0x63, 0x6B, 0x20, 0x3D, 0x20, 0x7B, 0x20, 0x74, 0x6F, 0x70, 0x20, 0x3D, 0x20, 0x30, 0x20, 0x7D, 0x0A];
    assert(bytes@ =~= lit_excess_stack());
    append(out, &bytes);
}

/// The bytes of ` = runtime.`.
pub open spec fn lit_runtime_access() -> Seq<u8> {
    seq![0x20u8, 0x3D, 0x20, 0x72, 0x75, 0x6E, 0x74, 0x69, 0x6D, 0x65, 0x2E]
}

fn push_runtime_access(out: &mut Vec<u8>)
    ensures
        final(out)@ == old(out)@ + lit_runtime_access(),
{
    let bytes = [0x20u8, 0x3D, 0x20, 0x72, 0x75, 0x6E, 0x74, 0x69, 0x6D, 0x65, 0x2E];
    assert(bytes@ =~= lit_runtime_access());
    append(out, &bytes);
}

/// The bytes of `local module_locals = {}\n`.
pub open spec fn lit_module_locals_open() -> Seq<u8> {
    seq![0x6Cu8, 0x6F, 0x63, 0x61, 0x6C, 0x20, 0x6D, 0x6F, 0x64, 0x75, 0x6C, 0x65, 0x5F, 0x6C, 0x6F, 0x63, 0x61, 0x6C, 0x73, 0x20, 0x3D, 0x20, 0x7B, 0x7D, 0x0A]
}

fn push_module_locals_open(out: &mut Vec<u8>)
    ensures
        final(out)@ == old(out)@ + lit_module_locals_open(),
{
    let bytes = [0x6Cu8, 0x6F, 0x63, 0x61, 0x6C, 0x20, 0x6D, 0x6F, 0x64, 0x75, 0x6C, 0x65, 0x5F, 0x6C, 0x6F, 0x63, 0x61, 0x6C, 0x73, 0x20, 0x3D, 0x20, 0x7B, 0x7D, 0x0A];
    assert(bytes@ =~= lit_module_locals_open());
    append(out, &bytes);
}

/// The bytes of `for i = 1, `.
pub open spec fn lit_for_open() -> Seq<u8> {
    seq![0x66u8, 0x6F, 0x72, 0x20, 0x69, 0x20, 0x3D, 0x20, 0x31, 0x2C, 0x20]
}

fn push_for_open(out: &mut Vec<u8>)
    ensures
        final(out)@ == old(out)@ + lit_for_open(),
{
    let bytes = [0x66u8, 0x6F, 0x72, 0x20, 0x69, 0x20, 0x3D, 0x20, 0x31, 0x2C, 0x20];
    assert(bytes@ =~= lit_for_open());
    append(out, &bytes);
}

/// The bytes of ` do\n`.
pub open spec fn lit_for_do() -> Seq<u8> {
    seq![0x20u8, 0x64, 0x6F, 0x0A]
}

fn push_for_do(out: &mut Vec<u8>)
    ensures
        final(out)@ == old(out)@ + lit_for_do(),
{
    let bytes = [0x20u8, 0x64, 0x6F, 0x0A];
    assert(bytes@ =~= lit_for_do());
    append(out, &bytes);
}

/// The bytes of `module_locals[i] = 0\n`.
pub open spec fn lit_module_locals_zero() -> Seq<u8> {
    seq![0x6Du8, 0x6F, 0x64, 0x75, 0x6C, 0x65, 0x5F, 0x6C, 0x6F, 0x63, 0x61, 0x6C, 0x73, 0x5B, 0x69, 0x5D, 0x20, 0x3D, 0x20, 0x30, 0x0A]
}

fn push_module_locals_zero(out: &mut Vec<u8>)
    ensures
        final(out)@ == old(out)@ + lit_module_locals_zero(),
{
    let bytes = [0x6Du8, 0x6F, 0x64, 0x75, 0x6C, 0x65, 0x5F, 0x6C, 0x6F, 0x63, 0x61, 0x6C, 0x73, 0x5B, 0x69, 0x5D, 0x20, 0x3D, 0x20, 0x30, 0x0A];
    assert(bytes@ =~= lit_module_locals_zero());
    append(out, &bytes);
}

/// The bytes of `end\n`.
pub open spec fn lit_end_line() -> Seq<u8> {
    seq![0x65u8, 0x6E, 0x64, 0x0A]
}

fn push_end_line(out: &mut Vec<u8>)
    ensures
        final(out)@ == old(out)@ + lit_end_line(),
{
    let bytes = [0x65u8, 0x6E, 0x64, 0x0A];
    assert(bytes@ =~= lit_end_line());
    append(out, &bytes);
}

/// The bytes of `module_locals[`.
pub open spec fn lit_module_locals_entry() -> Seq<u8> {
    seq![0x6Du8, 0x6F, 0x64, 0x75, 0x6C, 0x65, 0x5F, 0x6C, 0x6F, 0x63, 0x61, 0x6C, 0x73, 0x5B]
}

fn push_module_locals_entry(out: &mut Vec<u8>)
    ensures
        final(out)@ == old(out)@ + lit_module_locals_entry(),
{
    let bytes = [0x6Du8, 0x6F, 0x64, 0x75, 0x6C, 0x65, 0x5F, 0x6C, 0x6F, 0x63, 0x61, 0x6C, 0x73, 0x5B];
    assert(bytes@ =~= lit_module_locals_entry());
    append(out, &bytes);
}

/// The bytes of `local export = {\n`.
pub open spec fn lit_export_open() -> Seq<u8> {
    seq![0x6Cu8, 0x6F, 0x63, 0x61, 0x6C, 0x20, 0x65, 0x78, 0x70, 0x6F, 0x72, 0x74, 0x20, 0x3D, 0x20, 0x7B, 0x0A]
}

fn push_export_open(out: &mut Vec<u8>)
    ensures
        final(out)@ == old(out)@ + lit_export_open(),
{
    let bytes = [0x6Cu8, 0x6F, 0x63, 0x61, 0x6C, 0x20, 0x65, 0x78, 0x70, 0x6F, 0x72, 0x74, 0x20, 0x3D, 0x20, 0x7B, 0x0A];
    assert(bytes@ =~= lit_export_open());
    append(out, &bytes);
}

/// The bytes of `["`.
pub open spec fn lit_export_key_open() -> Seq<u8> {
    seq![0x5Bu8, 0x22]
}

fn push_export_key_open(out: &mut Vec<u8>)
    ensures
        final(out)@ == old(out)@ + lit_export_key_open(),
{
    let bytes = [0x5Bu8, 0x22];
    assert(bytes@ =~= lit_export_key_open());
    append(out, &bytes);
}

/// The bytes of `"] = `.
pub open spec fn lit_export_key_close() -> Seq<u8> {
    seq![0x22u8, 0x5D, 0x20, 0x3D, 0x20]
}

fn push_export_key_close(out: &mut Vec<u8>)
    ensures
        final(out)@ == old(out)@ + lit_export_key_close(),
{
    let bytes = [0x22u8, 0x5D, 0x20, 0x3D, 0x20];
    assert(bytes@ =~= lit_export_key_close());
    append(out, &bytes);
}

/// The bytes of `return export\n`.
pub open spec fn lit_return_export() -> Seq<u8> {
    seq![0x72u8, 0x65, 0x74, 0x75, 0x72, 0x6E, 0x20, 0x65, 0x78, 0x70, 0x6F, 0x72, 0x74, 0x0A]
}

fn push_return_export(out: &mut Vec<u8>)
    ensures
        final(out)@ == old(out)@ + lit_return_export(),
{
    let bytes = [0x72u8, 0x65, 0x74, 0x75, 0x72, 0x6E, 0x20, 0x65, 0x78, 0x70, 0x6F, 0x72, 0x74, 0x0A];
    assert(bytes@ =~= lit_return_export());
    append(out, &bytes);
}

/// The bytes of `repeat\n`.
pub open spec fn lit_repeat_line() -> Seq<u8> {
    seq![0x72u8, 0x65, 0x70, 0x65, 0x61, 0x74, 0x0A]
}

fn push_repeat_line(out: &mut Vec<u8>)
    ensures
        final(out)@ == old(out)@ + lit_repeat_line(),
{
    let bytes = [0x72u8, 0x65, 0x70, 0x65, 0x61, 0x74, 0x0A];
    assert(bytes@ =~= lit_repeat_line());
    append(out, &bytes);
}

/// The bytes of `until `.
pub open spec fn lit_until() -> Seq<u8> {
    seq![0x75u8, 0x6E, 0x74, 0x69, 0x6C, 0x20]
}

fn push_until(out: &mut Vec<u8>)
    ensures
        final(out)@ == old(out)@ + lit_until(),
{
    let bytes = [0x75u8, 0x6E, 0x74, 0x69, 0x6C, 0x20];
    assert(bytes@ =~= lit_until());
    append(out, &bytes);
}

/// The bytes of `not (`.
pub open spec fn lit_not_open() -> Seq<u8> {
    seq![0x6Eu8, 0x6F, 0x74, 0x20, 0x28]
}

fn push_not_open(out: &mut Vec<u8>)
    ensures
        final(out)@ == old(out)@ + lit_not_open(),
{
    let bytes = [0x6Eu8, 0x6F, 0x74, 0x20, 0x28];
    assert(bytes@ =~= lit_not_open());
    append(out, &bytes);
}

/// The bytes of `)`.
pub open spec fn lit_close_paren() -> Seq<u8> {
    seq![0x29u8]
}

fn push_close_paren(out: &mut Vec<u8>)
    ensures
        final(out)@ == old(out)@ + lit_close_paren(),
{
    let bytes = [0x29u8];
    assert(bytes@ =~= lit_close_paren());
    append(out, &bytes);
}

/// The bytes of ` == 0`.
pub open spec fn lit_equals_zero() -> Seq<u8> {
    seq![0x20u8, 0x3D, 0x3D, 0x20, 0x30]
}

fn push_equals_zero(out: &mut Vec<u8>)
    ensures
        final(out)@ == old(out)@ + lit_equals_zero(),
{
    let bytes = [0x20u8, 0x3D, 0x3D, 0x20, 0x30];
    assert(bytes@ =~= lit_equals_zero());
    append(out, &bytes);
}

/// The bytes of `[1] = `.
pub open spec fn lit_global_slot() -> Seq<u8> {
    seq![0x5Bu8, 0x31, 0x5D, 0x20, 0x3D, 0x20]
}

fn push_global_slot(out: &mut Vec<u8>)
    ensures
        final(out)@ == old(out)@ + lit_global_slot(),
{
    let bytes = [0x5Bu8, 0x31, 0x5D, 0x20, 0x3D, 0x20];
    assert(bytes@ =~= lit_global_slot());
    append(out, &bytes);
}

/// The bytes of `(`.
pub open spec fn lit_open_paren() -> Seq<u8> {
    seq![0x28u8]
}

fn push_open_paren(out: &mut Vec<u8>)
    ensures
        final(out)@ == old(out)@ + lit_open_paren(),
{
    let bytes = [0x28u8];
    assert(bytes@ =~= lit_open_paren());
    append(out, &bytes);
}

/// The name a module binds a runtime section's helper to.
pub open spec fn binding_of(section: Seq<u8>) -> Seq<u8> {
    if keeps_own_name(section) {
        section
    } else {
        runtime_prefix() + section
    }
}

/// The lines that bind the helper of each runtime section from the runtime
/// table.
pub open spec fn bindings_text(depth: u16, sections: Seq<Seq<u8>>) -> Seq<u8>
    decreases sections.len(),
{
    if sections.len() == 0 {
        Seq::empty()
    } else {
        bindings_text(depth, sections.drop_last()) + tabs(depth as nat) + lit_local() + binding_of(sections.last())
            + lit_runtime_access() + binding_of(sections.last()) + lit_newline()
    }
}

/// Whether a module with `locals` locals, `runtime` runtime bindings and a
/// frame of `stack` slots would hold more than the 200 active locals Lua
/// allows: besides those, it declares `environment`, `excess_stack`,
/// `export`, and `stack_top` when it has a frame.
pub open spec fn table_backed(locals: nat, runtime: nat, stack: u16) -> bool {
    locals + runtime + 3 + (if stack != 0 {
        1int
    } else {
        0int
    }) > 200
}

/// The exact text of module local `index` when the module's locals live in
/// a table: `module_locals[index + 1]`.
pub open spec fn module_entry(index: nat) -> Seq<u8> {
    lit_module_locals_entry() + decimal(index + 1) + lit_close_bracket()
}

/// The exact texts after each of `locals`, in order, was made to print as
/// its entry of the module's local table.
pub open spec fn module_names(exact: Map<u32, Seq<u8>>, locals: Seq<Name>) -> Map<u32, Seq<u8>>
    decreases locals.len(),
{
    if locals.len() == 0 {
        exact
    } else {
        module_names(exact, locals.drop_last()).insert(locals.last().id, module_entry((locals.len() - 1) as nat))
    }
}

/// The declaration of a module's local table of `count` entries, each
/// starting out as zero.
pub open spec fn table_locals_text(depth: u16, count: nat) -> Seq<u8> {
    tabs(depth as nat) + lit_module_locals_open() + tabs(depth as nat) + lit_for_open() + decimal(count)
        + lit_for_do() + tabs(deeper(depth) as nat) + lit_module_locals_zero() + tabs(depth as nat)
        + lit_end_line()
}

/// The text of a byte, escaped as in a Rust or Lua string literal: the
/// named escapes for tab, carriage return, line feed, backslash and quotes,
/// printable ASCII as it is, and `\x` with two lowercase hex digits
/// otherwise.
pub open spec fn escaped_byte(b: u8) -> Seq<u8> {
    if b == 0x09 {
        seq![0x5Cu8, 0x74]
    } else if b == 0x0D {
        seq![0x5Cu8, 0x72]
    } else if b == 0x0A {
        seq![0x5Cu8, 0x6E]
    } else if b == 0x5C {
        seq![0x5Cu8, 0x5C]
    } else if b == 0x27 {
        seq![0x5Cu8, 0x27]
    } else if b == 0x22 {
        seq![0x5Cu8, 0x22]
    } else if 0x20 <= b <= 0x7E {
        seq![b]
    } else {
        seq![0x5Cu8, 0x78, hex_digit(b / 16), hex_digit(b % 16)]
    }
}

/// The lowercase hex digit of `n`, below sixteen.
pub open spec fn hex_digit(n: u8) -> u8 {
    if n < 10 {
        (n + 48) as u8
    } else {
        (n + 87) as u8
    }
}

/// The bytes of `bytes`, each escaped.
pub open spec fn escaped(bytes: Seq<u8>) -> Seq<u8>
    decreases bytes.len(),
{
    if bytes.len() == 0 {
        Seq::empty()
    } else {
        escaped(bytes.drop_last()) + escaped_byte(bytes.last())
    }
}

/// The entries of a module's export table for the first `count` exports,
/// each with its printed source.
pub open spec fn exports_text(depth: u16, exports: Seq<Export>, sources: Seq<Seq<u8>>, count: nat) -> Seq<u8>
    decreases count,
{
    if count == 0 {
        Seq::empty()
    } else {
        exports_text(depth, exports, sources, (count - 1) as nat) + tabs(depth as nat) + lit_export_key_open()
            + escaped(exports[count - 1].identifier@) + lit_export_key_close() + sources[count - 1]
            + lit_entry_end()
    }
}

/// How a list of locals prints: each local, separated by `, `.
pub open spec fn local_list_text(names: Map<u32, Seq<u8>>, exact: Map<u32, Seq<u8>>, list: Seq<Local>) -> Seq<u8>
    decreases list.len(),
{
    if list.len() == 0 {
        Seq::empty()
    } else if list.len() == 1 {
        local_text(names, exact, list[0])
    } else {
        local_list_text(names, exact, list.drop_last()) + lit_comma() + local_text(names, exact, list.last())
    }
}

/// The swaps of the first `count` neighbouring pairs of `locals`, one line
/// each.
pub open spec fn swaps_text(
    names: Map<u32, Seq<u8>>,
    exact: Map<u32, Seq<u8>>,
    depth: u16,
    locals: Seq<Local>,
    count: nat,
) -> Seq<u8>
    decreases count,
{
    if count == 0 {
        Seq::empty()
    } else {
        let first = local_text(names, exact, locals[count - 1]);
        let second = local_text(names, exact, locals[count as int]);
        swaps_text(names, exact, depth, locals, (count - 1) as nat) + tabs(depth as nat) + first + lit_comma()
            + second + lit_assign() + second + lit_comma() + first + lit_statement_end()
    }
}

fn escape_byte(b: u8, out: &mut Vec<u8>)
    ensures
        final(out)@ == old(out)@ + escaped_byte(b),
{
    if b == 0x09 {
        out.push(0x5C);
        out.push(0x74);
    } else if b == 0x0D {
        out.push(0x5C);
        out.push(0x72);
    } else if b == 0x0A {
        out.push(0x5C);
        out.push(0x6E);
    } else if b == 0x5C || b == 0x27 || b == 0x22 {
        out.push(0x5C);
        out.push(b);
    } else if 0x20 <= b && b <= 0x7E {
        out.push(b);
    } else {
        let high = b / 16;
        let low = b % 16;
        out.push(0x5C);
        out.push(0x78);
        out.push(if high < 10 { high + 48 } else { high + 87 });
        out.push(if low < 10 { low + 48 } else { low + 87 });
    }
    assert(final(out)@ =~= old(out)@ + escaped_byte(b)) by {}
}

/// The bytes of `bytes`, each escaped as in a string literal.
pub fn escape_ascii_text(bytes: &[u8]) -> (text: Vec<u8>)
    ensures
        text@ == escaped(bytes@),
{
    let mut text: Vec<u8> = Vec::new();
    let mut i: usize = 0;
    while i < bytes.len()
        invariant
            i <= bytes@.len(),
            text@ == escaped(bytes@.take(i as int)),
        decreases bytes@.len() - i,
    {
        escape_byte(bytes[i], &mut text);
        assert(bytes@.take(i + 1).drop_last() =~= bytes@.take(i as int));
        i = i + 1;
    }
    assert(bytes@.take(i as int) =~= bytes@);
    text
}

/// Whether a module with these locals and frame, printed after the runtime
/// sections of `printer`, keeps its locals in a table instead of declaring
/// them, to stay under Lua's limit of 200 active locals.
pub fn use_table_backed_module_locals(printer: &LuaNoFFIPrinter, locals: &[Name], stack: u16) -> (backed: bool)
    ensures
        backed == table_backed(locals@.len(), printer.runtime_list().len(), stack),
{
    let fixed: usize = if stack != 0 {
        4
    } else {
        3
    };
    let budget: usize = 200 - fixed;
    let runtime = printer.runtime_names.len();
    if runtime > budget {
        true
    } else {
        locals.len() > budget - runtime
    }
}

impl LuaNoFFIPrinter {
    /// How a list of locals prints: each local, separated by `, `.
    pub fn print_locals(&self, list: &[Local]) -> (text: Vec<u8>)
        ensures
            text@ == local_list_text(self.names(), self.exact_names(), list@),
    {
        let mut text: Vec<u8> = Vec::new();
        let mut i: usize = 0;
        while i < list.len()
            invariant
                i <= list@.len(),
                text@ == local_list_text(self.names(), self.exact_names(), list@.subrange(0, i as int)),
            decreases list@.len() - i,
        {
            if i != 0 {
                push_comma(&mut text);
            }
            let local = self.print_local(list[i]);
            append(&mut text, local.as_slice());
            i = i + 1;
            assert(list@.subrange(0, i as int).drop_last() =~= list@.subrange(0, i - 1));
        }
        assert(list@.subrange(0, i as int) =~= list@);
        text
    }

    /// A swap of all the locals of `swap`: each neighbouring pair exchanges
    /// its values, one line per pair.
    pub fn print_swap_all(&self, swap: &SwapAll) -> (text: Vec<u8>)
        ensures
            text@ == swaps_text(
                self.names(),
                self.exact_names(),
                self.depth(),
                swap.locals@,
                if swap.locals@.len() == 0 {
                    0nat
                } else {
                    (swap.locals@.len() - 1) as nat
                },
            ),
    {
        let mut text: Vec<u8> = Vec::new();
        if swap.locals.len() == 0 {
            return text;
        }
        let last = swap.locals.len() - 1;
        let mut k: usize = 0;
        while k < last
            invariant
                last == swap.locals@.len() - 1,
                k <= last,
                text@ == swaps_text(self.names(), self.exact_names(), self.depth(), swap.locals@, k as nat),
            decreases swap.locals@.len() - k,
        {
            let first = self.print_local(swap.locals[k]);
            let second = self.print_local(swap.locals[k + 1]);
            let tab = self.tab();
            append(&mut text, tab.as_slice());
            append(&mut text, first.as_slice());
            push_comma(&mut text);
            append(&mut text, second.as_slice());
            push_assign(&mut text);
            append(&mut text, second.as_slice());
            push_comma(&mut text);
            append(&mut text, first.as_slice());
            push_statement_end(&mut text);
            k = k + 1;
        }
        text
    }

    /// An assignment of its printed source to a local.
    pub fn print_assign(&self, assign: &Assign, source: &[u8]) -> (text: Vec<u8>)
        ensures
            text@ == tabs(self.depth() as nat) + local_text(self.names(), self.exact_names(), assign.destination)
                + lit_assign() + source@ + lit_statement_end(),
    {
        let mut text = self.tab();
        let destination = self.print_local(assign.destination);
        append(&mut text, destination.as_slice());
        push_assign(&mut text);
        append(&mut text, source);
        push_statement_end(&mut text);
        text
    }

    /// A write of a printed source into the slot of a printed global.
    pub fn print_global_set(&self, destination: &[u8], source: &[u8]) -> (text: Vec<u8>)
        ensures
            text@ == tabs(self.depth() as nat) + destination@ + lit_global_slot() + source@ + lit_statement_end(),
    {
        let mut text = self.tab();
        append(&mut text, destination);
        push_global_slot(&mut text);
        append(&mut text, source);
        push_statement_end(&mut text);
        text
    }

    /// A call statement: its result locals, if any, assigned from the printed
    /// function called with the printed arguments.
    pub fn print_call(&self, call: &Call, function: &[u8], arguments: &[Vec<u8>]) -> (text: Vec<u8>)
        ensures
            text@ == tabs(self.depth() as nat) + (if call.results@.len() == 0 {
                Seq::empty()
            } else {
                local_list_text(self.names(), self.exact_names(), call.results@) + lit_assign()
            }) + function@ + lit_open_paren() + joined(text_views(arguments@)) + lit_close_line(),
    {
        let mut text = self.tab();
        if call.results.len() != 0 {
            let results = self.print_locals(call.results.as_slice());
            append(&mut text, results.as_slice());
            push_assign(&mut text);
        }
        append(&mut text, function);
        push_open_paren(&mut text);
        let printed = fmt_delimited(arguments);
        append(&mut text, printed.as_slice());
        push_close_line(&mut text);
        text
    }

    /// Opens a `repeat` loop, whose body goes a level deeper.
    pub fn open_repeat(&mut self) -> (text: Vec<u8>)
        ensures
            text@ == tabs(old(self).depth() as nat) + lit_repeat_line(),
            final(self).depth() == deeper(old(self).depth()),
            final(self).names() == old(self).names(),
            final(self).exact_names() == old(self).exact_names(),
    {
        let mut text = self.tab();
        push_repeat_line(&mut text);
        self.indent();
        text
    }

    /// Closes a `repeat` loop with its exit test, which holds when the
    /// condition is zero. A condition that turns a boolean into an integer
    /// is tested by the boolean itself: `printed` is then that boolean
    /// printed, and otherwise the condition printed.
    pub fn close_repeat(&mut self, condition: &Expression, printed: &[u8]) -> (text: Vec<u8>)
        ensures
            text@ == tabs(shallower(old(self).depth()) as nat) + lit_until() + (if condition is BooleanToInteger {
                lit_not_open() + printed@ + lit_close_paren()
            } else {
                printed@ + lit_equals_zero()
            }) + lit_newline(),
            final(self).depth() == shallower(old(self).depth()),
            final(self).names() == old(self).names(),
            final(self).exact_names() == old(self).exact_names(),
    {
        self.outdent();
        let mut text = self.tab();
        push_until(&mut text);
        match condition {
            Expression::BooleanToInteger(_) => {
                push_not_open(&mut text);
                append(&mut text, printed);
                push_close_paren(&mut text);
            },
            _ => {
                append(&mut text, printed);
                push_equals_zero(&mut text);
            },
        }
        push_newline(&mut text);
        text
    }

    /// Opens a module: its function over the environment, the excess stack,
    /// a binding for each runtime section, the entry into its frame and its
    /// locals, up to its code. When declaring the locals would pass Lua's
    /// limit of active locals, they live in a table instead, each printing
    /// as its entry. Returns the text and whether the locals live in a table.
    pub fn open_module(&mut self, tree: &LuaNoFFITree) -> (opened: (Vec<u8>, bool))
        ensures
            ({
                let d = old(self).depth();
                let d1 = deeper(d);
                let backed = table_backed(tree.locals@.len(), old(self).runtime_list().len(), tree.stack);
                &&& opened.1 == backed
                &&& opened.0@ == tabs(d as nat) + lit_module_open() + name_text(
                    old(self).names(),
                    old(self).exact_names(),
                    tree.environment,
                ) + lit_close_line() + tabs(d1 as nat) + lit_excess_stack() + bindings_text(
                    d1,
                    old(self).runtime_list(),
                ) + stack_enter_text(d1, tree.stack) + (if backed {
                    table_locals_text(d1, tree.locals@.len())
                } else {
                    locals_text(old(self).names(), old(self).exact_names(), d1, tree.locals@)
                })
                &&& final(self).exact_names() == (if backed {
                    module_names(old(self).exact_names(), tree.locals@)
                } else {
                    old(self).exact_names()
                })
                &&& final(self).depth() == d1
            }),
            final(self).names() == old(self).names(),
            final(self).runtime_list() == old(self).runtime_list(),
    {
        let mut text = self.tab();
        push_module_open(&mut text);
        let environment = self.print_name(tree.environment);
        append(&mut text, environment.as_slice());
        push_close_line(&mut text);
        self.indent();
        let tab = self.tab();
        append(&mut text, tab.as_slice());
        push_excess_stack(&mut text);
        let backed = use_table_backed_module_locals(self, tree.locals.as_slice(), tree.stack);
        let ghost runtime = self.runtime_list();
        let mut r: usize = 0;
        while r < self.runtime_names.len()
            invariant
                r <= runtime.len(),
                runtime == byte_views(self.runtime_names@),
                runtime == old(self).runtime_list(),
                self.depth() == deeper(old(self).depth()),
                self.names() == old(self).names(),
                self.exact_names() == old(self).exact_names(),
                tab@ == tabs(self.depth() as nat),
                text@ == tabs(old(self).depth() as nat) + lit_module_open() + name_text(
                    old(self).names(),
                    old(self).exact_names(),
                    tree.environment,
                ) + lit_close_line() + tabs(self.depth() as nat) + lit_excess_stack() + bindings_text(
                    self.depth(),
                    runtime.take(r as int),
                ),
            decreases runtime.len() - r,
        {
            let binding = runtime_binding_name(self.runtime_names[r].as_slice());
            append(&mut text, tab.as_slice());
            push_local(&mut text);
            append(&mut text, binding.as_slice());
            push_runtime_access(&mut text);
            append(&mut text, binding.as_slice());
            push_newline(&mut text);
            proof {
                assert(runtime[r as int] == self.runtime_names@[r as int]@);
                assert(runtime.take(r + 1).drop_last() =~= runtime.take(r as int));
            }
            r = r + 1;
        }
        assert(runtime.take(r as int) =~= runtime);
        let enter = fmt_stack_enter(tree.stack, self);
        append(&mut text, enter.as_slice());
        if backed {
            append(&mut text, tab.as_slice());
            push_module_locals_open(&mut text);
            append(&mut text, tab.as_slice());
            push_for_open(&mut text);
            let count = decimal_text(tree.locals.len() as u64);
            append(&mut text, count.as_slice());
            push_for_do(&mut text);
            self.indent();
            let inner = self.tab();
            append(&mut text, inner.as_slice());
            push_module_locals_zero(&mut text);
            self.outdent();
            append(&mut text, tab.as_slice());
            push_end_line(&mut text);
            let ghost exact = self.exact_names();
            let mut i: usize = 0;
            while i < tree.locals.len()
                invariant
                    i <= tree.locals@.len(),
                    self.exact_names() == module_names(exact, tree.locals@.take(i as int)),
                    self.names() == old(self).names(),
                    self.depth() == deeper(old(self).depth()),
                    self.runtime_list() == old(self).runtime_list(),
                decreases tree.locals@.len() - i,
            {
                let mut entry: Vec<u8> = Vec::new();
                push_module_locals_entry(&mut entry);
                let digits = decimal_text((i + 1) as u64);
                append(&mut entry, digits.as_slice());
                push_close_bracket(&mut entry);
                self.set_exact_name(tree.locals[i], entry);
                assert(tree.locals@.take(i + 1).drop_last() =~= tree.locals@.take(i as int));
                i = i + 1;
            }
            assert(tree.locals@.take(i as int) =~= tree.locals@);
        } else {
            let locals = fmt_locals(tree.locals.as_slice(), self);
            append(&mut text, locals.as_slice());
        }
        (text, backed)
    }

    /// Closes a module after its code: its export table, each export keyed by
    /// its escaped name with its printed source, the exit from its frame, the
    /// return of the exports, and the end of its function. A module whose
    /// locals live in a table forgets their exact texts.
    pub fn close_module(&mut self, tree: &LuaNoFFITree, sources: &[Vec<u8>], backed: bool) -> (text: Vec<u8>)
        requires
            sources@.len() == tree.exports@.len(),
        ensures
            ({
                let d = old(self).depth();
                &&& text@ == tabs(d as nat) + lit_export_open() + exports_text(
                    deeper(d),
                    tree.exports@,
                    text_views(sources@),
                    tree.exports@.len(),
                ) + tabs(d as nat) + lit_table_close() + stack_leave_text(d, tree.stack) + tabs(d as nat)
                    + lit_return_export() + tabs(shallower(d) as nat) + lit_end_line()
                &&& final(self).exact_names() == (if backed {
                    Map::empty()
                } else {
                    old(self).exact_names()
                })
                &&& final(self).depth() == shallower(d)
            }),
            final(self).names() == old(self).names(),
            final(self).runtime_list() == old(self).runtime_list(),
    {
        let mut text = self.tab();
        push_export_open(&mut text);
        self.indent();
        let inner = self.tab();
        let mut k: usize = 0;
        while k < tree.exports.len()
            invariant
                k <= tree.exports@.len(),
                sources@.len() == tree.exports@.len(),
                inner@ == tabs(deeper(old(self).depth()) as nat),
                text@ == tabs(old(self).depth() as nat) + lit_export_open() + exports_text(
                    deeper(old(self).depth()),
                    tree.exports@,
                    text_views(sources@),
                    k as nat,
                ),
            decreases tree.exports@.len() - k,
        {
            append(&mut text, inner.as_slice());
            push_export_key_open(&mut text);
            let name = escape_ascii_text(tree.exports[k].identifier.as_slice());
            append(&mut text, name.as_slice());
            push_export_key_close(&mut text);
            append(&mut text, sources[k].as_slice());
            push_entry_end(&mut text);
            k = k + 1;
        }
        self.outdent();
        let tab = self.tab();
        append(&mut text, tab.as_slice());
        push_table_close(&mut text);
        let leave = fmt_stack_leave(tree.stack, self);
        append(&mut text, leave.as_slice());
        append(&mut text, tab.as_slice());
        push_return_export(&mut text);
        if backed {
            self.clear_exact_names();
        }
        self.outdent();
        let tab = self.tab();
        append(&mut text, tab.as_slice());
        push_end_line(&mut text);
        text
    }
}

/// The bytes of `if (`.
pub open spec fn lit_if_paren() -> Seq<u8> {
    seq![0x69u8, 0x66, 0x20, 0x28]
}

fn push_if_paren(out: &mut Vec<u8>)
    ensures
        final(out)@ == old(out)@ + lit_if_paren(),
{
    let bytes = [0x69u8, 0x66, 0x20, 0x28];
    assert(bytes@ =~= lit_if_paren());
    append(out, &bytes);
}

/// The bytes of `) < `.
pub open spec fn lit_less_than() -> Seq<u8> {
    seq![0x29u8, 0x20, 0x3C, 0x20]
}

fn push_less_than(out: &mut Vec<u8>)
    ensures
        final(out)@ == old(out)@ + lit_less_than(),
{
    let bytes = [0x29u8, 0x20, 0x3C, 0x20];
    assert(bytes@ =~= lit_less_than());
    append(out, &bytes);
}

/// The bytes of ` then\n`.
pub open spec fn lit_then_line() -> Seq<u8> {
    seq![0x20u8, 0x74, 0x68, 0x65, 0x6E, 0x0A]
}

fn push_then_line(out: &mut Vec<u8>)
    ensures
        final(out)@ == old(out)@ + lit_then_line(),
{
    let bytes = [0x20u8, 0x74, 0x68, 0x65, 0x6E, 0x0A];
    assert(bytes@ =~= lit_then_line());
    append(out, &bytes);
}

/// The bytes of `else`.
pub open spec fn lit_else_word() -> Seq<u8> {
    seq![0x65u8, 0x6C, 0x73, 0x65]
}

fn push_else_word(out: &mut Vec<u8>)
    ensures
        final(out)@ == old(out)@ + lit_else_word(),
{
    let bytes = [0x65u8, 0x6C, 0x73, 0x65];
    assert(bytes@ =~= lit_else_word());
    append(out, &bytes);
}

/// The bytes of `) > `.
pub open spec fn lit_greater_than() -> Seq<u8> {
    seq![0x29u8, 0x20, 0x3E, 0x20]
}

fn push_greater_than(out: &mut Vec<u8>)
    ensures
        final(out)@ == old(out)@ + lit_greater_than(),
{
    let bytes = [0x29u8, 0x20, 0x3E, 0x20];
    assert(bytes@ =~= lit_greater_than());
    append(out, &bytes);
}

/// The bytes of `) >= 0 and (`.
pub open spec fn lit_at_least_zero() -> Seq<u8> {
    seq![0x29u8, 0x20, 0x3E, 0x3D, 0x20, 0x30, 0x20, 0x61, 0x6E, 0x64, 0x20, 0x28]
}

fn push_at_least_zero(out: &mut Vec<u8>)
    ensures
        final(out)@ == old(out)@ + lit_at_least_zero(),
{
    let bytes = [0x29u8, 0x20, 0x3E, 0x3D, 0x20, 0x30, 0x20, 0x61, 0x6E, 0x64, 0x20, 0x28];
    assert(bytes@ =~= lit_at_least_zero());
    append(out, &bytes);
}

/// The bytes of `else\n`.
pub open spec fn lit_else_line() -> Seq<u8> {
    seq![0x65u8, 0x6C, 0x73, 0x65, 0x0A]
}

fn push_else_line(out: &mut Vec<u8>)
    ensures
        final(out)@ == old(out)@ + lit_else_line(),
{
    let bytes = [0x65u8, 0x6C, 0x73, 0x65, 0x0A];
    assert(bytes@ =~= lit_else_line());
    append(out, &bytes);
}

/// The bytes of `do\n`.
pub open spec fn lit_do_line() -> Seq<u8> {
    seq![0x64u8, 0x6F, 0x0A]
}

fn push_do_line(out: &mut Vec<u8>)
    ensures
        final(out)@ == old(out)@ + lit_do_line(),
{
    let bytes = [0x64u8, 0x6F, 0x0A];
    assert(bytes@ =~= lit_do_line());
    append(out, &bytes);
}

/// The bytes of `local __spider_match_selector = `.
pub open spec fn lit_selector_local() -> Seq<u8> {
    seq![0x6Cu8, 0x6F, 0x63, 0x61, 0x6C, 0x20, 0x5F, 0x5F, 0x73, 0x70, 0x69, 0x64, 0x65, 0x72, 0x5F, 0x6D, 0x61, 0x74, 0x63, 0x68, 0x5F, 0x73, 0x65, 0x6C, 0x65, 0x63, 0x74, 0x6F, 0x72, 0x20, 0x3D, 0x20]
}

fn push_selector_local(out: &mut Vec<u8>)
    ensures
        final(out)@ == old(out)@ + lit_selector_local(),
{
    let bytes = [0x6Cu8, 0x6F, 0x63, 0x61, 0x6C, 0x20, 0x5F, 0x5F, 0x73, 0x70, 0x69, 0x64, 0x65, 0x72, 0x5F, 0x6D, 0x61, 0x74, 0x63, 0x68, 0x5F, 0x73, 0x65, 0x6C, 0x65, 0x63, 0x74, 0x6F, 0x72, 0x20, 0x3D, 0x20];
    assert(bytes@ =~= lit_selector_local());
    append(out, &bytes);
}

/// The bytes of `if __spider_match_selector < 0 or __spider_match_selector >= `.
pub open spec fn lit_selector_outside() -> Seq<u8> {
    seq![0x69u8, 0x66, 0x20, 0x5F, 0x5F, 0x73, 0x70, 0x69, 0x64, 0x65, 0x72, 0x5F, 0x6D, 0x61, 0x74, 0x63, 0x68, 0x5F, 0x73, 0x65, 0x6C, 0x65, 0x63, 0x74, 0x6F, 0x72, 0x20, 0x3C, 0x20, 0x30, 0x20, 0x6F, 0x72, 0x20, 0x5F, 0x5F, 0x73, 0x70, 0x69, 0x64, 0x65, 0x72, 0x5F, 0x6D, 0x61, 0x74, 0x63, 0x68, 0x5F, 0x73, 0x65, 0x6C, 0x65, 0x63, 0x74, 0x6F, 0x72, 0x20, 0x3E, 0x3D, 0x20]
}

fn push_selector_outside(out: &mut Vec<u8>)
    ensures
        final(out)@ == old(out)@ + lit_selector_outside(),
{
    let bytes = [0x69u8, 0x66, 0x20, 0x5F, 0x5F, 0x73, 0x70, 0x69, 0x64, 0x65, 0x72, 0x5F, 0x6D, 0x61, 0x74, 0x63, 0x68, 0x5F, 0x73, 0x65, 0x6C, 0x65, 0x63, 0x74, 0x6F, 0x72, 0x20, 0x3C, 0x20, 0x30, 0x20, 0x6F, 0x72, 0x20, 0x5F, 0x5F, 0x73, 0x70, 0x69, 0x64, 0x65, 0x72, 0x5F, 0x6D, 0x61, 0x74, 0x63, 0x68, 0x5F, 0x73, 0x65, 0x6C, 0x65, 0x63, 0x74, 0x6F, 0x72, 0x20, 0x3E, 0x3D, 0x20];
    assert(bytes@ =~= lit_selector_outside());
    append(out, &bytes);
}

/// The bytes of `if __spider_match_selector >= `.
pub open spec fn lit_selector_from() -> Seq<u8> {
    seq![0x69u8, 0x66, 0x20, 0x5F, 0x5F, 0x73, 0x70, 0x69, 0x64, 0x65, 0x72, 0x5F, 0x6D, 0x61, 0x74, 0x63, 0x68, 0x5F, 0x73, 0x65, 0x6C, 0x65, 0x63, 0x74, 0x6F, 0x72, 0x20, 0x3E, 0x3D, 0x20]
}

fn push_selector_from(out: &mut Vec<u8>)
    ensures
        final(out)@ == old(out)@ + lit_selector_from(),
{
    let bytes = [0x69u8, 0x66, 0x20, 0x5F, 0x5F, 0x73, 0x70, 0x69, 0x64, 0x65, 0x72, 0x5F, 0x6D, 0x61, 0x74, 0x63, 0x68, 0x5F, 0x73, 0x65, 0x6C, 0x65, 0x63, 0x74, 0x6F, 0x72, 0x20, 0x3E, 0x3D, 0x20];
    assert(bytes@ =~= lit_selector_from());
    append(out, &bytes);
}

/// The bytes of ` and __spider_match_selector < `.
pub open spec fn lit_selector_below() -> Seq<u8> {
    seq![0x20u8, 0x61, 0x6E, 0x64, 0x20, 0x5F, 0x5F, 0x73, 0x70, 0x69, 0x64, 0x65, 0x72, 0x5F, 0x6D, 0x61, 0x74, 0x63, 0x68, 0x5F, 0x73, 0x65, 0x6C, 0x65, 0x63, 0x74, 0x6F, 0x72, 0x20, 0x3C, 0x20]
}

fn push_selector_below(out: &mut Vec<u8>)
    ensures
        final(out)@ == old(out)@ + lit_selector_below(),
{
    let bytes = [0x20u8, 0x61, 0x6E, 0x64, 0x20, 0x5F, 0x5F, 0x73, 0x70, 0x69, 0x64, 0x65, 0x72, 0x5F, 0x6D, 0x61, 0x74, 0x63, 0x68, 0x5F, 0x73, 0x65, 0x6C, 0x65, 0x63, 0x74, 0x6F, 0x72, 0x20, 0x3C, 0x20];
    assert(bytes@ =~= lit_selector_below());
    append(out, &bytes);
}

/// The bytes of `__spider_match_selector`.
pub open spec fn lit_selector() -> Seq<u8> {
    seq![0x5Fu8, 0x5F, 0x73, 0x70, 0x69, 0x64, 0x65, 0x72, 0x5F, 0x6D, 0x61, 0x74, 0x63, 0x68, 0x5F, 0x73, 0x65, 0x6C, 0x65, 0x63, 0x74, 0x6F, 0x72]
}

fn push_selector_name(out: &mut Vec<u8>)
    ensures
        final(out)@ == old(out)@ + lit_selector(),
{
    let bytes = [0x5Fu8, 0x5F, 0x73, 0x70, 0x69, 0x64, 0x65, 0x72, 0x5F, 0x6D, 0x61, 0x74, 0x63, 0x68, 0x5F, 0x73, 0x65, 0x6C, 0x65, 0x63, 0x74, 0x6F, 0x72];
    assert(bytes@ =~= lit_selector());
    append(out, &bytes);
}

/// The bytes of `if `.
pub open spec fn lit_if_word() -> Seq<u8> {
    seq![0x69u8, 0x66, 0x20]
}

fn push_if_word(out: &mut Vec<u8>)
    ensures
        final(out)@ == old(out)@ + lit_if_word(),
{
    let bytes = [0x69u8, 0x66, 0x20];
    assert(bytes@ =~= lit_if_word());
    append(out, &bytes);
}

/// The bytes of `if not (`.
pub open spec fn lit_if_not() -> Seq<u8> {
    seq![0x69u8, 0x66, 0x20, 0x6E, 0x6F, 0x74, 0x20, 0x28]
}

fn push_if_not(out: &mut Vec<u8>)
    ensures
        final(out)@ == old(out)@ + lit_if_not(),
{
    let bytes = [0x69u8, 0x66, 0x20, 0x6E, 0x6F, 0x74, 0x20, 0x28];
    assert(bytes@ =~= lit_if_not());
    append(out, &bytes);
}

/// The bytes of `) then\n`.
pub open spec fn lit_paren_then() -> Seq<u8> {
    seq![0x29u8, 0x20, 0x74, 0x68, 0x65, 0x6E, 0x0A]
}

fn push_paren_then(out: &mut Vec<u8>)
    ensures
        final(out)@ == old(out)@ + lit_paren_then(),
{
    let bytes = [0x29u8, 0x20, 0x74, 0x68, 0x65, 0x6E, 0x0A];
    assert(bytes@ =~= lit_paren_then());
    append(out, &bytes);
}

/// The largest number of arms one dispatch statement of a match holds:
/// LuaJIT encodes jump offsets in sixteen bits, so one control structure may
/// only reach across about thirty two thousand instructions, and a larger
/// match is split into groups that each dispatch their own range.
pub const MAX_GROUPED_BRANCHES: usize = 512;

/// A piece of the text of a conditional statement.
pub enum Piece {
    /// Text to print as it is.
    Text(Vec<u8>),
    /// The condition, printed at the given depth.
    Condition(u16),
    /// The statements of the branch at the given position, printed at the
    /// given depth.
    Branch(usize, u16),
}

/// A piece by its kind (text, condition or branch), its text, its branch and
/// its depth.
pub open spec fn piece_view(piece: Piece) -> (int, Seq<u8>, int, u16) {
    match piece {
        Piece::Text(text) => (0, text@, 0, 0),
        Piece::Condition(depth) => (1, Seq::empty(), 0, depth),
        Piece::Branch(branch, depth) => (2, Seq::empty(), branch as int, depth),
    }
}

/// The views of the pieces of a conditional.
pub open spec fn plan_view(pieces: Seq<Piece>) -> Seq<(int, Seq<u8>, int, u16)> {
    pieces.map_values(|piece: Piece| piece_view(piece))
}

/// A piece of text.
pub open spec fn text_piece(text: Seq<u8>) -> (int, Seq<u8>, int, u16) {
    (0, text, 0, 0)
}

/// The condition, printed at `depth`.
pub open spec fn condition_piece(depth: u16) -> (int, Seq<u8>, int, u16) {
    (1, Seq::empty(), 0, depth)
}

/// Branch `branch`, printed at `depth`.
pub open spec fn branch_piece(branch: int, depth: u16) -> (int, Seq<u8>, int, u16) {
    (2, Seq::empty(), branch, depth)
}

/// What a dispatch compares: the condition again, or in a grouped match the
/// local holding it.
pub open spec fn selector_piece(grouped: bool, depth: u16) -> (int, Seq<u8>, int, u16) {
    if grouped {
        text_piece(lit_selector())
    } else {
        condition_piece(depth)
    }
}

/// The dispatch to the branches from `start` to `end`: a binary search that
/// tests whether the selector is below or above the middle branch.
pub open spec fn dispatch_plan(grouped: bool, start: int, end: int, depth: u16) -> Seq<(int, Seq<u8>, int, u16)>
    decreases end - start,
{
    let center = start + (end - start) / 2;
    if start < center && center < end {
        let inner = deeper(depth);
        let lower = seq![
            text_piece(tabs(depth as nat) + lit_if_paren()),
            selector_piece(grouped, depth),
            text_piece(lit_less_than() + decimal(center as nat) + lit_then_line()),
        ] + dispatch_plan(grouped, start, center, inner) + seq![text_piece(tabs(depth as nat) + lit_else_word())];
        let upper = if end != center + 1 {
            seq![
                text_piece(lit_if_paren()),
                selector_piece(grouped, depth),
                text_piece(lit_greater_than() + decimal(center as nat) + lit_then_line()),
            ] + dispatch_plan(grouped, center + 1, end, inner) + seq![text_piece(tabs(depth as nat) + lit_else_word())]
        } else {
            Seq::empty()
        };
        lower + upper + seq![
            text_piece(lit_newline()),
            branch_piece(center, inner),
            text_piece(tabs(depth as nat) + lit_end_line()),
        ]
    } else {
        seq![branch_piece(center, depth)]
    }
}

/// The end of the group of a grouped match that starts at `start`.
pub open spec fn group_end(start: int, len: int) -> int {
    if start + MAX_GROUPED_BRANCHES < len {
        start + MAX_GROUPED_BRANCHES
    } else {
        len
    }
}

/// The groups of a grouped match from `start` on: each tests that the
/// selector falls in its range and dispatches it.
pub open spec fn groups_plan(start: int, len: int, depth: u16) -> Seq<(int, Seq<u8>, int, u16)>
    decreases len - start,
{
    if start < 0 || start >= len {
        Seq::empty()
    } else {
        let end = group_end(start, len);
        seq![
            text_piece(
                tabs(depth as nat) + lit_selector_from() + decimal(start as nat) + lit_selector_below() + decimal(
                    end as nat,
                ) + lit_then_line(),
            ),
        ] + dispatch_plan(true, start, end, deeper(depth)) + seq![text_piece(tabs(depth as nat) + lit_end_line())]
            + groups_plan(end, len, depth)
    }
}

/// The pieces of a match statement with `branches` at `depth`: the last
/// branch is taken when the condition is out of range. Two branches make an
/// `if`, which leaves out an empty branch; more than
/// [`MAX_GROUPED_BRANCHES`] other branches are evaluated once into a local
/// and dispatched group by group.
pub open spec fn match_plan(depth: u16, branches: Seq<Sequence>) -> Seq<(int, Seq<u8>, int, u16)> {
    let d1 = deeper(depth);
    let d2 = deeper(d1);
    let len = branches.len() - 1;
    if branches.len() == 2 {
        if branches[0].list@.len() == 0 {
            seq![
                text_piece(tabs(depth as nat) + lit_if_word()),
                condition_piece(depth),
                text_piece(lit_then_line()),
                branch_piece(1, d1),
                text_piece(tabs(depth as nat) + lit_end_line()),
            ]
        } else if branches[1].list@.len() == 0 {
            seq![
                text_piece(tabs(depth as nat) + lit_if_not()),
                condition_piece(depth),
                text_piece(lit_paren_then()),
                branch_piece(0, d1),
                text_piece(tabs(depth as nat) + lit_end_line()),
            ]
        } else {
            seq![
                text_piece(tabs(depth as nat) + lit_if_word()),
                condition_piece(depth),
                text_piece(lit_then_line()),
                branch_piece(1, d1),
                text_piece(tabs(depth as nat) + lit_else_line()),
                branch_piece(0, d1),
                text_piece(tabs(depth as nat) + lit_end_line()),
            ]
        }
    } else if len > MAX_GROUPED_BRANCHES {
        seq![
            text_piece(tabs(depth as nat) + lit_do_line()),
            text_piece(tabs(d1 as nat) + lit_selector_local()),
            condition_piece(d1),
            text_piece(lit_newline()),
            text_piece(tabs(d1 as nat) + lit_selector_outside() + decimal(len as nat) + lit_then_line()),
            branch_piece(len, d2),
            text_piece(tabs(d1 as nat) + lit_end_line()),
        ] + groups_plan(0, len, d1) + seq![text_piece(tabs(depth as nat) + lit_end_line())]
    } else {
        seq![
            text_piece(tabs(depth as nat) + lit_if_paren()),
            condition_piece(depth),
            text_piece(lit_at_least_zero()),
            condition_piece(depth),
            text_piece(lit_less_than() + decimal(len as nat) + lit_then_line()),
        ] + dispatch_plan(false, 0, len, d1) + seq![
            text_piece(tabs(depth as nat) + lit_else_line()),
            branch_piece(len, d1),
            text_piece(tabs(depth as nat) + lit_end_line()),
        ]
    }
}

fn tabs_of(depth: u16) -> (text: Vec<u8>)
    ensures
        text@ == tabs(depth as nat),
{
    let mut text: Vec<u8> = Vec::new();
    let mut i: u16 = 0;
    while i < depth
        invariant
            i <= depth,
            text@ == tabs(i as nat),
        decreases depth - i,
    {
        text.push(0x09u8);
        i = i + 1;
        assert(text@ =~= tabs(i as nat));
    }
    text
}

fn deeper_of(depth: u16) -> (inner: u16)
    ensures
        inner == deeper(depth),
{
    if depth == u16::MAX {
        0
    } else {
        depth + 1
    }
}

fn push_piece(plan: &mut Vec<Piece>, piece: Piece)
    ensures
        plan_view(final(plan)@) == plan_view(old(plan)@) + seq![piece_view(piece)],
{
    plan.push(piece);
    assert(plan_view(plan@) =~= plan_view(old(plan)@) + seq![piece_view(piece)]);
}

fn push_selector(plan: &mut Vec<Piece>, grouped: bool, depth: u16)
    ensures
        plan_view(final(plan)@) == plan_view(old(plan)@) + seq![selector_piece(grouped, depth)],
{
    if grouped {
        let mut text: Vec<u8> = Vec::new();
        push_selector_text(&mut text);
        push_piece(plan, Piece::Text(text));
    } else {
        push_piece(plan, Piece::Condition(depth));
    }
}

fn push_selector_text(out: &mut Vec<u8>)
    ensures
        final(out)@ == old(out)@ + lit_selector(),
{
    push_selector_name(out);
}

/// Appends the dispatch to the branches from `start` to `end`.
#[verifier::rlimit(60)]
fn push_dispatch(plan: &mut Vec<Piece>, grouped: bool, start: usize, end: usize, depth: u16)
    requires
        start <= end,
    ensures
        plan_view(final(plan)@) == plan_view(old(plan)@) + dispatch_plan(grouped, start as int, end as int, depth),
    decreases end - start,
{
    let center = start + (end - start) / 2;
    if start != center {
        let inner = deeper_of(depth);
        let ghost before = plan_view(plan@);
        let mut text = tabs_of(depth);
        push_if_paren(&mut text);
        push_piece(plan, Piece::Text(text));
        push_selector(plan, grouped, depth);
        let mut text: Vec<u8> = Vec::new();
        push_less_than(&mut text);
        let digits = decimal_text(center as u64);
        append(&mut text, digits.as_slice());
        push_then_line(&mut text);
        push_piece(plan, Piece::Text(text));
        push_dispatch(plan, grouped, start, center, inner);
        let mut text = tabs_of(depth);
        push_else_word(&mut text);
        push_piece(plan, Piece::Text(text));
        let ghost lower = plan_view(plan@);
        if end != center + 1 {
            let mut text: Vec<u8> = Vec::new();
            push_if_paren(&mut text);
            push_piece(plan, Piece::Text(text));
            push_selector(plan, grouped, depth);
            let mut text: Vec<u8> = Vec::new();
            push_greater_than(&mut text);
            append(&mut text, digits.as_slice());
            push_then_line(&mut text);
            push_piece(plan, Piece::Text(text));
            push_dispatch(plan, grouped, center + 1, end, inner);
            let mut text = tabs_of(depth);
            push_else_word(&mut text);
            push_piece(plan, Piece::Text(text));
        }
        let ghost upper = plan_view(plan@);
        let mut text: Vec<u8> = Vec::new();
        push_newline(&mut text);
        push_piece(plan, Piece::Text(text));
        push_piece(plan, Piece::Branch(center, inner));
        let mut text = tabs_of(depth);
        push_end_line(&mut text);
        push_piece(plan, Piece::Text(text));
        proof {
            let c = center as int;
            let l = seq![
                text_piece(tabs(depth as nat) + lit_if_paren()),
                selector_piece(grouped, depth),
                text_piece(lit_less_than() + decimal(c as nat) + lit_then_line()),
            ] + dispatch_plan(grouped, start as int, c, inner) + seq![text_piece(tabs(depth as nat) + lit_else_word())];
            assert(lower =~= before + l);
            let u = if end != center + 1 {
                seq![
                    text_piece(lit_if_paren()),
                    selector_piece(grouped, depth),
                    text_piece(lit_greater_than() + decimal(c as nat) + lit_then_line()),
                ] + dispatch_plan(grouped, c + 1, end as int, inner) + seq![text_piece(tabs(depth as nat) + lit_else_word())]
            } else {
                Seq::empty()
            };
            assert(upper =~= lower + u);
            assert(plan_view(plan@) =~= before + dispatch_plan(grouped, start as int, end as int, depth));
        }
    } else {
        push_piece(plan, Piece::Branch(center, depth));
    }
}

/// Appends the groups of a grouped match from `start` on.
fn push_groups(plan: &mut Vec<Piece>, start: usize, len: usize, depth: u16)
    requires
        start <= len,
    ensures
        plan_view(final(plan)@) == plan_view(old(plan)@) + groups_plan(start as int, len as int, depth),
    decreases len - start,
{
    if start >= len {
        assert(groups_plan(start as int, len as int, depth) =~= Seq::empty());
        assert(plan_view(plan@) =~= plan_view(old(plan)@) + Seq::empty());
        return;
    }
    let end = if len - start > MAX_GROUPED_BRANCHES {
        start + MAX_GROUPED_BRANCHES
    } else {
        len
    };
    let ghost before = plan_view(plan@);
    let mut text = tabs_of(depth);
    push_selector_from(&mut text);
    let digits = decimal_text(start as u64);
    append(&mut text, digits.as_slice());
    push_selector_below(&mut text);
    let digits = decimal_text(end as u64);
    append(&mut text, digits.as_slice());
    push_then_line(&mut text);
    push_piece(plan, Piece::Text(text));
    push_dispatch(plan, true, start, end, deeper_of(depth));
    let mut text = tabs_of(depth);
    push_end_line(&mut text);
    push_piece(plan, Piece::Text(text));
    push_groups(plan, end, len, depth);
    proof {
        assert(group_end(start as int, len as int) == end);
        assert(plan_view(plan@) =~= before + groups_plan(start as int, len as int, depth));
    }
}

impl LuaNoFFIPrinter {
    /// The pieces of a match statement at the current depth, in order: its
    /// text, and where its condition and each of its branches are printed.
    pub fn plan_match(&self, statement: &Match) -> (plan: Vec<Piece>)
        requires
            statement.branches@.len() >= 1,
        ensures
            plan_view(plan@) == match_plan(self.depth(), statement.branches@),
    {
        let depth = self.depth;
        let d1 = deeper_of(depth);
        let d2 = deeper_of(d1);
        let count = statement.branches.len();
        let len = count - 1;
        let mut plan: Vec<Piece> = Vec::new();
        if count == 2 {
            let false_empty = statement.branches[0].list.len() == 0;
            let true_empty = statement.branches[1].list.len() == 0;
            if false_empty {
                let mut text = tabs_of(depth);
                push_if_word(&mut text);
                push_piece(&mut plan, Piece::Text(text));
                push_piece(&mut plan, Piece::Condition(depth));
                let mut text: Vec<u8> = Vec::new();
                push_then_line(&mut text);
                push_piece(&mut plan, Piece::Text(text));
                push_piece(&mut plan, Piece::Branch(1, d1));
            } else if true_empty {
                let mut text = tabs_of(depth);
                push_if_not(&mut text);
                push_piece(&mut plan, Piece::Text(text));
                push_piece(&mut plan, Piece::Condition(depth));
                let mut text: Vec<u8> = Vec::new();
                push_paren_then(&mut text);
                push_piece(&mut plan, Piece::Text(text));
                push_piece(&mut plan, Piece::Branch(0, d1));
            } else {
                let mut text = tabs_of(depth);
                push_if_word(&mut text);
                push_piece(&mut plan, Piece::Text(text));
                push_piece(&mut plan, Piece::Condition(depth));
                let mut text: Vec<u8> = Vec::new();
                push_then_line(&mut text);
                push_piece(&mut plan, Piece::Text(text));
                push_piece(&mut plan, Piece::Branch(1, d1));
                let mut text = tabs_of(depth);
                push_else_line(&mut text);
                push_piece(&mut plan, Piece::Text(text));
                push_piece(&mut plan, Piece::Branch(0, d1));
            }
            let mut text = tabs_of(depth);
            push_end_line(&mut text);
            push_piece(&mut plan, Piece::Text(text));
            proof {
                assert(plan_view(plan@) =~= match_plan(depth, statement.branches@));
            }
        } else if len > MAX_GROUPED_BRANCHES {
            let mut text = tabs_of(depth);
            push_do_line(&mut text);
            push_piece(&mut plan, Piece::Text(text));
            let mut text = tabs_of(d1);
            push_selector_local(&mut text);
            push_piece(&mut plan, Piece::Text(text));
            push_piece(&mut plan, Piece::Condition(d1));
            let mut text: Vec<u8> = Vec::new();
            push_newline(&mut text);
            push_piece(&mut plan, Piece::Text(text));
            let mut text = tabs_of(d1);
            push_selector_outside(&mut text);
            let digits = decimal_text(len as u64);
            append(&mut text, digits.as_slice());
            push_then_line(&mut text);
            push_piece(&mut plan, Piece::Text(text));
            push_piece(&mut plan, Piece::Branch(len, d2));
            let mut text = tabs_of(d1);
            push_end_line(&mut text);
            push_piece(&mut plan, Piece::Text(text));
            let ghost head = plan_view(plan@);
            push_groups(&mut plan, 0, len, d1);
            let mut text = tabs_of(depth);
            push_end_line(&mut text);
            push_piece(&mut plan, Piece::Text(text));
            proof {
                assert(plan_view(plan@) =~= match_plan(depth, statement.branches@));
            }
        } else {
            let mut text = tabs_of(depth);
            push_if_paren(&mut text);
            push_piece(&mut plan, Piece::Text(text));
            push_piece(&mut plan, Piece::Condition(depth));
            let mut text: Vec<u8> = Vec::new();
            push_at_least_zero(&mut text);
            push_piece(&mut plan, Piece::Text(text));
            push_piece(&mut plan, Piece::Condition(depth));
            let mut text: Vec<u8> = Vec::new();
            push_less_than(&mut text);
            let digits = decimal_text(len as u64);
            append(&mut text, digits.as_slice());
            push_then_line(&mut text);
            push_piece(&mut plan, Piece::Text(text));
            push_dispatch(&mut plan, false, 0, len, d1);
            let mut text = tabs_of(depth);
            push_else_line(&mut text);
            push_piece(&mut plan, Piece::Text(text));
            push_piece(&mut plan, Piece::Branch(len, d1));
            let mut text = tabs_of(depth);
            push_end_line(&mut text);
            push_piece(&mut plan, Piece::Text(text));
            proof {
                assert(plan_view(plan@) =~= match_plan(depth, statement.branches@));
            }
        }
        plan
    }
}

} // verus!
