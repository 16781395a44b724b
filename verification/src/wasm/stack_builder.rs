//! The registers and jumps that the stack of a WebAssembly function is
//! lowered to.

use vstd::prelude::*;

use crate::wasm::types::{BlockKind, Signature, Types};

verus! {

/// The register shared by every level for passing a branch condition.
pub const SHARED_LOCAL: u16 = 3;

/// The first register that holds a stack slot, after the named registers.
pub const LOCAL_BASE: u16 = 4;

/// A jump to the end of a level: the stack height it leaves, the register of
/// the first value it carries and the branch it takes.
#[derive(Clone, Copy, Debug)]
pub struct Jump {
    /// The stack height at the jump.
    pub stack: u16,
    /// The first register carried by the jump.
    pub source: u16,
    /// The branch taken.
    pub branch: u16,
}

/// A level of nested control: the numbers of values it takes and gives, the
/// stack height below its values, the register its condition goes to, if
/// any, and the jumps to its end.
pub struct Level {
    /// The number of values the level takes.
    pub parameters: u16,
    /// The number of values the level gives.
    pub results: u16,
    /// The stack height below the level's values.
    pub base: u16,
    /// The register the level's condition goes to, if any.
    pub destination: Option<u16>,
    /// The jumps to the end of the level.
    pub jumps: Vec<Jump>,
}

/// The number of values a block of kind `block` takes, in a module of type
/// definitions `definitions`.
pub open spec fn parameter_count(definitions: Seq<Option<Signature>>, block: BlockKind) -> int {
    match block {
        BlockKind::FuncType(kind) => definitions[kind as int]->0.parameters@.len() as int,
        _ => 0,
    }
}

/// The number of values a block of kind `block` gives.
pub open spec fn result_count(definitions: Seq<Option<Signature>>, block: BlockKind) -> int {
    match block {
        BlockKind::Empty => 0,
        BlockKind::Type => 1,
        BlockKind::FuncType(kind) => definitions[kind as int]->0.results@.len() as int,
    }
}

/// Whether a block of kind `block` is typed by a function type of
/// `definitions` with at most `u16::MAX` parameters and results, when by any.
pub open spec fn block_fits(definitions: Seq<Option<Signature>>, block: BlockKind) -> bool {
    &&& block matches BlockKind::FuncType(kind) ==> kind < definitions.len() && definitions[kind as int] is Some
    &&& parameter_count(definitions, block) <= u16::MAX
    &&& result_count(definitions, block) <= u16::MAX
}

/// The operand stack of a function lowered to registers: the nested levels
/// of control, and the height of the stack.
pub struct StackBuilder {
    levels: Vec<Level>,
    top: u16,
}

impl StackBuilder {
    /// The nested levels, outermost first.
    pub closed spec fn levels(&self) -> Seq<Level> {
        self.levels@
    }

    /// The height of the stack: the register above its top value.
    pub closed spec fn top(&self) -> u16 {
        self.top
    }

    /// Creates a builder with no level and an empty stack.
    pub fn new() -> (builder: Self)
        ensures
            builder.levels() == Seq::<Level>::empty(),
            builder.top() == 0,
    {
        StackBuilder { levels: Vec::new(), top: 0 }
    }

    /// Starts a function of kind `function_type` with `locals` locals: its
    /// arguments and locals take the registers after the named ones, and its
    /// body is the outermost level.
    pub fn set_function_data(&mut self, types: &Types, function_type: BlockKind, locals: u16)
        requires
            block_fits(types.definitions(), function_type),
            LOCAL_BASE + parameter_count(types.definitions(), function_type) + locals <= u16::MAX,
        ensures
            final(self).levels() == old(self).levels().push(
                Level {
                    parameters: parameter_count(types.definitions(), function_type) as u16,
                    results: result_count(types.definitions(), function_type) as u16,
                    base: LOCAL_BASE,
                    destination: None,
                    jumps: final(self).levels().last().jumps,
                },
            ),
            final(self).levels().last().jumps@ == Seq::<Jump>::empty(),
            final(self).top() == LOCAL_BASE + parameter_count(types.definitions(), function_type) + locals,
    {
        let parameters = types.get_parameter_count(function_type) as u16;
        let results = types.get_result_count(function_type) as u16;
        self.top = LOCAL_BASE;
        self.levels.push(Level { parameters, results, base: self.top, destination: None, jumps: Vec::new() });
        self.top = self.top + parameters + locals;
    }

    /// Opens a level of kind `block_type` that takes its values from the top
    /// of the stack, and whose condition, if any, goes to `destination`.
    ///
    /// The stack is polymorphic in unreachable code, so the level's base may
    /// run below the stack; it wraps around rather than failing.
    pub fn push_level(&mut self, types: &Types, block_type: BlockKind, destination: Option<u16>)
        requires
            block_fits(types.definitions(), block_type),
        ensures
            final(self).levels() == old(self).levels().push(
                Level {
                    parameters: parameter_count(types.definitions(), block_type) as u16,
                    results: result_count(types.definitions(), block_type) as u16,
                    base: vstd::wrapping::u16_specs::wrapping_sub(
                        old(self).top(),
                        parameter_count(types.definitions(), block_type) as u16,
                    ),
                    destination,
                    jumps: final(self).levels().last().jumps,
                },
            ),
            final(self).levels().last().jumps@ == Seq::<Jump>::empty(),
            final(self).top() == old(self).top(),
    {
        let parameters = types.get_parameter_count(block_type) as u16;
        let results = types.get_result_count(block_type) as u16;
        let base = self.top.wrapping_sub(parameters);
        self.levels.push(Level { parameters, results, base, destination, jumps: Vec::new() });
    }

    /// Closes the innermost level and returns it; the stack then holds the
    /// level's results above its base.
    pub fn pull_level(&mut self) -> (level: Level)
        requires
            old(self).levels().len() > 0,
        ensures
            level == old(self).levels().last(),
            final(self).levels() == old(self).levels().drop_last(),
            final(self).top() == vstd::wrapping::u16_specs::wrapping_add(level.base, level.results),
    {
        let level = self.levels.pop().unwrap();
        self.top = level.base.wrapping_add(level.results);
        level
    }

    /// The innermost level, to change.
    pub fn peek_level_mut(&mut self) -> (level: &mut Level)
        requires
            old(self).levels().len() > 0,
        ensures
            *level == old(self).levels().last(),
            final(self).levels() == old(self).levels().update(old(self).levels().len() - 1, *final(level)),
            final(self).top() == old(self).top(),
    {
        let last = self.levels.len() - 1;
        &mut self.levels[last]
    }

    /// Pushes `count` values and returns the registers from the first to
    /// after the last.
    fn push_locals(&mut self, count: u16) -> (registers: (u16, u16))
        ensures
            registers == (old(self).top(), vstd::wrapping::u16_specs::wrapping_add(old(self).top(), count)),
            final(self).top() == registers.1,
            final(self).levels() == old(self).levels(),
    {
        let top = self.top;
        self.top = top.wrapping_add(count);
        (top, self.top)
    }

    /// Pushes a value and returns its register.
    pub fn push_local(&mut self) -> (register: u16)
        ensures
            register == old(self).top(),
            final(self).top() == vstd::wrapping::u16_specs::wrapping_add(old(self).top(), 1),
            final(self).levels() == old(self).levels(),
    {
        self.push_locals(1).0
    }

    /// Pulls `count` values and returns the registers from the first to
    /// after the last.
    fn pull_locals(&mut self, count: u16) -> (registers: (u16, u16))
        ensures
            registers == (vstd::wrapping::u16_specs::wrapping_sub(old(self).top(), count), old(self).top()),
            final(self).top() == registers.0,
            final(self).levels() == old(self).levels(),
    {
        let top = self.top;
        self.top = top.wrapping_sub(count);
        (self.top, top)
    }

    /// Pulls a value and returns its register.
    pub fn pull_local(&mut self) -> (register: u16)
        ensures
            register == vstd::wrapping::u16_specs::wrapping_sub(old(self).top(), 1),
            final(self).top() == register,
            final(self).levels() == old(self).levels(),
    {
        self.pull_locals(1).0
    }

    /// Pulls the arguments of a call of signature `kind` and pushes its
    /// results; returns the registers of the results, then of the arguments,
    /// each from the first to after the last.
    pub fn load_function_type(&mut self, kind: &Signature) -> (registers: ((u16, u16), (u16, u16)))
        requires
            kind.parameters@.len() <= u16::MAX,
            kind.results@.len() <= u16::MAX,
        ensures
            ({
                let below = vstd::wrapping::u16_specs::wrapping_sub(old(self).top(), kind.parameters@.len() as u16);
                let above = vstd::wrapping::u16_specs::wrapping_add(below, kind.results@.len() as u16);
                &&& registers == ((below, above), (below, old(self).top()))
                &&& final(self).top() == above
            }),
            final(self).levels() == old(self).levels(),
    {
        let sources = self.pull_locals(kind.parameters.len() as u16);
        let destinations = self.push_locals(kind.results.len() as u16);
        (destinations, sources)
    }

    /// The height of the stack.
    pub fn get_top(&self) -> (top: u16)
        ensures
            top == self.top(),
    {
        self.top
    }

    /// Sets the height of the stack.
    pub fn set_top(&mut self, top: u16)
        ensures
            final(self).top() == top,
            final(self).levels() == old(self).levels(),
    {
        self.top = top;
    }

    /// Records a jump from register `source` along branch `branch` to the
    /// end of level `destination`, counting from the outermost.
    pub fn jump_to_level(&mut self, source: u16, branch: usize, destination: usize)
        requires
            branch <= u16::MAX,
            destination < old(self).levels().len(),
        ensures
            final(self).top() == old(self).top(),
            final(self).levels().len() == old(self).levels().len(),
            forall|i: int| 0 <= i < old(self).levels().len() && i != destination ==> #[trigger] final(self).levels()[i]
                == old(self).levels()[i],
            ({
                let before = old(self).levels()[destination as int];
                let after = final(self).levels()[destination as int];
                &&& after.parameters == before.parameters
                &&& after.results == before.results
                &&& after.base == before.base
                &&& after.destination == before.destination
                &&& after.jumps@ == before.jumps@.push(Jump { stack: old(self).top(), source, branch: branch as u16 })
            }),
    {
        let jump = Jump { stack: self.top, source, branch: branch as u16 };
        self.levels[destination].jumps.push(jump);
    }

    /// Records a jump from register `source` along branch `branch` to the
    /// end of the level `depth` levels out from the innermost.
    pub fn jump_to_depth(&mut self, source: u16, branch: usize, depth: u32)
        requires
            branch <= u16::MAX,
            depth < old(self).levels().len(),
        ensures
            final(self).top() == old(self).top(),
            final(self).levels().len() == old(self).levels().len(),
            ({
                let destination = old(self).levels().len() - depth - 1;
                &&& forall|i: int| 0 <= i < old(self).levels().len() && i != destination ==> #[trigger] final(self).levels()[i]
                    == old(self).levels()[i]
                &&& final(self).levels()[destination].jumps@ == old(self).levels()[destination].jumps@.push(
                    Jump { stack: old(self).top(), source, branch: branch as u16 },
                )
                &&& final(self).levels()[destination].base == old(self).levels()[destination].base
                &&& final(self).levels()[destination].results == old(self).levels()[destination].results
            }),
    {
        let depth = depth as usize;
        let destination = self.levels.len() - depth - 1;
        self.jump_to_level(source, branch, destination);
    }
}

} // verus!
