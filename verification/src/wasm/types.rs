//! Structural keys of WebAssembly function types.

use vstd::prelude::*;

verus! {

/// Whether `character` may stay in a type key: an ASCII letter or digit, or
/// one of `,`, `-`, `>`, `.` and `_`.
pub open spec fn key_safe(character: char) -> bool {
    ('a' <= character && character <= 'z') || ('A' <= character && character <= 'Z') || ('0'
        <= character && character <= '9') || character == ',' || character == '-' || character
        == '>' || character == '.' || character == '_'
}

/// Keeps only the characters that are safe inside a generated string literal.
///
/// The textual form of a reference type may contain quotes or other
/// delimiters, and the key only has to stay structural rather than readable,
/// so anything else is folded into an underscore.
pub fn sanitize(character: char) -> (safe: char)
    ensures
        safe == (if key_safe(character) {
            character
        } else {
            '_'
        }),
{
    if ('a' <= character && character <= 'z') || ('A' <= character && character <= 'Z') || ('0'
        <= character && character <= '9') || character == ',' || character == '-' || character
        == '>' || character == '.' || character == '_' {
        character
    } else {
        '_'
    }
}

/// Names in `names`, separated by commas.
pub open spec fn joined(names: Seq<Seq<char>>) -> Seq<char>
    decreases names.len(),
{
    if names.len() == 0 {
        Seq::empty()
    } else if names.len() == 1 {
        names[0]
    } else {
        joined(names.drop_last()) + seq![','] + names.last()
    }
}

/// `text` with every character that is not safe in a key folded to `_`.
pub open spec fn sanitized(text: Seq<char>) -> Seq<char> {
    text.map_values(|character: char| if key_safe(character) { character } else { '_' })
}

/// The structural key of a function type whose parameters and results have
/// the text forms `parameters` and `results`: the parameters separated by
/// commas, an arrow, and the results separated by commas, each character
/// made safe.
pub open spec fn function_key(parameters: Seq<Seq<char>>, results: Seq<Seq<char>>) -> Seq<char> {
    sanitized(joined(parameters) + seq!['-', '>'] + joined(results))
}

/// The text forms of the value types in `names`.
pub open spec fn texts(names: Seq<Vec<char>>) -> Seq<Seq<char>> {
    names.map_values(|name: Vec<char>| name@)
}

/// The parameter and result types of a function type, each by its text form.
pub struct Signature {
    /// The text form of each parameter type.
    pub parameters: Vec<Vec<char>>,
    /// The text form of each result type.
    pub results: Vec<Vec<char>>,
}

/// The key a type definition is known by: the structural key of a function
/// type, and the empty key for any other type.
pub open spec fn definition_key(definition: Option<Signature>) -> Seq<char> {
    match definition {
        Some(signature) => function_key(texts(signature.parameters@), texts(signature.results@)),
        None => Seq::empty(),
    }
}

/// How a block of code is typed: with no values, with one result, or by the
/// function type at a type index.
#[derive(Clone, Copy, Debug, PartialEq, Eq, Structural)]
pub enum BlockKind {
    /// The block takes and produces no value.
    Empty,
    /// The block produces one value.
    Type,
    /// The block has the function type at this type index.
    FuncType(u32),
}

#[verifier::external_type_specification]
#[verifier::external_body]
pub struct ExSubType(wasmparser::SubType);

#[verifier::external_type_specification]
#[verifier::external_body]
pub struct ExFuncType(wasmparser::FuncType);

#[verifier::external_type_specification]
#[verifier::external_body]
pub struct ExValType(wasmparser::ValType);

/// The signature of each type definition a type section holds, in order
/// across its recursion groups, as `wasmparser` reads the section's bytes
/// (`SectionLimited::new` over a `BinaryReader`, then each `RecGroup` and
/// its `into_types`), each taken by the text forms of its parameter and
/// result types; `None` when the bytes do not read as a type section.
pub uninterp spec fn type_section_signatures(bytes: Seq<u8>) -> Option<Seq<Option<(Seq<Seq<char>>, Seq<Seq<char>>)>>>;

/// The type index of each function a function section holds, in order, as
/// `wasmparser` reads the section's bytes (`SectionLimited::new` over a
/// `BinaryReader`, then each item); `None` when the bytes do not read as a
/// function section.
pub uninterp spec fn function_section_indices(bytes: Seq<u8>) -> Option<Seq<u32>>;

/// A signature by the text forms of its parameter and result types.
pub open spec fn signature_view(definition: Option<Signature>) -> Option<(Seq<Seq<char>>, Seq<Seq<char>>)> {
    match definition {
        Some(signature) => Some((texts(signature.parameters@), texts(signature.results@))),
        None => None,
    }
}

/// The signatures of `definitions`, each by its text forms.
pub open spec fn signature_views(definitions: Seq<Option<Signature>>) -> Seq<
    Option<(Seq<Seq<char>>, Seq<Seq<char>>)>,
> {
    definitions.map_values(|definition: Option<Signature>| signature_view(definition))
}

/// Reads a type section from its bytes with `wasmparser`: the section, its
/// recursion groups and their type definitions, each converted to its
/// signature.
///
/// Trusted: the result is what `type_section_signatures` names for the
/// bytes; reading a section is a function of its bytes alone.
#[verifier::external_body]
fn read_type_section(bytes: &[u8]) -> (signatures: Option<Vec<Option<Signature>>>)
    ensures
        match signatures {
            Some(signatures) => type_section_signatures(bytes@) == Some(signature_views(signatures@)),
            None => type_section_signatures(bytes@) is None,
        },
{
    let reader = wasmparser::BinaryReader::new(bytes, 0);
    let section = wasmparser::SectionLimited::<wasmparser::RecGroup>::new(reader).ok()?;
    let groups = section.into_iter().collect::<Result<Vec<wasmparser::RecGroup>, _>>().ok()?;
    Some(groups.into_iter().flat_map(|group| group.into_types()).map(|definition| signature_of(&definition)).collect())
}

/// Reads a function section from its bytes with `wasmparser`: the type
/// index of each function.
///
/// Trusted: the result is what `function_section_indices` names for the
/// bytes; reading a section is a function of its bytes alone.
#[verifier::external_body]
fn read_function_section(bytes: &[u8]) -> (indices: Option<Vec<u32>>)
    ensures
        match indices {
            Some(indices) => function_section_indices(bytes@) == Some(indices@),
            None => function_section_indices(bytes@) is None,
        },
{
    let reader = wasmparser::BinaryReader::new(bytes, 0);
    let section = wasmparser::SectionLimited::<u32>::new(reader).ok()?;
    section.into_iter().collect::<Result<Vec<u32>, _>>().ok()
}

/// The function type a type definition holds, when it holds one, read from
/// the definition's `composite_type.inner`; nothing is promised of it.
#[verifier::external_body]
fn function_type_of(definition: &wasmparser::SubType) -> Option<&wasmparser::FuncType> {
    match &definition.composite_type.inner {
        wasmparser::CompositeInnerType::Func(kind) => Some(kind),
        _ => None,
    }
}

/// The parameter types of a function type, with
/// `wasmparser::FuncType::params`; nothing is promised of them.
#[verifier::external_body]
fn parameter_types(kind: &wasmparser::FuncType) -> Vec<wasmparser::ValType> {
    kind.params().to_vec()
}

/// The result types of a function type, with
/// `wasmparser::FuncType::results`; nothing is promised of them.
#[verifier::external_body]
fn result_types(kind: &wasmparser::FuncType) -> Vec<wasmparser::ValType> {
    kind.results().to_vec()
}

/// The text form of a value type, as its `Display` impl in `wasmparser`
/// writes it (`i32`, `f64`, `funcref` and so on); nothing is promised of it.
#[verifier::external_body]
fn value_type_text(kind: &wasmparser::ValType) -> Vec<char> {
    kind.to_string().chars().collect()
}

/// Collects characters into a string with `String::from_iter`.
///
/// Trusted: the string holds exactly the characters, in order.
#[verifier::external_body]
fn string_of(characters: &[char]) -> (text: String)
    ensures
        text@ == characters@,
{
    characters.iter().collect()
}

/// Appends the text forms in `names` to `key`, separated by commas.
fn write_value_types(key: &mut Vec<char>, names: &Vec<Vec<char>>)
    ensures
        final(key)@ == old(key)@ + joined(texts(names@)),
{
    let mut index: usize = 0;
    while index < names.len()
        invariant
            index <= names@.len(),
            key@ == old(key)@ + joined(texts(names@.take(index as int))),
        decreases names@.len() - index,
    {
        proof {
            let next = names@.take(index + 1);
            assert(texts(next).drop_last() =~= texts(names@.take(index as int)));
            assert(texts(next).last() == names@[index as int]@);
            if index == 0 {
                assert(texts(names@.take(0)) =~= Seq::<Seq<char>>::empty());
            }
        }
        if index != 0 {
            key.push(',');
        }
        let name = &names[index];
        let mut position: usize = 0;
        let ghost before = key@;
        while position < name.len()
            invariant
                position <= name@.len(),
                key@ == before + name@.take(position as int),
            decreases name@.len() - position,
        {
            key.push(name[position]);
            proof {
                assert(name@.take(position + 1) =~= name@.take(position as int).push(name@[position as int]));
            }
            position = position + 1;
        }
        proof {
            assert(name@.take(position as int) =~= name@);
            let next = names@.take(index + 1);
            if index == 0 {
                assert(texts(next).len() == 1);
                assert(key@ =~= old(key)@ + joined(texts(next)));
            } else {
                assert(key@ =~= old(key)@ + joined(texts(next)));
            }
        }
        index = index + 1;
    }
    proof {
        assert(names@.take(index as int) =~= names@);
    }
}

/// Returns the structural key identifying a function type amongst all
/// function types, given the text forms of its parameter and result types.
///
/// Two function types share a key exactly when their parameters and results
/// read the same, which makes the key usable for the type check of an
/// indirect call, even across modules.
pub fn build_function_key(signature: &Signature) -> (key: String)
    ensures
        key@ == function_key(texts(signature.parameters@), texts(signature.results@)),
{
    let mut text: Vec<char> = Vec::new();
    write_value_types(&mut text, &signature.parameters);
    text.push('-');
    text.push('>');
    write_value_types(&mut text, &signature.results);
    let ghost raw = text@;
    let mut safe: Vec<char> = Vec::new();
    let mut index: usize = 0;
    while index < text.len()
        invariant
            index <= raw.len(),
            text@ == raw,
            safe@ == sanitized(raw.take(index as int)),
        decreases raw.len() - index,
    {
        safe.push(sanitize(text[index]));
        proof {
            assert(sanitized(raw.take(index + 1)) =~= sanitized(raw.take(index as int)).push(sanitize_spec(raw[index as int])));
        }
        index = index + 1;
    }
    proof {
        assert(raw.take(index as int) =~= raw);
        assert(raw =~= joined(texts(signature.parameters@)) + seq!['-', '>'] + joined(texts(signature.results@)));
    }
    string_of(safe.as_slice())
}

/// The character `sanitize` gives for `character`.
pub open spec fn sanitize_spec(character: char) -> char {
    if key_safe(character) {
        character
    } else {
        '_'
    }
}

/// The signature of a type definition, when it is a function type: the text
/// form of each of its parameter and result types.
fn signature_of(definition: &wasmparser::SubType) -> (signature: Option<Signature>) {
    match function_type_of(definition) {
        Some(kind) => {
            let parameters = parameter_types(kind);
            let results = result_types(kind);
            Some(Signature { parameters: value_type_texts(&parameters), results: value_type_texts(&results) })
        },
        None => None,
    }
}

/// The text form of each value type of `kinds`, in order.
fn value_type_texts(kinds: &Vec<wasmparser::ValType>) -> (texts: Vec<Vec<char>>)
    ensures
        texts@.len() == kinds@.len(),
{
    let mut texts: Vec<Vec<char>> = Vec::new();
    let mut index: usize = 0;
    while index < kinds.len()
        invariant
            index <= kinds@.len(),
            texts@.len() == index,
        decreases kinds@.len() - index,
    {
        texts.push(value_type_text(&kinds[index]));
        index = index + 1;
    }
    texts
}

/// Type information of a module: each type definition, the structural key of
/// each, and the type index of each function.
pub struct Types {
    definitions: Vec<Option<Signature>>,
    keys: Vec<String>,
    functions: Vec<u32>,
}

impl Types {
    /// The definition of each type, by type index: its signature when it is
    /// a function type.
    pub closed spec fn definitions(&self) -> Seq<Option<Signature>> {
        self.definitions@
    }

    /// The structural key of each type, by type index.
    pub closed spec fn keys(&self) -> Seq<String> {
        self.keys@
    }

    /// The type index of each function, by function index.
    pub closed spec fn functions(&self) -> Seq<u32> {
        self.functions@
    }

    /// Whether each type definition has its key.
    pub open spec fn well_formed(&self) -> bool {
        &&& self.keys().len() == self.definitions().len()
        &&& forall|i: int| 0 <= i < self.keys().len() ==> #[trigger] self.keys()[i]@ == definition_key(self.definitions()[i])
    }

    /// Creates an empty type collection.
    pub fn new() -> (types: Self)
        ensures
            types.definitions() == Seq::<Option<Signature>>::empty(),
            types.keys() == Seq::<String>::empty(),
            types.functions() == Seq::<u32>::empty(),
            types.well_formed(),
    {
        Types { definitions: Vec::new(), keys: Vec::new(), functions: Vec::new() }
    }

    /// Clears all stored type information.
    pub fn clear(&mut self)
        ensures
            final(self).definitions() == Seq::<Option<Signature>>::empty(),
            final(self).keys() == Seq::<String>::empty(),
            final(self).functions() == Seq::<u32>::empty(),
            final(self).well_formed(),
    {
        self.definitions.clear();
        self.keys.clear();
        self.functions.clear();
    }

    /// Adds the type definitions of the recursion groups of the type section
    /// held in `bytes`, in order, and gives every definition its key.
    pub fn add_sub_types(&mut self, bytes: &[u8])
        requires
            type_section_signatures(bytes@) is Some,
        ensures
            final(self).well_formed(),
            signature_views(final(self).definitions()) == signature_views(old(self).definitions())
                + type_section_signatures(bytes@).unwrap(),
            final(self).definitions().take(old(self).definitions().len() as int) == old(self).definitions(),
            final(self).functions() == old(self).functions(),
    {
        match read_type_section(bytes) {
            Some(mut signatures) => {
                let ghost before = self.definitions@;
                let ghost read = signatures@;
                self.definitions.append(&mut signatures);
                proof {
                    assert(self.definitions@ =~= before + read);
                    assert(signature_views(before + read) =~= signature_views(before) + signature_views(read));
                    assert(self.definitions@.take(before.len() as int) =~= before);
                }
                self.rebuild_keys();
            },
            None => {
                vstd::pervasive::unreached()
            },
        }
    }

    /// Adds the type definitions of the type section held in `bytes`, as
    /// `add_sub_types` does, when the bytes read as one; returns whether
    /// they did, leaving everything as it was when not.
    pub fn try_add_sub_types(&mut self, bytes: &[u8]) -> (read: bool)
        requires
            old(self).well_formed(),
        ensures
            read == type_section_signatures(bytes@) is Some,
            final(self).well_formed(),
            read ==> signature_views(final(self).definitions()) == signature_views(old(self).definitions())
                + type_section_signatures(bytes@).unwrap(),
            !read ==> final(self).definitions() == old(self).definitions(),
            final(self).functions() == old(self).functions(),
    {
        match read_type_section(bytes) {
            Some(_) => {
                self.add_sub_types(bytes);
                true
            },
            None => false,
        }
    }

    /// Gives every type definition its key again.
    fn rebuild_keys(&mut self)
        ensures
            final(self).well_formed(),
            final(self).definitions() == old(self).definitions(),
            final(self).functions() == old(self).functions(),
    {
        self.keys.clear();
        let mut index: usize = 0;
        while index < self.definitions.len()
            invariant
                self.definitions@ == old(self).definitions(),
                self.functions@ == old(self).functions(),
                index <= self.definitions@.len(),
                self.keys@.len() == index,
                forall|i: int| 0 <= i < index ==> #[trigger] self.keys@[i]@ == definition_key(self.definitions@[i]),
            decreases self.definitions@.len() - index,
        {
            let key = match &self.definitions[index] {
                Some(signature) => build_function_key(signature),
                None => string_of(&[]),
            };
            proof {
                if self.definitions@[index as int] is None {
                    assert(key@ =~= Seq::<char>::empty());
                }
            }
            self.keys.push(key);
            index = index + 1;
        }
    }

    /// Returns the structural key of the type at index `kind`.
    pub fn get_type_key(&self, kind: u32) -> (key: String)
        requires
            kind < self.keys().len(),
        ensures
            key == self.keys()[kind as int],
    {
        self.keys[kind as usize].clone()
    }

    /// Adds the type index of the next function.
    pub fn add_function(&mut self, function: u32)
        ensures
            final(self).definitions() == old(self).definitions(),
            final(self).keys() == old(self).keys(),
            final(self).functions() == old(self).functions().push(function),
    {
        self.functions.push(function);
    }

    /// Adds the type index of each function of the function section held in
    /// `bytes`, in order.
    pub fn add_functions(&mut self, bytes: &[u8])
        requires
            function_section_indices(bytes@) is Some,
        ensures
            final(self).definitions() == old(self).definitions(),
            final(self).keys() == old(self).keys(),
            final(self).functions() == old(self).functions() + function_section_indices(bytes@).unwrap(),
    {
        match read_function_section(bytes) {
            Some(mut indices) => {
                self.functions.append(&mut indices);
            },
            None => {
                vstd::pervasive::unreached()
            },
        }
    }

    /// Adds the type indices of the function section held in `bytes`, as
    /// `add_functions` does, when the bytes read as one; returns whether
    /// they did, leaving everything as it was when not.
    pub fn try_add_functions(&mut self, bytes: &[u8]) -> (read: bool)
        ensures
            read == function_section_indices(bytes@) is Some,
            final(self).definitions() == old(self).definitions(),
            final(self).keys() == old(self).keys(),
            read ==> final(self).functions() == old(self).functions() + function_section_indices(bytes@).unwrap(),
            !read ==> final(self).functions() == old(self).functions(),
    {
        match read_function_section(bytes) {
            Some(_) => {
                self.add_functions(bytes);
                true
            },
            None => false,
        }
    }

    /// Returns the type index of function `function`.
    pub fn get_function_index(&self, function: u32) -> (index: u32)
        requires
            function < self.functions().len(),
        ensures
            index == self.functions()[function as int],
    {
        self.functions[function as usize]
    }

    /// Returns the definition of the type at index `kind`.
    pub fn get_type(&self, kind: u32) -> (definition: &Option<Signature>)
        requires
            kind < self.definitions().len(),
        ensures
            *definition == self.definitions()[kind as int],
    {
        &self.definitions[kind as usize]
    }

    /// Returns the signature of function `function`, whose type must be a
    /// function type.
    pub fn get_function_type(&self, function: u32) -> (signature: &Signature)
        requires
            function < self.functions().len(),
            self.functions()[function as int] < self.definitions().len(),
            self.definitions()[self.functions()[function as int] as int] is Some,
        ensures
            Some(*signature) == self.definitions()[self.functions()[function as int] as int],
    {
        let index = self.get_function_index(function);
        match self.get_type(index) {
            Some(signature) => signature,
            None => {
                proof {
                    assert(false);
                }
                vstd::pervasive::unreached()
            },
        }
    }

    /// Returns the number of parameters of a block of kind `block`.
    pub fn get_parameter_count(&self, block: BlockKind) -> (count: usize)
        requires
            block matches BlockKind::FuncType(kind) ==> kind < self.definitions().len()
                && self.definitions()[kind as int] is Some,
        ensures
            count == match block {
                BlockKind::FuncType(kind) => self.definitions()[kind as int]->0.parameters@.len(),
                _ => 0,
            },
    {
        match block {
            BlockKind::Empty | BlockKind::Type => 0,
            BlockKind::FuncType(kind) => match self.get_type(kind) {
                Some(signature) => signature.parameters.len(),
                None => {
                    proof {
                        assert(false);
                    }
                    0
                },
            },
        }
    }

    /// Returns the number of results of a block of kind `block`.
    pub fn get_result_count(&self, block: BlockKind) -> (count: usize)
        requires
            block matches BlockKind::FuncType(kind) ==> kind < self.definitions().len()
                && self.definitions()[kind as int] is Some,
        ensures
            count == match block {
                BlockKind::Empty => 0,
                BlockKind::Type => 1,
                BlockKind::FuncType(kind) => self.definitions()[kind as int]->0.results@.len(),
            },
    {
        match block {
            BlockKind::Empty => 0,
            BlockKind::Type => 1,
            BlockKind::FuncType(kind) => match self.get_type(kind) {
                Some(signature) => signature.results.len(),
                None => {
                    proof {
                        assert(false);
                    }
                    0
                },
            },
        }
    }
}

} // verus!
