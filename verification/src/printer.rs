//! Text that the Lua printer emits around runtime helpers and function values.

use vstd::prelude::*;

use crate::library::text::{matches_at, pattern_at};

verus! {

/// The bytes of `into_bits_`.
pub open spec fn into_bits_prefix() -> Seq<u8> {
    seq![0x69u8, 0x6E, 0x74, 0x6F, 0x5F, 0x62, 0x69, 0x74, 0x73, 0x5F]
}

/// The bytes of `from_bits_`.
pub open spec fn from_bits_prefix() -> Seq<u8> {
    seq![0x66u8, 0x72, 0x6F, 0x6D, 0x5F, 0x62, 0x69, 0x74, 0x73, 0x5F]
}

/// The bytes of `bit32_`.
pub open spec fn bit32_prefix() -> Seq<u8> {
    seq![0x62u8, 0x69, 0x74, 0x33, 0x32, 0x5F]
}

/// The bytes of `buffer_`.
pub open spec fn buffer_prefix() -> Seq<u8> {
    seq![0x62u8, 0x75, 0x66, 0x66, 0x65, 0x72, 0x5F]
}

/// The bytes of `rt_`, which prefixes the binding of most runtime sections.
pub open spec fn runtime_prefix() -> Seq<u8> {
    seq![0x72u8, 0x74, 0x5F]
}

/// The bytes of `rt_function_type(`, which opens the registration of a
/// function value's type.
pub open spec fn function_type_open() -> Seq<u8> {
    seq![0x72u8, 0x74, 0x5F, 0x66, 0x75, 0x6E, 0x63, 0x74, 0x69, 0x6F, 0x6E, 0x5F, 0x74, 0x79, 0x70, 0x65, 0x28]
}

/// Whether a runtime section keeps its own name as its binding: the sections
/// that convert bits and the `bit32` and `buffer` helpers do.
pub open spec fn keeps_own_name(section: Seq<u8>) -> bool {
    pattern_at(section, 0, into_bits_prefix()) || pattern_at(section, 0, from_bits_prefix())
        || pattern_at(section, 0, bit32_prefix()) || pattern_at(section, 0, buffer_prefix())
}

/// Appends the bytes of `tail` to `out`.
pub(crate) fn append(out: &mut Vec<u8>, tail: &[u8])
    ensures
        final(out)@ == old(out)@ + tail@,
{
    let mut i: usize = 0;
    while i < tail.len()
        invariant
            i <= tail@.len(),
            out@ == old(out)@ + tail@.subrange(0, i as int),
        decreases tail@.len() - i,
    {
        out.push(tail[i]);
        i = i + 1;
        assert(out@ =~= old(out)@ + tail@.subrange(0, i as int));
    }
    assert(tail@.subrange(0, i as int) =~= tail@);
}

/// The name a runtime section binds its helper to.
///
/// The library prints every section inside its own scope and publishes the
/// locals it declares in the runtime table, so the module reads its helpers
/// back from there: under their own name for the bit conversions and the
/// `bit32` and `buffer` helpers, and with an `rt_` prefix otherwise.
pub fn runtime_binding_name(section: &[u8]) -> (name: Vec<u8>)
    ensures
        name@ == (if keeps_own_name(section@) {
            section@
        } else {
            runtime_prefix() + section@
        }),
{
    let into_bits = [0x69u8, 0x6E, 0x74, 0x6F, 0x5F, 0x62, 0x69, 0x74, 0x73, 0x5F];
    let from_bits = [0x66u8, 0x72, 0x6F, 0x6D, 0x5F, 0x62, 0x69, 0x74, 0x73, 0x5F];
    let bit32 = [0x62u8, 0x69, 0x74, 0x33, 0x32, 0x5F];
    let buffer = [0x62u8, 0x75, 0x66, 0x66, 0x65, 0x72, 0x5F];
    assert(into_bits@ =~= into_bits_prefix());
    assert(from_bits@ =~= from_bits_prefix());
    assert(bit32@ =~= bit32_prefix());
    assert(buffer@ =~= buffer_prefix());
    let mut name: Vec<u8> = Vec::new();
    if matches_at(section, 0, &into_bits) || matches_at(section, 0, &from_bits) || matches_at(
        section,
        0,
        &bit32,
    ) || matches_at(section, 0, &buffer) {
        append(&mut name, section);
        assert(name@ =~= section@);
    } else {
        let prefix = [0x72u8, 0x74, 0x5F];
        assert(prefix@ =~= runtime_prefix());
        append(&mut name, &prefix);
        append(&mut name, section);
        assert(name@ =~= runtime_prefix() + section@);
    }
    name
}

/// Opens the call that registers a function value's WebAssembly type, if it
/// has one: `rt_function_type(` when there is a key, nothing otherwise.
pub fn print_function_type_open(key: Option<&[u8]>) -> (text: Vec<u8>)
    ensures
        text@ == (if key is Some {
            function_type_open()
        } else {
            Seq::empty()
        }),
{
    let mut text: Vec<u8> = Vec::new();
    if key.is_some() {
        let open = [0x72u8, 0x74, 0x5F, 0x66, 0x75, 0x6E, 0x63, 0x74, 0x69, 0x6F, 0x6E, 0x5F, 0x74, 0x79, 0x70, 0x65, 0x28];
        assert(open@ =~= function_type_open());
        append(&mut text, &open);
        assert(text@ =~= function_type_open());
    } else {
        assert(text@ =~= Seq::<u8>::empty());
    }
    text
}

/// Closes the call opened by [`print_function_type_open`]: `, "key")` when
/// there is a key, nothing otherwise.
pub fn print_function_type_close(key: Option<&[u8]>) -> (text: Vec<u8>)
    ensures
        text@ == match key {
            Some(key) => seq![0x2Cu8, 0x20, 0x22] + key@ + seq![0x22u8, 0x29],
            None => Seq::empty(),
        },
{
    let mut text: Vec<u8> = Vec::new();
    match key {
        Some(key) => {
            let open = [0x2Cu8, 0x20, 0x22];
            let close = [0x22u8, 0x29];
            append(&mut text, &open);
            append(&mut text, key);
            append(&mut text, &close);
            assert(text@ =~= seq![0x2Cu8, 0x20, 0x22] + key@ + seq![0x22u8, 0x29]);
        },
        None => {
            assert(text@ =~= Seq::<u8>::empty());
        },
    }
    text
}

} // verus!
