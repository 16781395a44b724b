//! Prints the runtime library sections a program needs, each after the
//! sections it depends on.

use vstd::prelude::*;

use crate::{
    allocator::{argument_finder::lemma_distinct_below, flag_map::FlagMap},
    printer::append,
    library::{
        sections::{owned_names, section_names, Section, SectionView, Sections},
        text::{compare_bytes, lemma_less_order, less, strictly_sorted},
    },
};

verus! {

/// The position in `list` of the section named `name`.
pub open spec fn named(list: Seq<SectionView>, name: Seq<u8>) -> int {
    choose|i: int| 0 <= i < list.len() && list[i].name == name
}

/// Whether the section at position `p` of `list` depends on the section
/// named `dependency`: it names it as needed, or it mentions a local that
/// section declares and is not that section itself.
pub open spec fn depends(
    list: Seq<SectionView>,
    owners: Seq<(Seq<u8>, Seq<u8>)>,
    p: int,
    dependency: Seq<u8>,
) -> bool {
    ||| list[p].references.contains(dependency)
    ||| dependency != list[p].name && exists|k: int|
        0 <= k < list[p].mentions.len() && owners.contains((#[trigger] list[p].mentions[k], dependency))
}

/// Whether every section a section of `list` needs, and every section that
/// declares a local, is in `list`.
pub open spec fn library_closed(list: Seq<SectionView>, owners: Seq<(Seq<u8>, Seq<u8>)>) -> bool {
    &&& forall|p: int, r: int|
        0 <= p < list.len() && 0 <= r < list[p].references.len() ==> section_names(list).contains(
            #[trigger] list[p].references[r],
        )
    &&& forall|k: int| 0 <= k < owners.len() ==> section_names(list).contains(#[trigger] owners[k].1)
}

/// The names of the sections at the positions of `order`.
pub open spec fn names_at(list: Seq<SectionView>, order: Seq<u32>) -> Seq<Seq<u8>> {
    order.map_values(|p: u32| list[p as int].name)
}

/// Whether `order` lists, once each, exactly the sections reached from the
/// sections named in `roots` through their dependencies: each is a root or a
/// dependency of one listed before it.
pub open spec fn reached_from(
    list: Seq<SectionView>,
    owners: Seq<(Seq<u8>, Seq<u8>)>,
    roots: Seq<Seq<u8>>,
    order: Seq<u32>,
) -> bool {
    &&& order.no_duplicates()
    &&& forall|k: int| 0 <= k < order.len() ==> #[trigger] order[k] < list.len()
    &&& forall|k: int|
        0 <= k < order.len() ==> roots.contains(list[order[k] as int].name) || exists|j: int|
            0 <= j < k && depends(list, owners, order[j] as int, #[trigger] list[order[k] as int].name)
}

/// Whether the section named `from` leads to the section named `to` through
/// dependencies: a chain of sections, the first named `from`, each depending
/// on the next, the last depending on `to`.
pub open spec fn reaches(list: Seq<SectionView>, owners: Seq<(Seq<u8>, Seq<u8>)>, from: Seq<u8>, to: Seq<u8>) -> bool {
    exists|chain: Seq<u32>|
        {
            &&& chain.len() > 0
            &&& forall|k: int| 0 <= k < chain.len() ==> #[trigger] chain[k] < list.len()
            &&& list[chain[0] as int].name == from
            &&& forall|k: int|
                1 <= k < chain.len() ==> depends(list, owners, chain[k - 1] as int, list[#[trigger] chain[k] as int].name)
            &&& depends(list, owners, chain.last() as int, to)
        }
}

/// Whether `printed` lists each section after every section it depends on,
/// except a dependency that leads back to it through a cycle of
/// dependencies.
pub open spec fn in_dependency_order(
    list: Seq<SectionView>,
    owners: Seq<(Seq<u8>, Seq<u8>)>,
    printed: Seq<Seq<u8>>,
) -> bool {
    forall|i: int, dependency: Seq<u8>|
        0 <= i < printed.len() && #[trigger] depends(list, owners, named(list, printed[i]), dependency)
            && dependency != printed[i] ==> {
            ||| exists|j: int| 0 <= j < i && printed[j] == dependency
            ||| reaches(list, owners, dependency, printed[i])
        }
}

/// Distinct positions of a list of distinctly named sections have distinct
/// names, and a name stands for its position.
proof fn lemma_names_distinct(list: Seq<SectionView>)
    requires
        strictly_sorted(section_names(list)),
    ensures
        forall|i: int, j: int| 0 <= i < list.len() && 0 <= j < list.len() && i != j ==> #[trigger] list[i].name != #[trigger] list[j].name,
        forall|i: int| 0 <= i < list.len() ==> named(list, #[trigger] list[i].name) == i,
{
    let names = section_names(list);
    assert forall|i: int, j: int| 0 <= i < list.len() && 0 <= j < list.len() && i != j implies #[trigger] list[i].name
        != #[trigger] list[j].name by {
        assert(names[i] == list[i].name && names[j] == list[j].name);
        lemma_less_order(list[i].name, list[j].name, list[i].name);
        lemma_less_order(list[j].name, list[i].name, list[j].name);
    }
    assert forall|i: int| 0 <= i < list.len() implies named(list, #[trigger] list[i].name) == i by {
        let k = named(list, list[i].name);
        assert(0 <= k < list.len() && list[k].name == list[i].name);
    }
}

/// A name among the section names has a position.
proof fn lemma_named(list: Seq<SectionView>, name: Seq<u8>)
    requires
        section_names(list).contains(name),
    ensures
        0 <= named(list, name) < list.len(),
        list[named(list, name)].name == name,
{
    let k = choose|k: int| 0 <= k < section_names(list).len() && section_names(list)[k] == name;
    assert(list[k].name == name);
}

/// Two owner entries for the same local name the same owner.
proof fn lemma_owner_unique(owners: Seq<(Seq<u8>, Seq<u8>)>, local: Seq<u8>, a: Seq<u8>, b: Seq<u8>)
    requires
        strictly_sorted(owned_names(owners)),
        owners.contains((local, a)),
        owners.contains((local, b)),
    ensures
        a == b,
{
    let i = choose|i: int| 0 <= i < owners.len() && owners[i] == (local, a);
    let j = choose|j: int| 0 <= j < owners.len() && owners[j] == (local, b);
    let names = owned_names(owners);
    assert(names[i] == local && names[j] == local);
    if i != j {
        lemma_less_order(local, local, local);
        if i < j {
            assert(less(names[i], names[j]));
        } else {
            assert(less(names[j], names[i]));
        }
    }
}


/// In a list without repeats, an entry's first index is its index.
proof fn lemma_index_of_unique(s: Seq<Seq<u8>>, i: int)
    requires
        s.no_duplicates(),
        0 <= i < s.len(),
    ensures
        s.index_of(s[i]) == i,
{
    let k = s.index_of(s[i]);
    assert(0 <= k < s.len() && s[k] == s[i]);
}

/// Distinct positions of distinctly named sections have distinct names.
proof fn lemma_names_at_distinct(list: Seq<SectionView>, order: Seq<u32>)
    requires
        strictly_sorted(section_names(list)),
        order.no_duplicates(),
        forall|k: int| 0 <= k < order.len() ==> #[trigger] order[k] < list.len(),
    ensures
        names_at(list, order).no_duplicates(),
{
    lemma_names_distinct(list);
    let names = names_at(list, order);
    assert forall|i: int, j: int| 0 <= i < names.len() && 0 <= j < names.len() && i != j implies names[i] != names[j] by {
        assert(order[i] != order[j]);
        assert(names[i] == list[order[i] as int].name && names[j] == list[order[j] as int].name);
    }
}

/// Whether the printer, partway through a walk from `roots` whose sections
/// still being expanded are at the positions of `path`, each a dependency of
/// the one before, has reached the sections of its expansion, printed each
/// finished one after its dependencies, and keeps the unfinished ones on
/// `path`.
pub open spec fn walking(
    list: Seq<SectionView>,
    owners: Seq<(Seq<u8>, Seq<u8>)>,
    roots: Seq<Seq<u8>>,
    path: Seq<u32>,
    expansion: Seq<u32>,
    expanded: Map<u32, bool>,
    printed: Seq<Seq<u8>>,
) -> bool {
    &&& reached_from(list, owners, roots, expansion)
    &&& forall|x: u32| #[trigger] expanded.contains_key(x) <==> expansion.contains(x)
    &&& path.no_duplicates()
    &&& forall|k: int| 0 <= k < path.len() ==> expansion.contains(#[trigger] path[k])
    &&& forall|k: int| 0 <= k < path.len() ==> !printed.contains(list[#[trigger] path[k] as int].name)
    &&& printed.no_duplicates()
    &&& forall|i: int| 0 <= i < printed.len() ==> names_at(list, expansion).contains(#[trigger] printed[i])
    &&& forall|k: int|
        0 <= k < expansion.len() ==> printed.contains(list[#[trigger] expansion[k] as int].name) || path.contains(
            expansion[k],
        )
    &&& forall|k: int|
        1 <= k < path.len() ==> depends(list, owners, path[k - 1] as int, list[#[trigger] path[k] as int].name)
    &&& forall|i: int, dependency: Seq<u8>|
        0 <= i < printed.len() && #[trigger] depends(list, owners, named(list, printed[i]), dependency)
            ==> names_at(list, expansion).contains(dependency)
    &&& in_dependency_order(list, owners, printed)
}


/// The largest number of active locals a printed scope may hold: Lua allows
/// two hundred, and the budget leaves room for what surrounds the library.
pub const MAX_ACTIVE_LOCALS: usize = 190;

/// The bytes of `do -- SECTION `.
pub open spec fn section_marker() -> Seq<u8> {
    seq![0x64u8, 0x6F, 0x20, 0x2D, 0x2D, 0x20, 0x53, 0x45, 0x43, 0x54, 0x49, 0x4F, 0x4E, 0x20]
}

/// The bytes of `local `.
pub open spec fn local_keyword() -> Seq<u8> {
    seq![0x6Cu8, 0x6F, 0x63, 0x61, 0x6C, 0x20]
}

/// The bytes of ` runtime.`, which reads a name back from the runtime table.
pub open spec fn runtime_access() -> Seq<u8> {
    seq![0x20u8, 0x72, 0x75, 0x6E, 0x74, 0x69, 0x6D, 0x65, 0x2E]
}

/// The bytes of `end`, a line break and an empty line.
pub open spec fn section_end() -> Seq<u8> {
    seq![0x65u8, 0x6E, 0x64, 0x0A, 0x0A]
}

/// The bytes of `local runtime = {}`, a line break and an empty line.
pub open spec fn library_header() -> Seq<u8> {
    seq![0x6Cu8, 0x6F, 0x63, 0x61, 0x6C, 0x20, 0x72, 0x75, 0x6E, 0x74, 0x69, 0x6D, 0x65, 0x20, 0x3D, 0x20, 0x7B, 0x7D, 0x0A, 0x0A]
}

/// The names of `names`, separated by `, `.
pub open spec fn name_list(names: Seq<Seq<u8>>) -> Seq<u8>
    decreases names.len(),
{
    if names.len() == 0 {
        Seq::empty()
    } else if names.len() == 1 {
        names[0]
    } else {
        name_list(names.drop_last()) + seq![0x2Cu8, 0x20] + names.last()
    }
}

/// Each name of `names` read from the runtime table, separated by commas:
/// ` runtime.a, runtime.b`.
pub open spec fn access_list(names: Seq<Seq<u8>>) -> Seq<u8>
    decreases names.len(),
{
    if names.len() == 0 {
        Seq::empty()
    } else {
        access_list(names.drop_last()) + (if names.len() > 1 {
            seq![0x2Cu8]
        } else {
            Seq::empty()
        }) + runtime_access() + names.last()
    }
}

/// The statement `local a, b = runtime.a, runtime.b` for `names`, after
/// `indent` and with a line break, or nothing when there is no name.
pub open spec fn local_list(names: Seq<Seq<u8>>, indent: Seq<u8>) -> Seq<u8> {
    if names.len() == 0 {
        Seq::empty()
    } else {
        indent + local_keyword() + name_list(names) + seq![0x20u8, 0x3D] + access_list(names) + seq![0x0Au8]
    }
}

/// The names of `mentions` that are in `exported`, in order.
pub open spec fn imports(mentions: Seq<Seq<u8>>, exported: Set<Seq<u8>>) -> Seq<Seq<u8>>
    decreases mentions.len(),
{
    if mentions.len() == 0 {
        Seq::empty()
    } else if exported.contains(mentions.last()) {
        imports(mentions.drop_last(), exported).push(mentions.last())
    } else {
        imports(mentions.drop_last(), exported)
    }
}

/// A line `runtime.name = name` for each of `defines`, indented.
pub open spec fn publish_lines(defines: Seq<Seq<u8>>) -> Seq<u8>
    decreases defines.len(),
{
    if defines.len() == 0 {
        Seq::empty()
    } else {
        publish_lines(defines.drop_last()) + seq![0x09u8] + runtime_access().drop_first() + defines.last() + seq![
            0x20u8,
            0x3D,
            0x20,
        ] + defines.last() + seq![0x0Au8]
    }
}

/// The block printing `section` when the names of `exported` are already in
/// the runtime table: it binds the names it mentions from there, holds the
/// section's code, and publishes the names it declares.
pub open spec fn section_text(section: SectionView, exported: Set<Seq<u8>>) -> Seq<u8> {
    section_marker() + section.name + seq![0x0Au8] + local_list(imports(section.mentions, exported), seq![0x09u8])
        + (if section.contents.len() > 0 {
        section.contents + seq![0x0Au8]
    } else {
        Seq::empty()
    }) + publish_lines(section.defines) + section_end()
}

/// The names that the first `count` sections of `printed` publish.
pub open spec fn exported_before(list: Seq<SectionView>, printed: Seq<Seq<u8>>, count: int) -> Set<Seq<u8>>
    decreases count,
{
    if count <= 0 {
        Set::empty()
    } else {
        exported_before(list, printed, count - 1) + list[named(list, printed[count - 1])].defines.to_set()
    }
}

/// The library text of the first `count` sections of `printed`: the runtime
/// table, then each section's block.
pub open spec fn library_text(list: Seq<SectionView>, printed: Seq<Seq<u8>>, count: int) -> Seq<u8>
    decreases count,
{
    if count <= 0 {
        library_header()
    } else {
        library_text(list, printed, count - 1) + section_text(
            list[named(list, printed[count - 1])],
            exported_before(list, printed, count - 1),
        )
    }
}

/// Whether each section of `printed` binds fewer names than a scope may
/// hold.
pub open spec fn fits_scopes(list: Seq<SectionView>, printed: Seq<Seq<u8>>) -> bool {
    forall|i: int|
        0 <= i < printed.len() ==> {
            let section = #[trigger] list[named(list, printed[i])];
            imports(section.mentions, exported_before(list, printed, i)).len() + section.defines.len()
                < MAX_ACTIVE_LOCALS
        }
}

/// The names the sections named in `names` declare, in order.
pub open spec fn bindings(list: Seq<SectionView>, names: Seq<Seq<u8>>) -> Seq<Seq<u8>>
    decreases names.len(),
{
    if names.len() == 0 {
        Seq::empty()
    } else {
        bindings(list, names.drop_last()) + list[named(list, names.last())].defines
    }
}

/// A set of names, kept in a `hashbrown::HashSet`.
#[verifier::external_body]
pub struct NameSet {
    set: hashbrown::HashSet<Vec<u8>>,
}

/// The names of a name set.
pub uninterp spec fn name_set_members(set: NameSet) -> Set<Seq<u8>>;

impl View for NameSet {
    type V = Set<Seq<u8>>;

    open spec fn view(&self) -> Set<Seq<u8>> {
        name_set_members(*self)
    }
}

/// Creates an empty set with `hashbrown::HashSet::new`.
///
/// Trusted: a new `hashbrown` set holds no name.
#[verifier::external_body]
fn empty_names() -> (set: NameSet)
    ensures
        name_set_members(set) =~= Set::empty(),
{
    NameSet { set: hashbrown::HashSet::new() }
}

/// Asks whether a name is in the set with `hashbrown::HashSet::contains`.
///
/// Trusted: `contains` answers whether an equal name was inserted; byte
/// vectors and slices are equal exactly when their bytes are.
#[verifier::external_body]
fn has_name(set: &NameSet, name: &[u8]) -> (found: bool)
    ensures
        found == name_set_members(*set).contains(name@),
{
    set.set.contains(name)
}

/// Adds a name with `hashbrown::HashSet::insert`.
///
/// Trusted: `insert` adds the name, keeping every other one.
#[verifier::external_body]
fn add_name(set: &mut NameSet, name: Vec<u8>)
    ensures
        name_set_members(*final(set)) == name_set_members(*old(set)).insert(name@),
{
    set.set.insert(name);
}

/// Appends the statement binding `names` from the runtime table, after
/// `indent`, to `out`.
fn print_local_list(names: &Vec<Vec<u8>>, indent: &[u8], out: &mut Vec<u8>)
    ensures
        final(out)@ == old(out)@ + local_list(byte_names(names@), indent@),
{
    if names.len() == 0 {
        assert(byte_names(names@) =~= Seq::<Seq<u8>>::empty());
        assert(out@ =~= old(out)@ + Seq::<u8>::empty());
        return;
    }
    let ghost front = out@;
    append(out, indent);
    let keyword = [0x6Cu8, 0x6F, 0x63, 0x61, 0x6C, 0x20];
    assert(keyword@ =~= local_keyword());
    append(out, &keyword);
    let ghost head = out@;
    let mut i: usize = 0;
    while i < names.len()
        invariant
            1 <= names@.len(),
            i <= names@.len(),
            head.len() <= out@.len(),
            out@ == head + name_list(byte_names(names@.take(i as int))),
        decreases names@.len() - i,
    {
        proof {
            assert(byte_names(names@.take(i + 1)).drop_last() =~= byte_names(names@.take(i as int)));
            assert(byte_names(names@.take(i + 1)).last() == names@[i as int]@);
        }
        if i != 0 {
            let separator = [0x2Cu8, 0x20];
            append(out, &separator);
        }
        append(out, names[i].as_slice());
        proof {
            if i == 0 {
                assert(byte_names(names@.take(0)) =~= Seq::<Seq<u8>>::empty());
                assert(byte_names(names@.take(1)).len() == 1);
            }
            assert(out@ =~= head + name_list(byte_names(names@.take(i + 1))));
        }
        i = i + 1;
    }
    let equals = [0x20u8, 0x3D];
    append(out, &equals);
    let ghost middle = out@;
    let access = [0x20u8, 0x72, 0x75, 0x6E, 0x74, 0x69, 0x6D, 0x65, 0x2E];
    assert(access@ =~= runtime_access());
    let mut j: usize = 0;
    while j < names.len()
        invariant
            j <= names@.len(),
            access@ == runtime_access(),
            out@ == middle + access_list(byte_names(names@.take(j as int))),
        decreases names@.len() - j,
    {
        proof {
            assert(byte_names(names@.take(j + 1)).drop_last() =~= byte_names(names@.take(j as int)));
            assert(byte_names(names@.take(j + 1)).last() == names@[j as int]@);
        }
        if j != 0 {
            let comma = [0x2Cu8];
            append(out, &comma);
        }
        append(out, &access);
        append(out, names[j].as_slice());
        proof {
            if j == 0 {
                assert(byte_names(names@.take(0)) =~= Seq::<Seq<u8>>::empty());
            }
            assert(out@ =~= middle + access_list(byte_names(names@.take(j + 1))));
        }
        j = j + 1;
    }
    let newline = [0x0Au8];
    append(out, &newline);
    proof {
        assert(names@.take(i as int) =~= names@);
        assert(out@ =~= old(out)@ + local_list(byte_names(names@), indent@));
    }
}

/// Appends the block printing `section` to `out`, binding from the runtime
/// table each name it mentions that `exported` holds.
fn print_section(section: &Section, exported: &NameSet, out: &mut Vec<u8>)
    requires
        imports(section@.mentions, exported@).len() + section@.defines.len() < MAX_ACTIVE_LOCALS,
    ensures
        final(out)@ == old(out)@ + section_text(section@, exported@),
{
    let ghost mentions = section@.mentions;
    let mut found: Vec<Vec<u8>> = Vec::new();
    let mut i: usize = 0;
    while i < section.mentions.len()
        invariant
            mentions == section@.mentions,
            mentions.len() == section.mentions@.len(),
            i <= mentions.len(),
            byte_names(found@) == imports(mentions.take(i as int), exported@),
        decreases mentions.len() - i,
    {
        proof {
            assert(mentions.take(i + 1).drop_last() =~= mentions.take(i as int));
            assert(mentions.take(i + 1).last() == section.mentions@[i as int]@);
        }
        if has_name(exported, section.mentions[i].as_slice()) {
            let ghost earlier = found@;
            let copy = copy_name(section.mentions[i].as_slice());
            found.push(copy);
            proof {
                assert(found@.drop_last() =~= earlier);
                assert(byte_names(found@) =~= byte_names(earlier).push(copy@));
            }
        }
        i = i + 1;
    }
    proof {
        assert(mentions.take(i as int) =~= mentions);
    }
    let ghost start = out@;
    let marker = [0x64u8, 0x6F, 0x20, 0x2D, 0x2D, 0x20, 0x53, 0x45, 0x43, 0x54, 0x49, 0x4F, 0x4E, 0x20];
    assert(marker@ =~= section_marker());
    append(out, &marker);
    append(out, section.name.as_slice());
    let newline = [0x0Au8];
    append(out, &newline);
    let tab = [0x09u8];
    print_local_list(&found, &tab, out);
    assert(tab@ =~= seq![0x09u8]);
    let ghost before_contents = out@;
    if section.contents.len() > 0 {
        append(out, section.contents.as_slice());
        append(out, &newline);
    }
    let ghost before_publish = out@;
    let table = [0x72u8, 0x75, 0x6E, 0x74, 0x69, 0x6D, 0x65, 0x2E];
    assert(table@ =~= runtime_access().drop_first());
    let assign = [0x20u8, 0x3D, 0x20];
    let ghost defines = section@.defines;
    let mut j: usize = 0;
    while j < section.defines.len()
        invariant
            defines == section@.defines,
            defines.len() == section.defines@.len(),
            j <= defines.len(),
            table@ == runtime_access().drop_first(),
            tab@ == seq![0x09u8],
            newline@ == seq![0x0Au8],
            assign@ == seq![0x20u8, 0x3D, 0x20],
            out@ == before_publish + publish_lines(defines.take(j as int)),
        decreases defines.len() - j,
    {
        proof {
            assert(defines.take(j + 1).drop_last() =~= defines.take(j as int));
            assert(defines.take(j + 1).last() == section.defines@[j as int]@);
        }
        append(out, &tab);
        append(out, &table);
        append(out, section.defines[j].as_slice());
        append(out, &assign);
        append(out, section.defines[j].as_slice());
        append(out, &newline);
        proof {
            assert(out@ =~= before_publish + publish_lines(defines.take(j + 1)));
        }
        j = j + 1;
    }
    let end = [0x65u8, 0x6E, 0x64, 0x0A, 0x0A];
    assert(end@ =~= section_end());
    append(out, &end);
    proof {
        assert(defines.take(j as int) =~= defines);
        assert(out@ =~= old(out)@ + section_text(section@, exported@));
    }
}

/// Adds the names `section` declares to `exported`.
fn publish_names(exported: &mut NameSet, section: &Section)
    ensures
        final(exported)@ == old(exported)@ + section@.defines.to_set(),
{
    let ghost published = exported@;
    let mut j: usize = 0;
    while j < section.defines.len()
        invariant
            j <= section.defines@.len(),
            section@.defines.len() == section.defines@.len(),
            exported@ == published + section@.defines.take(j as int).to_set(),
        decreases section.defines@.len() - j,
    {
        let copy = copy_name(section.defines[j].as_slice());
        add_name(exported, copy);
        proof {
            let done = section@.defines.take(j as int);
            assert(section@.defines[j as int] == copy@);
            assert(section@.defines.take(j + 1) =~= done.push(copy@));
            done.lemma_push_to_set_commute(copy@);
            assert(exported@ =~= published + section@.defines.take(j + 1).to_set());
        }
        j = j + 1;
    }
    proof {
        assert(section@.defines.take(j as int) =~= section@.defines);
    }
}

/// Appends the block of the section named `name` to `out`, then adds the
/// names it declares to `exported`.
fn print_named_section(sections: &Sections, name: &[u8], exported: &mut NameSet, out: &mut Vec<u8>)
    requires
        sections.resolved(),
        section_names(sections.list()).contains(name@),
        ({
            let section = sections.list()[named(sections.list(), name@)];
            imports(section.mentions, old(exported)@).len() + section.defines.len() < MAX_ACTIVE_LOCALS
        }),
    ensures
        final(out)@ == old(out)@ + section_text(sections.list()[named(sections.list(), name@)], old(exported)@),
        final(exported)@ == old(exported)@ + sections.list()[named(sections.list(), name@)].defines.to_set(),
{
    let index = sections.position(name);
    let section = sections.get(index);
    proof {
        lemma_names_distinct(sections.list());
        assert(named(sections.list(), sections.list()[index as int].name) == index as int);
    }
    print_section(section, exported, out);
    publish_names(exported, section);
}

/// A printer of the runtime library: the sections to print, in order, and
/// the sections already reached.
pub struct Printer {
    references: Vec<Vec<u8>>,
    expanded: FlagMap,
    expansion: Ghost<Seq<u32>>,
}

/// Copies the bytes of `name`.
fn copy_name(name: &[u8]) -> (copy: Vec<u8>)
    ensures
        copy@ == name@,
{
    let mut copy: Vec<u8> = Vec::new();
    let mut i: usize = 0;
    while i < name.len()
        invariant
            i <= name@.len(),
            copy@ == name@.take(i as int),
        decreases name@.len() - i,
    {
        copy.push(name[i]);
        assert(name@.take(i + 1) =~= name@.take(i as int).push(name@[i as int]));
        i = i + 1;
    }
    assert(name@.take(i as int) =~= name@);
    copy
}

/// The names given as byte slices in `names`.
pub open spec fn root_names(names: Seq<&[u8]>) -> Seq<Seq<u8>> {
    names.map_values(|name: &[u8]| name@)
}

/// The names in `names`, as byte sequences.
pub open spec fn byte_names(names: Seq<Vec<u8>>) -> Seq<Seq<u8>> {
    names.map_values(|name: Vec<u8>| name@)
}

impl Printer {
    /// The names of the sections to print, in order.
    pub closed spec fn printed(&self) -> Seq<Seq<u8>> {
        byte_names(self.references@)
    }

    /// Creates a printer with nothing to print.
    pub fn new() -> (printer: Self)
        ensures
            printer.printed() == Seq::<Seq<u8>>::empty(),
    {
        let printer = Printer { references: Vec::new(), expanded: FlagMap::new(), expansion: Ghost(Seq::empty()) };
        assert(printer.printed() =~= Seq::<Seq<u8>>::empty());
        printer
    }

    /// Resolves the sections named in `names` and the sections they depend
    /// on, transitively: a section depends on the sections it names as
    /// needed, and on the sections declaring the locals it mentions, which
    /// keeps a section that forgot to name one working.
    pub fn resolve(&mut self, names: &[&[u8]], sections: &Sections)
        requires
            sections.resolved(),
            sections.well_formed(),
            library_closed(sections.list(), sections.owners()),
            sections.list().len() <= u32::MAX,
            forall|i: int| 0 <= i < names@.len() ==> section_names(sections.list()).contains(#[trigger] names@[i]@),
        ensures
            exists|order: Seq<u32>|
                {
                    &&& reached_from(sections.list(), sections.owners(), root_names(names@), order)
                    &&& forall|name: Seq<u8>| final(self).printed().contains(name) <==> names_at(sections.list(), order).contains(name)
                },
            in_dependency_order(sections.list(), sections.owners(), final(self).printed()),
            final(self).printed().no_duplicates(),
            forall|i: int| 0 <= i < names@.len() ==> final(self).printed().contains(#[trigger] names@[i]@),
            forall|i: int, dependency: Seq<u8>|
                0 <= i < final(self).printed().len() && #[trigger] depends(
                    sections.list(),
                    sections.owners(),
                    named(sections.list(), final(self).printed()[i]),
                    dependency,
                ) ==> final(self).printed().contains(dependency),
    {
        let ghost list = sections.list();
        let ghost owners = sections.owners();
        let ghost roots = root_names(names@);
        self.references.clear();
        self.expanded.clear();
        self.expansion = Ghost(Seq::empty());
        proof {
            assert(self.printed() =~= Seq::<Seq<u8>>::empty());
            assert(walking(list, owners, roots, Seq::empty(), self.expansion@, self.expanded@, self.printed()));
        }
        let mut i: usize = 0;
        while i < names.len()
            invariant
                sections.resolved(),
                sections.well_formed(),
                library_closed(list, owners),
                list == sections.list(),
                owners == sections.owners(),
                list.len() <= u32::MAX,
                roots == root_names(names@),
                forall|k: int| 0 <= k < names@.len() ==> section_names(list).contains(#[trigger] names@[k]@),
                walking(list, owners, roots, Seq::empty(), self.expansion@, self.expanded@, self.printed()),
                i <= names@.len(),
                forall|k: int| 0 <= k < i ==> self.printed().contains(#[trigger] names@[k]@),
            decreases names@.len() - i,
        {
            let ghost printed_before = self.printed();
            proof {
                assert(roots[i as int] == names@[i as int]@);
                lemma_distinct_below(self.expansion@, list.len() as int);
            }
            self.recursively_expand(names[i], sections, Ghost(roots), Ghost(Seq::empty()));
            proof {
                lemma_named(list, names@[i as int]@);
                let key = named(list, names@[i as int]@) as u32;
                assert(self.printed().contains(list[key as int].name));
                assert forall|k: int| 0 <= k < i + 1 implies self.printed().contains(#[trigger] names@[k]@) by {
                    if k < i {
                        let j = choose|j: int| 0 <= j < printed_before.len() && printed_before[j] == names@[k]@;
                        assert(self.printed()[j] == printed_before[j]);
                    }
                }
            }
            i = i + 1;
        }
        proof {
            let printed = self.printed();
            let order = self.expansion@;
            assert forall|name: Seq<u8>| printed.contains(name) <==> names_at(list, order).contains(name) by {
                if names_at(list, order).contains(name) {
                    let k = choose|k: int| 0 <= k < names_at(list, order).len() && names_at(list, order)[k] == name;
                    assert(printed.contains(list[order[k] as int].name));
                }
            }
            assert forall|i: int, dependency: Seq<u8>|
                0 <= i < printed.len() && #[trigger] depends(list, owners, named(list, printed[i]), dependency) implies printed.contains(
                dependency,
            ) by {
                if dependency != printed[i] {
                    if exists|j: int| 0 <= j < i && printed[j] == dependency {
                        let j = choose|j: int| 0 <= j < i && printed[j] == dependency;
                        assert(printed[j] == dependency);
                    }
                } else {
                    assert(printed[i] == dependency);
                }
            }
        }
    }

    /// Expands the section named `name` unless it was: first each section it
    /// needs and each section declaring a local it mentions, then the section
    /// itself goes onto the list.
    fn recursively_expand(
        &mut self,
        name: &[u8],
        sections: &Sections,
        Ghost(roots): Ghost<Seq<Seq<u8>>>,
        Ghost(path): Ghost<Seq<u32>>,
    )
        requires
            sections.resolved(),
            sections.well_formed(),
            library_closed(sections.list(), sections.owners()),
            sections.list().len() <= u32::MAX,
            section_names(sections.list()).contains(name@),
            path.len() == 0 ==> roots.contains(name@),
            path.len() > 0 ==> depends(sections.list(), sections.owners(), path.last() as int, name@),
            walking(
                sections.list(),
                sections.owners(),
                roots,
                path,
                old(self).expansion@,
                old(self).expanded@,
                old(self).printed(),
            ),
        ensures
            walking(
                sections.list(),
                sections.owners(),
                roots,
                path,
                final(self).expansion@,
                final(self).expanded@,
                final(self).printed(),
            ),
            old(self).expansion@.len() <= final(self).expansion@.len(),
            final(self).expansion@.take(old(self).expansion@.len() as int) == old(self).expansion@,
            old(self).printed().len() <= final(self).printed().len(),
            final(self).printed().take(old(self).printed().len() as int) == old(self).printed(),
            final(self).expansion@.contains(named(sections.list(), name@) as u32),
        decreases sections.list().len() - old(self).expansion@.len(),
    {
        let ghost list = sections.list();
        let ghost owners = sections.owners();
        proof {
            lemma_names_distinct(list);
            lemma_named(list, name@);
            lemma_distinct_below(self.expansion@, list.len() as int);
        }
        let position = sections.position(name);
        let key = position as u32;
        if self.expanded.get(key).is_some() {
            proof {
                assert(self.expansion@.take(self.expansion@.len() as int) =~= self.expansion@);
                assert(self.printed().take(self.printed().len() as int) =~= self.printed());
            }
            return;
        }
        let ghost before = self.expansion@;
        self.expanded.insert(key, true);
        self.expansion = Ghost(self.expansion@.push(key));
        let ghost inner = path.push(key);
        proof {
            let after = self.expansion@;
            assert(!before.contains(key));
            assert(after.no_duplicates());
            lemma_names_at_distinct(list, after);
            if !roots.contains(name@) {
                let j = choose|j: int| 0 <= j < path.len() && path[j] == path.last();
                assert(path[path.len() - 1] == path.last());
                assert(before.contains(path.last()));
                let k = choose|k: int| 0 <= k < before.len() && before[k] == path.last();
                assert(after[k] == before[k]);
                assert(depends(list, owners, after[k] as int, list[after[before.len() as int] as int].name));
            }
            assert forall|k: int|
                0 <= k < after.len() implies roots.contains(list[after[k] as int].name) || exists|j: int|
                    0 <= j < k && depends(list, owners, after[j] as int, #[trigger] list[after[k] as int].name) by {
                if k < before.len() {
                    assert(after[k] == before[k]);
                    if !roots.contains(list[before[k] as int].name) {
                        let j = choose|j: int|
                            0 <= j < k && depends(list, owners, before[j] as int, #[trigger] list[before[k] as int].name);
                        assert(after[j] == before[j]);
                    }
                }
            }
            assert forall|x: u32| #[trigger] self.expanded@.contains_key(x) <==> after.contains(x) by {
                if after.contains(x) && x != key {
                    let k = choose|k: int| 0 <= k < after.len() && after[k] == x;
                    assert(before[k] == x);
                }
                if before.contains(x) {
                    let k = choose|k: int| 0 <= k < before.len() && before[k] == x;
                    assert(after[k] == x);
                }
                assert(after[before.len() as int] == key);
            }
            assert forall|k: int| 0 <= k < path.len() implies path[k] != key by {
                assert(before.contains(path[k]));
            }
            assert(inner.no_duplicates());
            assert forall|k: int| 0 <= k < inner.len() implies after.contains(#[trigger] inner[k]) by {
                if k < path.len() {
                    assert(inner[k] == path[k]);
                    let j = choose|j: int| 0 <= j < before.len() && before[j] == path[k];
                    assert(after[j] == path[k]);
                } else {
                    assert(after[before.len() as int] == key);
                }
            }
            assert(!self.printed().contains(name@)) by {
                if self.printed().contains(name@) {
                    let i = choose|i: int| 0 <= i < self.printed().len() && self.printed()[i] == name@;
                    assert(names_at(list, before).contains(self.printed()[i]));
                    let k = choose|k: int| 0 <= k < names_at(list, before).len() && names_at(list, before)[k] == name@;
                    assert(list[before[k] as int].name == list[key as int].name);
                    assert(before[k] == key);
                }
            }
            assert forall|k: int| 0 <= k < inner.len() implies !self.printed().contains(list[#[trigger] inner[k] as int].name) by {
                if k < path.len() {
                    assert(inner[k] == path[k]);
                }
            }
            assert forall|i: int| 0 <= i < self.printed().len() implies names_at(list, after).contains(#[trigger] self.printed()[i]) by {
                assert(names_at(list, before).contains(self.printed()[i]));
                let k = choose|k: int| 0 <= k < names_at(list, before).len() && names_at(list, before)[k] == self.printed()[i];
                assert(names_at(list, after)[k] == names_at(list, before)[k]);
            }
            assert forall|k: int|
                0 <= k < after.len() implies self.printed().contains(list[#[trigger] after[k] as int].name) || inner.contains(
                after[k],
            ) by {
                if k < before.len() {
                    assert(after[k] == before[k]);
                    if path.contains(before[k]) {
                        let j = choose|j: int| 0 <= j < path.len() && path[j] == before[k];
                        assert(inner[j] == path[j]);
                    }
                } else {
                    assert(inner[path.len() as int] == key);
                }
            }
            assert(after.take(before.len() as int) =~= before);
            assert forall|k: int|
                1 <= k < inner.len() implies depends(list, owners, inner[k - 1] as int, list[#[trigger] inner[k] as int].name) by {
                if k < path.len() {
                    assert(inner[k] == path[k] && inner[k - 1] == path[k - 1]);
                } else {
                    assert(inner[k - 1] == path.last());
                    assert(inner[k] == key);
                }
            }
            assert forall|i: int, dependency: Seq<u8>|
                0 <= i < self.printed().len() && #[trigger] depends(list, owners, named(list, self.printed()[i]), dependency)
                    implies names_at(list, after).contains(dependency) by {
                let k = choose|k: int| 0 <= k < names_at(list, before).len() && names_at(list, before)[k] == dependency;
                assert(names_at(list, after)[k] == names_at(list, before)[k]);
            }
            assert(walking(list, owners, roots, inner, after, self.expanded@, self.printed()));
        }
        let ghost start = self.expansion@;
        let ghost printed_start = self.printed();
        let section = sections.get(position);
        let mut r: usize = 0;
        while r < section.references.len()
            invariant
                sections.resolved(),
                sections.well_formed(),
                library_closed(list, owners),
                list == sections.list(),
                owners == sections.owners(),
                list.len() <= u32::MAX,
                section@ == list[key as int],
                key == position,
                inner == path.push(key),
                path.len() == 0 ==> roots.contains(name@),
                path.len() > 0 ==> depends(list, owners, path.last() as int, name@),
                walking(list, owners, roots, inner, self.expansion@, self.expanded@, self.printed()),
                start.len() <= self.expansion@.len(),
                self.expansion@.take(start.len() as int) == start,
                start.len() == before.len() + 1,
                start.take(before.len() as int) == before,
                start[before.len() as int] == key,
                printed_start.len() <= self.printed().len(),
                self.printed().take(printed_start.len() as int) == printed_start,
                printed_start.take(old(self).printed().len() as int) == old(self).printed(),
                old(self).printed().len() <= printed_start.len(),
                before == old(self).expansion@,
                r <= section.references@.len(),
                forall|j: int|
                    0 <= j < r ==> self.expansion@.contains(named(list, #[trigger] section@.references[j]) as u32),
            decreases section.references@.len() - r,
        {
            let ghost expansion_before = self.expansion@;
            let ghost printed_before = self.printed();
            proof {
                assert(section@.references[r as int] == section.references@[r as int]@);
                assert(list[key as int].references.contains(section@.references[r as int]));
                lemma_distinct_below(self.expansion@, list.len() as int);
            }
            self.recursively_expand(section.references[r].as_slice(), sections, Ghost(roots), Ghost(inner));
            proof {
                assert forall|j: int|
                    0 <= j < r + 1 implies self.expansion@.contains(named(list, #[trigger] section@.references[j]) as u32) by {
                    if j < r {
                        let k = choose|k: int| 0 <= k < expansion_before.len() && expansion_before[k] == named(list, section@.references[j]) as u32;
                        assert(self.expansion@[k] == expansion_before[k]);
                    }
                }
                assert(self.expansion@.take(start.len() as int) =~= start) by {
                    assert forall|k: int| 0 <= k < start.len() implies self.expansion@[k] == start[k] by {
                        assert(self.expansion@[k] == expansion_before[k]);
                    }
                }
                assert(self.printed().take(printed_start.len() as int) =~= printed_start) by {
                    assert forall|k: int| 0 <= k < printed_start.len() implies self.printed()[k] == printed_start[k] by {
                        assert(self.printed()[k] == printed_before[k]);
                    }
                }
            }
            r = r + 1;
        }
        let mut m: usize = 0;
        while m < section.mentions.len()
            invariant
                sections.resolved(),
                sections.well_formed(),
                library_closed(list, owners),
                list == sections.list(),
                owners == sections.owners(),
                list.len() <= u32::MAX,
                section@ == list[key as int],
                key == position,
                name@ == list[key as int].name,
                inner == path.push(key),
                path.len() == 0 ==> roots.contains(name@),
                path.len() > 0 ==> depends(list, owners, path.last() as int, name@),
                walking(list, owners, roots, inner, self.expansion@, self.expanded@, self.printed()),
                start.len() <= self.expansion@.len(),
                self.expansion@.take(start.len() as int) == start,
                start.len() == before.len() + 1,
                start.take(before.len() as int) == before,
                start[before.len() as int] == key,
                printed_start.len() <= self.printed().len(),
                self.printed().take(printed_start.len() as int) == printed_start,
                printed_start.take(old(self).printed().len() as int) == old(self).printed(),
                old(self).printed().len() <= printed_start.len(),
                before == old(self).expansion@,
                forall|j: int|
                    0 <= j < section@.references.len() ==> self.expansion@.contains(
                        named(list, #[trigger] section@.references[j]) as u32,
                    ),
                m <= section.mentions@.len(),
                forall|j: int, owner: Seq<u8>|
                    0 <= j < m && #[trigger] owners.contains((section@.mentions[j], owner)) && owner != name@
                        ==> self.expansion@.contains(named(list, owner) as u32),
            decreases section.mentions@.len() - m,
        {
            let ghost expansion_before = self.expansion@;
            let ghost printed_before = self.printed();
            proof {
                assert(section@.mentions[m as int] == section.mentions@[m as int]@);
            }
            match sections.owner(section.mentions[m].as_slice()) {
                Some(owner) => {
                    if compare_bytes(owner.as_slice(), name) != 0 {
                        proof {
                            let k = choose|k: int| 0 <= k < owners.len() && owners[k] == (section@.mentions[m as int], owner@);
                            assert(section_names(list).contains(owners[k].1));
                            assert(depends(list, owners, key as int, owner@));
                            lemma_distinct_below(self.expansion@, list.len() as int);
                        }
                        self.recursively_expand(owner.as_slice(), sections, Ghost(roots), Ghost(inner));
                    }
                    proof {
                        assert forall|j: int, other: Seq<u8>|
                            0 <= j < m + 1 && #[trigger] owners.contains((section@.mentions[j], other)) && other != name@
                                implies self.expansion@.contains(named(list, other) as u32) by {
                            if j < m {
                                let k = choose|k: int| 0 <= k < expansion_before.len() && expansion_before[k] == named(list, other) as u32;
                                assert(self.expansion@[k] == expansion_before[k]);
                            } else {
                                lemma_owner_unique(owners, section@.mentions[j], other, owner@);
                            }
                        }
                    }
                },
                None => {
                    proof {
                        assert forall|j: int, other: Seq<u8>|
                            0 <= j < m + 1 && #[trigger] owners.contains((section@.mentions[j], other)) && other != name@
                                implies self.expansion@.contains(named(list, other) as u32) by {
                            if j == m {
                                let k = choose|k: int| 0 <= k < owners.len() && owners[k] == (section@.mentions[j], other);
                                assert(owned_names(owners)[k] == section@.mentions[j]);
                            }
                        }
                    }
                },
            }
            proof {
                assert(self.expansion@.take(start.len() as int) =~= start) by {
                    assert forall|k: int| 0 <= k < start.len() implies self.expansion@[k] == start[k] by {
                        assert(self.expansion@[k] == expansion_before[k]);
                    }
                }
                assert(self.printed().take(printed_start.len() as int) =~= printed_start) by {
                    assert forall|k: int| 0 <= k < printed_start.len() implies self.printed()[k] == printed_start[k] by {
                        assert(self.printed()[k] == printed_before[k]);
                    }
                }
                assert forall|j: int|
                    0 <= j < section@.references.len() implies self.expansion@.contains(
                        named(list, #[trigger] section@.references[j]) as u32,
                    ) by {
                    let k = choose|k: int| 0 <= k < expansion_before.len() && expansion_before[k] == named(list, section@.references[j]) as u32;
                    assert(self.expansion@[k] == expansion_before[k]);
                }
            }
            m = m + 1;
        }
        let ghost expansion_done = self.expansion@;
        let ghost printed_done = self.printed();
        self.references.push(copy_name(name));
        proof {
            let printed = self.printed();
            let expansion = self.expansion@;
            let names = names_at(list, expansion);
            assert(printed =~= printed_done.push(name@));
            lemma_distinct_below(expansion, list.len() as int);
            lemma_names_at_distinct(list, expansion);
            assert(expansion[before.len() as int] == key) by {
                assert(expansion[before.len() as int] == start[before.len() as int]);
            }
            assert(names[before.len() as int] == name@);
            lemma_index_of_unique(names, before.len() as int);
            assert(!printed_done.contains(name@)) by {
                assert(inner[path.len() as int] == key);
            }
            assert(printed.no_duplicates());
            assert forall|k: int| 0 <= k < path.len() implies !printed.contains(list[#[trigger] path[k] as int].name) by {
                assert(inner[k] == path[k]);
                assert(!printed_done.contains(list[path[k] as int].name));
                assert(path[k] != key) by {
                    assert(before.contains(path[k]));
                }
                lemma_names_distinct(list);
            }
            assert forall|i: int| 0 <= i < printed.len() implies names.contains(#[trigger] printed[i]) by {
                if i == printed_done.len() {
                    assert(names[before.len() as int] == printed[i]);
                } else {
                    assert(printed[i] == printed_done[i]);
                }
            }
            assert forall|k: int|
                0 <= k < expansion.len() implies printed.contains(list[#[trigger] expansion[k] as int].name) || path.contains(
                expansion[k],
            ) by {
                if printed_done.contains(list[expansion[k] as int].name) {
                    let i = choose|i: int| 0 <= i < printed_done.len() && printed_done[i] == list[expansion[k] as int].name;
                    assert(printed[i] == printed_done[i]);
                } else {
                    assert(inner.contains(expansion[k]));
                    let j = choose|j: int| 0 <= j < inner.len() && inner[j] == expansion[k];
                    if j < path.len() {
                        assert(path[j] == inner[j]);
                    } else {
                        assert(printed[printed_done.len() as int] == name@);
                    }
                }
            }
            assert forall|i: int, dependency: Seq<u8>|
                0 <= i < printed.len() && #[trigger] depends(list, owners, named(list, printed[i]), dependency)
                    implies names.contains(dependency) by {
                if i < printed_done.len() {
                    assert(printed[i] == printed_done[i]);
                    let k = choose|k: int| 0 <= k < names_at(list, expansion_done).len() && names_at(list, expansion_done)[k] == dependency;
                    assert(names[k] == names_at(list, expansion_done)[k]);
                } else {
                    lemma_names_distinct(list);
                    assert(named(list, printed[i]) == key as int);
                    let d = named(list, dependency) as u32;
                    if list[key as int].references.contains(dependency) {
                        let j = choose|j: int| 0 <= j < section@.references.len() && section@.references[j] == dependency;
                        assert(expansion.contains(named(list, section@.references[j]) as u32));
                        let r = choose|r: int| 0 <= r < list[key as int].references.len() && list[key as int].references[r] == dependency;
                        assert(section_names(list).contains(list[key as int].references[r]));
                    } else {
                        let j = choose|j: int|
                            0 <= j < list[key as int].mentions.len() && owners.contains((#[trigger] list[key as int].mentions[j], dependency));
                        assert(section@.mentions[j] == list[key as int].mentions[j]);
                        let e = choose|e: int| 0 <= e < owners.len() && owners[e] == (list[key as int].mentions[j], dependency);
                        assert(section_names(list).contains(owners[e].1));
                        if dependency != name@ {
                            assert(expansion.contains(d));
                        } else {
                            assert(expansion[before.len() as int] == key);
                        }
                    }
                    lemma_named(list, dependency);
                    assert(expansion.contains(d));
                    let k = choose|k: int| 0 <= k < expansion.len() && expansion[k] == d;
                    assert(names[k] == dependency);
                }
            }
            assert forall|i: int, dependency: Seq<u8>|
                0 <= i < printed.len() && #[trigger] depends(list, owners, named(list, printed[i]), dependency)
                    && dependency != printed[i] implies {
                ||| exists|j: int| 0 <= j < i && printed[j] == dependency
                ||| reaches(list, owners, dependency, printed[i])
            } by {
                if i < printed_done.len() {
                    assert(printed[i] == printed_done[i]);
                    if exists|j: int| 0 <= j < i && printed_done[j] == dependency {
                        let j = choose|j: int| 0 <= j < i && printed_done[j] == dependency;
                        assert(printed[j] == printed_done[j]);
                    }
                } else {
                    lemma_names_distinct(list);
                    assert(named(list, printed[i]) == key as int);
                    assert(names.contains(dependency));
                    let k = choose|k: int| 0 <= k < names.len() && names[k] == dependency;
                    if printed_done.contains(dependency) {
                        let j = choose|j: int| 0 <= j < printed_done.len() && printed_done[j] == dependency;
                        assert(printed[j] == printed_done[j]);
                    } else {
                        assert(names[k] == list[expansion[k] as int].name);
                        assert(inner.contains(expansion[k]));
                        let j = choose|j: int| 0 <= j < inner.len() && inner[j] == expansion[k];
                        if j == path.len() {
                            assert(expansion[k] == key);
                            assert(dependency == name@);
                        } else {
                            assert(path[j] == inner[j]);
                            let chain = path.subrange(j, path.len() as int);
                            assert forall|c: int| 0 <= c < chain.len() implies #[trigger] chain[c] < list.len() by {
                                assert(chain[c] == path[j + c]);
                                assert(before.contains(path[j + c]));
                                let b = choose|b: int| 0 <= b < before.len() && before[b] == path[j + c];
                            }
                            assert forall|c: int|
                                1 <= c < chain.len() implies depends(list, owners, chain[c - 1] as int, list[#[trigger] chain[c] as int].name) by {
                                assert(chain[c] == path[j + c] && chain[c - 1] == path[j + c - 1]);
                                assert(inner[j + c] == path[j + c]);
                            }
                            assert(chain.last() == path.last());
                            assert(list[chain[0] as int].name == dependency);
                            assert(printed[i] == name@);
                        }
                    }
                }
            }
            assert(self.expansion@.take(before.len() as int) =~= before) by {
                assert forall|k: int| 0 <= k < before.len() implies self.expansion@[k] == before[k] by {
                    assert(self.expansion@[k] == start[k]);
                }
            }
            assert(printed.take(old(self).printed().len() as int) =~= old(self).printed()) by {
                assert forall|k: int| 0 <= k < old(self).printed().len() implies printed[k] == old(self).printed()[k] by {
                    assert(printed[k] == printed_done[k]);
                    assert(printed_done[k] == printed_start[k]);
                }
            }
            assert(expansion.contains(key));
        }
    }

    /// The library text of the resolved sections: the runtime table, then
    /// one `do ... end` block per section, in order, each binding from the
    /// table the names that earlier blocks published.
    pub fn print(&self, sections: &Sections) -> (text: Vec<u8>)
        requires
            sections.resolved(),
            forall|i: int|
                0 <= i < self.printed().len() ==> section_names(sections.list()).contains(#[trigger] self.printed()[i]),
            fits_scopes(sections.list(), self.printed()),
        ensures
            text@ == library_text(sections.list(), self.printed(), self.printed().len() as int),
    {
        let ghost list = sections.list();
        let ghost printed = self.printed();
        let mut out: Vec<u8> = Vec::new();
        let header = [
            0x6Cu8, 0x6F, 0x63, 0x61, 0x6C, 0x20, 0x72, 0x75, 0x6E, 0x74, 0x69, 0x6D, 0x65, 0x20, 0x3D, 0x20, 0x7B,
            0x7D, 0x0A, 0x0A,
        ];
        append(&mut out, &header);
        assert(out@ =~= library_header());
        let mut exported = empty_names();
        let mut i: usize = 0;
        while i < self.references.len()
            invariant
                list == sections.list(),
                printed == self.printed(),
                sections.resolved(),
                printed.len() == self.references@.len(),
                forall|k: int| 0 <= k < printed.len() ==> section_names(list).contains(#[trigger] printed[k]),
                fits_scopes(list, printed),
                i <= printed.len(),
                exported@ == exported_before(list, printed, i as int),
                out@ == library_text(list, printed, i as int),
            decreases printed.len() - i,
        {
            proof {
                assert(printed[i as int] == self.references@[i as int]@);
                // Names the section so that `fits_scopes` applies to it.
                let section = list[named(list, printed[i as int])];
            }
            print_named_section(sections, self.references[i].as_slice(), &mut exported, &mut out);
            i = i + 1;
        }
        out
    }

    /// The statement that binds again, after the library, every local that
    /// the sections named in `names` declare, followed by an empty line;
    /// nothing when they declare none.
    pub fn print_bindings(&self, names: &[&[u8]], sections: &Sections) -> (text: Vec<u8>)
        requires
            sections.resolved(),
            forall|i: int|
                0 <= i < names@.len() ==> section_names(sections.list()).contains(#[trigger] names@[i]@)
                    && self.printed().contains(names@[i]@),
            bindings(sections.list(), root_names(names@)).len() < MAX_ACTIVE_LOCALS,
        ensures
            text@ == local_list(bindings(sections.list(), root_names(names@)), Seq::empty()) + (if bindings(
                sections.list(),
                root_names(names@),
            ).len() > 0 {
                seq![0x0Au8]
            } else {
                Seq::empty()
            }),
    {
        let ghost list = sections.list();
        let ghost roots = root_names(names@);
        proof {
            lemma_names_distinct(list);
        }
        let mut found: Vec<Vec<u8>> = Vec::new();
        let mut i: usize = 0;
        while i < names.len()
            invariant
                list == sections.list(),
                roots == root_names(names@),
                sections.resolved(),
                forall|k: int| 0 <= k < names@.len() ==> section_names(list).contains(#[trigger] names@[k]@),
                forall|k: int| 0 <= k < list.len() ==> named(list, #[trigger] list[k].name) == k,
                i <= names@.len(),
                byte_names(found@) == bindings(list, roots.take(i as int)),
            decreases names@.len() - i,
        {
            let index = sections.position(names[i]);
            let section = sections.get(index);
            proof {
                assert(roots.take(i + 1).drop_last() =~= roots.take(i as int));
                assert(roots.take(i + 1).last() == names@[i as int]@);
                assert(named(list, names@[i as int]@) == index as int);
            }
            let ghost start = byte_names(found@);
            let mut j: usize = 0;
            while j < section.defines.len()
                invariant
                    j <= section.defines@.len(),
                    section@.defines.len() == section.defines@.len(),
                    byte_names(found@) == start + section@.defines.take(j as int),
                decreases section.defines@.len() - j,
            {
                let ghost earlier = found@;
                let copy = copy_name(section.defines[j].as_slice());
                found.push(copy);
                proof {
                    assert(found@.drop_last() =~= earlier);
                    assert(byte_names(found@) =~= byte_names(earlier).push(copy@));
                    assert(section@.defines.take(j + 1) =~= section@.defines.take(j as int).push(copy@));
                }
                j = j + 1;
            }
            proof {
                assert(section@.defines.take(j as int) =~= section@.defines);
            }
            i = i + 1;
        }
        proof {
            assert(roots.take(i as int) =~= roots);
        }
        let mut out: Vec<u8> = Vec::new();
        let indent: [u8; 0] = [];
        print_local_list(&found, &indent, &mut out);
        assert(indent@ =~= Seq::<u8>::empty());
        if found.len() > 0 {
            let newline = [0x0Au8];
            append(&mut out, &newline);
        }
        proof {
            assert(out@ =~= local_list(bindings(list, roots), Seq::empty()) + (if bindings(list, roots).len() > 0 {
                seq![0x0Au8]
            } else {
                Seq::empty()
            }));
        }
        out
    }
}

impl Default for Printer {
    fn default() -> (printer: Self)
        ensures
            printer.printed() == Seq::<Seq<u8>>::empty(),
    {
        Printer::new()
    }
}

} // verus!
