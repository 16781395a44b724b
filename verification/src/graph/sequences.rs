//! Sequence views of the link and identifier lists that nodes hold, and the
//! loops that copy them out of and back into those lists.

use vstd::prelude::*;

use crate::graph::{control::Export, link::Link};

verus! {

/// The node identifiers of a sequence of links.
pub open spec fn link_ids(links: Seq<Link>) -> Seq<u32> {
    links.map_values(|link: Link| link.0)
}

/// The output ports of a sequence of links.
pub open spec fn link_ports(links: Seq<Link>) -> Seq<u16> {
    links.map_values(|link: Link| link.1)
}

/// The links exported by a sequence of exports.
pub open spec fn export_references(exports: Seq<Export>) -> Seq<Link> {
    exports.map_values(|export: Export| export.reference)
}

/// The names of a sequence of exports.
pub open spec fn export_identifiers(exports: Seq<Export>) -> Seq<String> {
    exports.map_values(|export: Export| export.identifier)
}

/// The element links of a table initializer.
pub open spec fn table_links(initializer: Seq<(Link, u32)>) -> Seq<Link> {
    initializer.map_values(|item: (Link, u32)| item.0)
}

/// The element offsets of a table initializer.
pub open spec fn table_offsets(initializer: Seq<(Link, u32)>) -> Seq<u32> {
    initializer.map_values(|item: (Link, u32)| item.1)
}

/// Appends `links` to `out`.
pub fn push_links(out: &mut Vec<Link>, links: &Vec<Link>)
    ensures
        final(out)@ == old(out)@ + links@,
{
    let ghost start = out@;
    let mut i: usize = 0;
    while i < links.len()
        invariant
            i <= links@.len(),
            out@ == start + links@.subrange(0, i as int),
        decreases links@.len() - i,
    {
        out.push(links[i]);
        i = i + 1;
        assert(links@.subrange(0, i as int) =~= links@.subrange(0, i - 1) + seq![links@[i - 1]]);
    }
    assert(links@.subrange(0, i as int) =~= links@);
}

/// Appends `ids` to `out`.
pub fn push_ids(out: &mut Vec<u32>, ids: &Vec<u32>)
    ensures
        final(out)@ == old(out)@ + ids@,
{
    let ghost start = out@;
    let mut i: usize = 0;
    while i < ids.len()
        invariant
            i <= ids@.len(),
            out@ == start + ids@.subrange(0, i as int),
        decreases ids@.len() - i,
    {
        out.push(ids[i]);
        i = i + 1;
        assert(ids@.subrange(0, i as int) =~= ids@.subrange(0, i - 1) + seq![ids@[i - 1]]);
    }
    assert(ids@.subrange(0, i as int) =~= ids@);
}

/// Appends the node identifiers of `links` to `out`.
pub fn push_link_ids(out: &mut Vec<u32>, links: &Vec<Link>)
    ensures
        final(out)@ == old(out)@ + link_ids(links@),
{
    let ghost start = out@;
    let mut i: usize = 0;
    while i < links.len()
        invariant
            i <= links@.len(),
            out@ == start + link_ids(links@.subrange(0, i as int)),
        decreases links@.len() - i,
    {
        out.push(links[i].0);
        i = i + 1;
        assert(link_ids(links@.subrange(0, i as int)) =~= link_ids(links@.subrange(0, i - 1))
            + seq![links@[i - 1].0]);
    }
    assert(links@.subrange(0, i as int) =~= links@);
}

/// Appends the links that `exports` export to `out`.
pub fn push_export_links(out: &mut Vec<Link>, exports: &Vec<Export>)
    ensures
        final(out)@ == old(out)@ + export_references(exports@),
{
    let ghost start = out@;
    let mut i: usize = 0;
    while i < exports.len()
        invariant
            i <= exports@.len(),
            out@ == start + export_references(exports@.subrange(0, i as int)),
        decreases exports@.len() - i,
    {
        out.push(exports[i].reference);
        i = i + 1;
        assert(export_references(exports@.subrange(0, i as int)) =~= export_references(
            exports@.subrange(0, i - 1),
        ) + seq![exports@[i - 1].reference]);
    }
    assert(exports@.subrange(0, i as int) =~= exports@);
}

/// Appends the node identifiers of the links that `exports` export to `out`.
pub fn push_export_ids(out: &mut Vec<u32>, exports: &Vec<Export>)
    ensures
        final(out)@ == old(out)@ + link_ids(export_references(exports@)),
{
    let ghost start = out@;
    let mut i: usize = 0;
    while i < exports.len()
        invariant
            i <= exports@.len(),
            out@ == start + link_ids(export_references(exports@.subrange(0, i as int))),
        decreases exports@.len() - i,
    {
        out.push(exports[i].reference.0);
        i = i + 1;
        assert(link_ids(export_references(exports@.subrange(0, i as int))) =~= link_ids(
            export_references(exports@.subrange(0, i - 1)),
        ) + seq![exports@[i - 1].reference.0]);
    }
    assert(exports@.subrange(0, i as int) =~= exports@);
}

/// Appends the element links of a table initializer to `out`.
pub fn push_table_links(out: &mut Vec<Link>, initializer: &Vec<(Link, u32)>)
    ensures
        final(out)@ == old(out)@ + table_links(initializer@),
{
    let ghost start = out@;
    let mut i: usize = 0;
    while i < initializer.len()
        invariant
            i <= initializer@.len(),
            out@ == start + table_links(initializer@.subrange(0, i as int)),
        decreases initializer@.len() - i,
    {
        out.push(initializer[i].0);
        i = i + 1;
        assert(table_links(initializer@.subrange(0, i as int)) =~= table_links(
            initializer@.subrange(0, i - 1),
        ) + seq![initializer@[i - 1].0]);
    }
    assert(initializer@.subrange(0, i as int) =~= initializer@);
}

/// Appends the node identifiers of a table initializer's element links to `out`.
pub fn push_table_ids(out: &mut Vec<u32>, initializer: &Vec<(Link, u32)>)
    ensures
        final(out)@ == old(out)@ + link_ids(table_links(initializer@)),
{
    let ghost start = out@;
    let mut i: usize = 0;
    while i < initializer.len()
        invariant
            i <= initializer@.len(),
            out@ == start + link_ids(table_links(initializer@.subrange(0, i as int))),
        decreases initializer@.len() - i,
    {
        out.push(initializer[i].0.0);
        i = i + 1;
        assert(link_ids(table_links(initializer@.subrange(0, i as int))) =~= link_ids(
            table_links(initializer@.subrange(0, i - 1)),
        ) + seq![initializer@[i - 1].0.0]);
    }
    assert(initializer@.subrange(0, i as int) =~= initializer@);
}

/// Overwrites `links` with the same number of links of `new`, read from `start` on.
pub fn set_links(links: &mut Vec<Link>, new: &[Link], start: usize)
    requires
        start + old(links)@.len() <= new@.len(),
    ensures
        final(links)@ == new@.subrange(start as int, start + old(links)@.len()),
{
    let ghost len = links@.len();
    let total: usize = new.len();
    let mut i: usize = 0;
    while i < links.len()
        invariant
            total == new@.len(),
            links@.len() == len,
            start + len <= new@.len(),
            i <= len,
            forall|j: int| 0 <= j < i ==> links@[j] == new@[start + j],
        decreases len - i,
    {
        links[i] = new[start + i];
        i = i + 1;
    }
    assert(links@ =~= new@.subrange(start as int, start + len));
}

/// Overwrites the exported links of `exports` with links of `new`, read from
/// `start` on, keeping every export's name.
pub fn set_export_links(exports: &mut Vec<Export>, new: &[Link], start: usize)
    requires
        start + old(exports)@.len() <= new@.len(),
    ensures
        final(exports)@.len() == old(exports)@.len(),
        export_references(final(exports)@) == new@.subrange(
            start as int,
            start + old(exports)@.len(),
        ),
        export_identifiers(final(exports)@) == export_identifiers(old(exports)@),
{
    let ghost previous = exports@;
    let ghost len = exports@.len();
    let total: usize = new.len();
    let mut i: usize = 0;
    while i < exports.len()
        invariant
            total == new@.len(),
            exports@.len() == len,
            previous.len() == len,
            start + len <= new@.len(),
            i <= len,
            forall|j: int| 0 <= j < i ==> exports@[j].reference == new@[start + j],
            forall|j: int| 0 <= j < len ==> exports@[j].identifier == previous[j].identifier,
        decreases len - i,
    {
        exports[i].reference = new[start + i];
        i = i + 1;
    }
    assert(export_references(exports@) =~= new@.subrange(start as int, start + len));
    assert(export_identifiers(exports@) =~= export_identifiers(previous));
}

/// Overwrites the element links of a table initializer with links of `new`,
/// read from `start` on, keeping every element's offset.
pub fn set_table_links(initializer: &mut Vec<(Link, u32)>, new: &[Link], start: usize)
    requires
        start + old(initializer)@.len() <= new@.len(),
    ensures
        final(initializer)@.len() == old(initializer)@.len(),
        table_links(final(initializer)@) == new@.subrange(
            start as int,
            start + old(initializer)@.len(),
        ),
        table_offsets(final(initializer)@) == table_offsets(old(initializer)@),
{
    let ghost previous = initializer@;
    let ghost len = initializer@.len();
    let total: usize = new.len();
    let mut i: usize = 0;
    while i < initializer.len()
        invariant
            total == new@.len(),
            initializer@.len() == len,
            previous.len() == len,
            start + len <= new@.len(),
            i <= len,
            forall|j: int| 0 <= j < i ==> initializer@[j].0 == new@[start + j],
            forall|j: int| 0 <= j < len ==> initializer@[j].1 == previous[j].1,
        decreases len - i,
    {
        let offset: u32 = initializer[i].1;
        initializer[i] = (new[start + i], offset);
        i = i + 1;
    }
    assert(table_links(initializer@) =~= new@.subrange(start as int, start + len));
    assert(table_offsets(initializer@) =~= table_offsets(previous));
}

/// Overwrites `ids` with the same number of identifiers of `new`, read from `start` on.
pub fn set_ids(ids: &mut Vec<u32>, new: &[u32], start: usize)
    requires
        start + old(ids)@.len() <= new@.len(),
    ensures
        final(ids)@ == new@.subrange(start as int, start + old(ids)@.len()),
{
    let ghost len = ids@.len();
    let total: usize = new.len();
    let mut i: usize = 0;
    while i < ids.len()
        invariant
            total == new@.len(),
            ids@.len() == len,
            start + len <= new@.len(),
            i <= len,
            forall|j: int| 0 <= j < i ==> ids@[j] == new@[start + j],
        decreases len - i,
    {
        ids[i] = new[start + i];
        i = i + 1;
    }
    assert(ids@ =~= new@.subrange(start as int, start + len));
}

/// Points each of `links` at the node of the same rank in `new`, read from
/// `start` on, keeping every link's port.
pub fn set_link_ids(links: &mut Vec<Link>, new: &[u32], start: usize)
    requires
        start + old(links)@.len() <= new@.len(),
    ensures
        final(links)@.len() == old(links)@.len(),
        link_ids(final(links)@) == new@.subrange(start as int, start + old(links)@.len()),
        link_ports(final(links)@) == link_ports(old(links)@),
{
    let ghost previous = links@;
    let ghost len = links@.len();
    let total: usize = new.len();
    let mut i: usize = 0;
    while i < links.len()
        invariant
            total == new@.len(),
            links@.len() == len,
            previous.len() == len,
            start + len <= new@.len(),
            i <= len,
            forall|j: int| 0 <= j < i ==> links@[j].0 == new@[start + j],
            forall|j: int| 0 <= j < len ==> links@[j].1 == previous[j].1,
        decreases len - i,
    {
        let port: u16 = links[i].1;
        links[i] = Link(new[start + i], port);
        i = i + 1;
    }
    assert(link_ids(links@) =~= new@.subrange(start as int, start + len));
    assert(link_ports(links@) =~= link_ports(previous));
}

/// Points the exported links of `exports` at the nodes of `new`, read from
/// `start` on, keeping every export's port and name.
pub fn set_export_ids(exports: &mut Vec<Export>, new: &[u32], start: usize)
    requires
        start + old(exports)@.len() <= new@.len(),
    ensures
        final(exports)@.len() == old(exports)@.len(),
        link_ids(export_references(final(exports)@)) == new@.subrange(
            start as int,
            start + old(exports)@.len(),
        ),
        link_ports(export_references(final(exports)@)) == link_ports(
            export_references(old(exports)@),
        ),
        export_identifiers(final(exports)@) == export_identifiers(old(exports)@),
{
    let ghost previous = exports@;
    let ghost len = exports@.len();
    let total: usize = new.len();
    let mut i: usize = 0;
    while i < exports.len()
        invariant
            total == new@.len(),
            exports@.len() == len,
            previous.len() == len,
            start + len <= new@.len(),
            i <= len,
            forall|j: int| 0 <= j < i ==> exports@[j].reference.0 == new@[start + j],
            forall|j: int| 0 <= j < len ==> exports@[j].reference.1 == previous[j].reference.1,
            forall|j: int| 0 <= j < len ==> exports@[j].identifier == previous[j].identifier,
        decreases len - i,
    {
        let port: u16 = exports[i].reference.1;
        exports[i].reference = Link(new[start + i], port);
        i = i + 1;
    }
    assert(link_ids(export_references(exports@)) =~= new@.subrange(start as int, start + len));
    assert(link_ports(export_references(exports@)) =~= link_ports(export_references(previous)));
    assert(export_identifiers(exports@) =~= export_identifiers(previous));
}

/// Points the element links of a table initializer at the nodes of `new`, read
/// from `start` on, keeping every element's port and offset.
pub fn set_table_ids(initializer: &mut Vec<(Link, u32)>, new: &[u32], start: usize)
    requires
        start + old(initializer)@.len() <= new@.len(),
    ensures
        final(initializer)@.len() == old(initializer)@.len(),
        link_ids(table_links(final(initializer)@)) == new@.subrange(
            start as int,
            start + old(initializer)@.len(),
        ),
        link_ports(table_links(final(initializer)@)) == link_ports(
            table_links(old(initializer)@),
        ),
        table_offsets(final(initializer)@) == table_offsets(old(initializer)@),
{
    let ghost previous = initializer@;
    let ghost len = initializer@.len();
    let total: usize = new.len();
    let mut i: usize = 0;
    while i < initializer.len()
        invariant
            total == new@.len(),
            initializer@.len() == len,
            previous.len() == len,
            start + len <= new@.len(),
            i <= len,
            forall|j: int| 0 <= j < i ==> initializer@[j].0.0 == new@[start + j],
            forall|j: int| 0 <= j < len ==> initializer@[j].0.1 == previous[j].0.1,
            forall|j: int| 0 <= j < len ==> initializer@[j].1 == previous[j].1,
        decreases len - i,
    {
        let port: u16 = initializer[i].0.1;
        let offset: u32 = initializer[i].1;
        initializer[i] = (Link(new[start + i], port), offset);
        i = i + 1;
    }
    assert(link_ids(table_links(initializer@)) =~= new@.subrange(start as int, start + len));
    assert(link_ports(table_links(initializer@)) =~= link_ports(table_links(previous)));
    assert(table_offsets(initializer@) =~= table_offsets(previous));
}

} // verus!
