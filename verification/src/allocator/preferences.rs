//! Preferences between links: which link's local another link would like to
//! share, kept in a link map, and the orderly ways they are recorded.

use vstd::prelude::*;

use crate::{graph::Link, visitor::link_map::LinkMap};

verus! {

/// `map` with `key` preferring `value`, unless `key` already has a preference.
pub open spec fn try_put(map: Map<u64, Link>, key: Link, value: Link) -> Map<u64, Link> {
    if map.contains_key(key.packed()) {
        map
    } else {
        map.insert(key.packed(), value)
    }
}

/// `map` with each pair's link preferring the pair's other link, in order,
/// a later pair overriding an earlier one.
pub open spec fn put_pairs(map: Map<u64, Link>, pairs: Seq<(Link, Link)>) -> Map<u64, Link>
    decreases pairs.len(),
{
    if pairs.len() == 0 {
        map
    } else {
        put_pairs(map, pairs.drop_last()).insert(pairs.last().0.packed(), pairs.last().1)
    }
}

/// `map` with each of `keys`, in order, preferring the port of `node` of the
/// same rank.
pub open spec fn put_zip(map: Map<u64, Link>, keys: Seq<Link>, node: u32) -> Map<u64, Link>
    decreases keys.len(),
{
    if keys.len() == 0 {
        map
    } else {
        put_zip(map, keys.drop_last(), node).insert(keys.last().packed(), Link(node, (keys.len() - 1) as u16))
    }
}

/// `map` with each of the first `count` ports of `node`, in order, given an
/// empty preference unless it has one.
pub open spec fn try_ports(map: Map<u64, Link>, node: u32, count: nat) -> Map<u64, Link>
    decreases count,
{
    if count == 0 {
        map
    } else {
        try_put(try_ports(map, node, (count - 1) as nat), Link(node, (count - 1) as u16), Link::spec_dangling())
    }
}

/// `map` with each of the first `count` ports of `from`, in order, preferring
/// the port of `to` of the same rank.
pub open spec fn put_port_pairs(map: Map<u64, Link>, from: u32, to: u32, count: nat) -> Map<u64, Link>
    decreases count,
{
    if count == 0 {
        map
    } else {
        put_port_pairs(map, from, to, (count - 1) as nat).insert(
            Link(from, (count - 1) as u16).packed(),
            Link(to, (count - 1) as u16),
        )
    }
}

/// Gives `key` the preference `value`, unless it has one.
pub fn try_insert(map: &mut LinkMap, key: Link, value: Link)
    ensures
        final(map)@ == try_put(old(map)@, key, value),
{
    if !map.contains_key(key.into_u64()) {
        map.insert(key.into_u64(), value);
    }
}

/// Makes `key` prefer `value`.
pub fn put(map: &mut LinkMap, key: Link, value: Link)
    ensures
        final(map)@ == old(map)@.insert(key.packed(), value),
{
    map.insert(key.into_u64(), value);
}

/// Makes each of `keys`, in order, prefer the port of `node` of the same rank.
pub fn put_all_zip(map: &mut LinkMap, keys: &[Link], node: u32)
    requires
        keys@.len() <= u16::MAX,
    ensures
        final(map)@ == put_zip(old(map)@, keys@, node),
{
    let mut k: usize = 0;
    while k < keys.len()
        invariant
            keys@.len() <= u16::MAX,
            k <= keys@.len(),
            map@ == put_zip(old(map)@, keys@.subrange(0, k as int), node),
        decreases keys@.len() - k,
    {
        put(map, keys[k], Link(node, k as u16));
        k = k + 1;
        assert(keys@.subrange(0, k as int).drop_last() =~= keys@.subrange(0, k - 1));
    }
    assert(keys@.subrange(0, k as int) =~= keys@);
}

/// Gives each of the first `count` ports of `node` an empty preference,
/// unless it has one.
pub fn try_insert_ports(map: &mut LinkMap, node: u32, count: u16)
    ensures
        final(map)@ == try_ports(old(map)@, node, count as nat),
{
    let mut port: u16 = 0;
    while port < count
        invariant
            port <= count,
            map@ == try_ports(old(map)@, node, port as nat),
        decreases count - port,
    {
        try_insert(map, Link(node, port), Link::dangling());
        port = port + 1;
    }
}

/// Makes each of the first `count` ports of `from` prefer the port of `to` of
/// the same rank.
pub fn put_all_port_pairs(map: &mut LinkMap, from: u32, to: u32, count: u16)
    ensures
        final(map)@ == put_port_pairs(old(map)@, from, to, count as nat),
{
    let mut port: u16 = 0;
    while port < count
        invariant
            port <= count,
            map@ == put_port_pairs(old(map)@, from, to, port as nat),
        decreases count - port,
    {
        put(map, Link(from, port), Link(to, port));
        port = port + 1;
    }
}

} // verus!
