use spider::graph::Link;

/// The mask a `usize` sized key would be truncated to on a 32-bit platform.
const NARROW_MASK: u64 = 0xFFFF_FFFF;

#[test]
fn key_is_wide_enough_for_every_link() {
    let key = Link::dangling().into_u64();

    assert_eq!(key >> u16::BITS, u64::from(u32::MAX));
    assert_eq!(key & u64::from(u16::MAX), u64::from(u16::MAX));
}

#[test]
fn key_round_trips_both_fields() {
    let link = Link(0xDEAD_BEEF, 0x1234);
    let key = link.into_u64();

    assert_eq!(key >> u16::BITS, u64::from(link.0));
    assert_eq!(key & 0xFFFF, u64::from(link.1));
}

#[test]
fn keys_do_not_collide_across_port_width() {
    let low = Link(0, 0);
    let high = Link(0x1_0000, 0);

    assert_ne!(low.into_u64(), high.into_u64());

    // Truncating the key to the width of a 32-bit `usize` is what would make
    // these two links share a key.
    assert_eq!(low.into_u64() & NARROW_MASK, high.into_u64() & NARROW_MASK);

    assert_ne!(low.into_usize(), high.into_usize());
}

#[test]
fn key_packs_node_above_port() {
    assert_eq!(Link(1, 0).into_u64(), 0x1_0000);
    assert_eq!(Link(2, 3).into_u64(), 0x2_0003);
    assert_eq!(Link(0, 0xFFFF).into_u64(), 0xFFFF);
    assert_eq!(Link(5, 7).into_usize(), 0x5_0007);
}

#[test]
fn dangling_link_is_the_largest_link() {
    assert_eq!(Link::dangling(), Link(u32::MAX, u16::MAX));
    assert_eq!(Link::dangling().into_u64(), 0xFFFF_FFFF_FFFF);
}
