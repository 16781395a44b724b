use spider::allocator::index_provider::IndexProvider;
use spider::allocator::local_map::LocalMap;
use spider::allocator::local_provider::{LocalProvider, MAX_LOCAL_VARIABLES};
use spider::graph::Link;
use spider::tree::expression::{Local, Name};

#[test]
fn pulls_number_new_names_in_order() {
    let mut provider = IndexProvider::new();

    assert_eq!(provider.pull(10), 0);
    assert_eq!(provider.pull(11), 1);
    assert_eq!(provider.pull(12), 2);
    assert_eq!(provider.get_names(), 3);
}

#[test]
fn ended_holds_free_their_names_largest_first() {
    let mut provider = IndexProvider::new();

    provider.pull(1);
    provider.pull(5);
    provider.pull(7);
    provider.push_until(5);

    assert!(provider.should_exceed(1));
    assert!(!provider.should_exceed(2));
    assert_eq!(provider.pull(8), 2);
    assert_eq!(provider.pull(9), 1);
    assert_eq!(provider.pull(9), 3);
}

#[test]
fn only_free_names_are_revived() {
    let mut provider = IndexProvider::new();

    provider.pull(3);
    provider.pull(4);
    assert!(!provider.try_revive(0, 5));

    provider.push_until(4);
    assert!(provider.try_revive(1, 6));
    assert!(!provider.try_revive(1, 7));
}

#[test]
fn forgetting_names_keeps_the_count() {
    let mut provider = IndexProvider::new();

    provider.pull(0);
    provider.pull(0);
    provider.forget_names();

    assert_eq!(provider.get_names(), 2);
    assert!(!provider.should_exceed(1));
    assert_eq!(provider.pull(0), 2);

    provider.set_names(0);
    provider.forget_names();
    assert_eq!(provider.pull(0), 0);
}

#[test]
fn locals_spill_once_the_register_budget_is_used() {
    let mut provider = LocalProvider::new();
    let mut assignments = LocalMap::new();

    for id in 0..MAX_LOCAL_VARIABLES as u32 {
        provider.try_pull_into(&mut assignments, Link(id, 0));
    }

    assert_eq!(assignments.get(Link(0, 0)), Some(Local::Fast { name: Name { id: 0 } }));
    assert_eq!(assignments.get(Link(196, 0)), Some(Local::Fast { name: Name { id: 196 } }));

    provider.try_pull_into(&mut assignments, Link(500, 0));
    provider.try_pull_into(&mut assignments, Link(501, 0));

    assert_eq!(assignments.get(Link(500, 0)), Some(Local::Slow { offset: 0 }));
    assert_eq!(assignments.get(Link(501, 0)), Some(Local::Slow { offset: 1 }));
    assert_eq!(provider.get_names(), (197, 2));
}

#[test]
fn a_link_with_a_local_is_not_pulled_again() {
    let mut provider = LocalProvider::new();
    let mut assignments = LocalMap::new();

    provider.try_pull_into(&mut assignments, Link(3, 1));
    provider.try_pull_into(&mut assignments, Link(3, 1));

    assert_eq!(provider.get_names(), (1, 0));
    assert!(assignments.contains_key(Link(3, 1)));
    assert!(!assignments.contains_key(Link(3, 0)));
}

#[test]
fn a_freed_local_is_revived_for_its_consumer() {
    let mut provider = LocalProvider::new();
    let mut assignments = LocalMap::new();

    provider.try_pull_into(&mut assignments, Link(10, 0));

    // Still held: nothing to revive.
    assert!(!provider.try_revive_into(&mut assignments, Link(4, 0), Link(10, 0)));
    assert_eq!(assignments.get(Link(4, 0)), None);

    provider.push_until(10);
    assert!(provider.try_revive_into(&mut assignments, Link(4, 0), Link(10, 0)));
    assert_eq!(assignments.get(Link(4, 0)), assignments.get(Link(10, 0)));

    // No local to prefer.
    assert!(!provider.try_revive_into(&mut assignments, Link(2, 0), Link(9, 0)));
    // Already assigned.
    assert!(provider.try_revive_into(&mut assignments, Link(4, 0), Link(10, 0)));
}

#[test]
fn refresh_keeps_register_numbering_and_restarts_slots() {
    let mut provider = LocalProvider::new();
    let mut assignments = LocalMap::new();

    provider.try_pull_into(&mut assignments, Link(1, 0));
    provider.try_pull_into(&mut assignments, Link(2, 0));
    provider.refresh();
    assert_eq!(provider.get_names(), (2, 0));

    provider.clear();
    assert_eq!(provider.get_names(), (0, 0));

    assignments.clear();
    assert_eq!(assignments.get(Link(1, 0)), None);
}

#[test]
fn local_map_holds_the_last_assignment() {
    let mut assignments = LocalMap::new();

    assignments.insert(Link(7, 2), Local::Slow { offset: 3 });
    assignments.insert(Link(7, 2), Local::Fast { name: Name { id: 9 } });

    assert_eq!(assignments.get(Link(7, 2)), Some(Local::Fast { name: Name { id: 9 } }));
    assert_eq!(assignments.get(Link(2, 7)), None);
}

#[test]
fn fast_locals_name_their_register() {
    assert_eq!(Local::Fast { name: Name { id: 12 } }.into_name(), Name { id: 12 });
}
