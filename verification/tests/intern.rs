use std::hash::Hash;
use std::hash::Hasher;

use atom_intern::Atom;
use atom_intern::AtomRegistry;
use atom_intern::AtomTable;
use atom_intern::IntoAtom;

#[test]
fn atom_new_keeps_content() {
    let a = Atom::new("hello world");
    assert_eq!(a.as_str(), "hello world");
    let b = Atom::new("");
    assert_eq!(b.as_str(), "");
}

#[test]
fn atom_to_string_copies_content() {
    let a = Atom::new("copy me");
    let s = a.to_string();
    assert_eq!(s, String::from("copy me"));
    assert_eq!(a.as_str(), "copy me");
}

#[test]
fn atom_equality_is_content_based() {
    let a = Atom::new("same");
    let b = Atom::new("same");
    let c = Atom::new("other");
    assert!(a == b);
    assert!(a != c);
    // Content-equal, but built separately: no shared allocation.
    assert!(!a.ptr_eq(&b));
    assert!(a.ptr_eq(&a));
}

#[test]
fn atom_hash_is_content_based() {
    let a = Atom::new("hashed");
    let b = Atom::new("hashed");
    let mut ha = std::collections::hash_map::DefaultHasher::new();
    let mut hb = std::collections::hash_map::DefaultHasher::new();
    a.hash(&mut ha);
    b.hash(&mut hb);
    assert_eq!(ha.finish(), hb.finish());
}

#[test]
fn atom_clone_shares_allocation() {
    let a = Atom::new("shared");
    let b = a.clone();
    assert_eq!(b.as_str(), "shared");
    assert!(a.ptr_eq(&b));
}

#[test]
fn atom_default_is_empty() {
    let a = Atom::default();
    assert_eq!(a.as_str(), "");
}

#[test]
fn into_atom_conversions() {
    let a = "from a slice".into_atom();
    assert_eq!(a.as_str(), "from a slice");
    let b = String::from("from a string").into_atom();
    assert_eq!(b.as_str(), "from a string");
    let c = a.clone().into_atom();
    assert_eq!(c.as_str(), "from a slice");
    assert!(c.ptr_eq(&a));
}

#[test]
fn weak_upgrade_while_alive() {
    let a = Atom::new("still here");
    let w = a.as_weak();
    let up = w.upgrade().expect("a strong atom is alive");
    assert_eq!(up.as_str(), "still here");
    assert!(up.ptr_eq(&a));
}

#[test]
fn weak_upgrade_fails_after_drop() {
    let a = Atom::new("short-lived");
    let w = a.as_weak();
    drop(a);
    assert!(w.upgrade().is_none());
}

#[test]
fn register_keeps_content() {
    let mut r = AtomRegistry::new();
    let a = r.register("foo");
    assert_eq!(a.as_str(), "foo");
    let b = r.register("a much longer string than the rest");
    assert_eq!(b.as_str(), "a much longer string than the rest");
}

#[test]
fn register_twice_shares_allocation() {
    let mut r = AtomRegistry::new();
    let a = r.register("dedup");
    let b = r.register("dedup");
    assert!(a == b);
    assert!(a.ptr_eq(&b));
}

#[test]
fn registry_clones_share_the_table() {
    let mut r1 = AtomRegistry::new();
    let mut r2 = r1.clone();
    let a = r1.register("seen by both");
    let b = r2.register("seen by both");
    assert!(a.ptr_eq(&b));
}

#[test]
fn resurrection_after_all_atoms_drop() {
    let mut r = AtomRegistry::new();
    let a = r.register("revive me");
    let w = a.as_weak();
    drop(a);
    // The old allocation is gone: its non-owning reference no longer upgrades.
    assert!(w.upgrade().is_none());
    let c = r.register("revive me");
    assert_eq!(c.as_str(), "revive me");
    // The new atom is a fresh allocation, not the dead one.
    let w2 = c.as_weak();
    assert!(w2.upgrade().is_some());
}

#[test]
fn unregister_forces_a_fresh_allocation() {
    let mut r = AtomRegistry::new();
    let a = r.register("evicted");
    r.unregister("evicted");
    let b = r.register("evicted");
    assert!(a == b);
    assert!(!a.ptr_eq(&b));
}

#[test]
fn unregister_leaves_held_atoms_alone() {
    let mut r = AtomRegistry::new();
    let a = r.register("still mine");
    r.unregister("still mine");
    assert_eq!(a.as_str(), "still mine");
}

#[test]
fn unregister_of_absent_key_is_a_no_op() {
    let mut r = AtomRegistry::new();
    r.unregister("never seen");
    let a = r.register("never seen");
    assert_eq!(a.as_str(), "never seen");
}

#[test]
fn empty_string_is_seeded() {
    let mut r = AtomRegistry::new();
    let a = r.register("");
    let b = r.register("");
    assert_eq!(a.as_str(), "");
    // Both hits land on the table's own seeded empty allocation.
    assert!(a.ptr_eq(&b));
}

#[test]
fn register_foo_twice_then_again_after_drop() {
    let mut r = AtomRegistry::new();
    let a = r.register("foo");
    let b = r.register("foo");
    assert!(a == b);
    drop(a);
    drop(b);
    let c = r.register("foo");
    assert_eq!(c.as_str(), "foo");
}

#[test]
fn independent_registries_never_share() {
    let mut r1 = AtomRegistry::new();
    let mut r2 = AtomRegistry::new();
    let a = r1.register("twin");
    let b = r2.register("twin");
    assert!(a == b);
    assert!(!a.ptr_eq(&b));
}

#[test]
fn table_interns_directly() {
    let mut t = AtomTable::new();
    let a = t.register("direct");
    let b = t.register("direct");
    assert_eq!(a.as_str(), "direct");
    assert!(a.ptr_eq(&b));
    t.unregister("direct");
    let c = t.register("direct");
    assert!(!c.ptr_eq(&a));
    assert_eq!(c.as_str(), "direct");
}

#[test]
fn table_seeds_the_empty_string() {
    let mut t = AtomTable::new();
    let a = t.register("");
    let b = t.register("");
    assert_eq!(a.as_str(), "");
    assert!(a.ptr_eq(&b));
}
