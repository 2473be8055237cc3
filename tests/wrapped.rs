use located::{Located, PathLocated, Position};
use std::collections::hash_map::DefaultHasher;
use std::hash::{Hash, Hasher};
use std::path::PathBuf;

fn hash_of<T: Hash>(t: &T) -> u64 {
    let mut h = DefaultHasher::new();
    t.hash(&mut h);
    h.finish()
}

#[test]
fn equality_ignores_position() {
    let x = Located::new(7u32, Position::new(0..1, 0..2));
    let y = Located::new(7u32, Position::new(5..9, 3..4));
    assert!(x == y);
    assert!(Located::new(7u32, Position::new(0..1, 0..2)) != Located::new(8u32, Position::new(0..1, 0..2)));
}

#[test]
fn equal_located_values_may_hash_differently() {
    // Hashing covers the span while `==` does not: such values are not
    // fit as keys of hashed collections.
    let x = Located::new(7u32, Position::new(0..1, 0..2));
    let y = Located::new(7u32, Position::new(5..9, 3..4));
    assert!(x == y);
    assert_ne!(hash_of(&x), hash_of(&y));
}

#[test]
fn path_located_equality_ignores_position_and_path() {
    let x = PathLocated::new("a", Position::new(0..1, 0..2), PathBuf::from("x.src"));
    let y = PathLocated::new("a", Position::new(2..3, 1..2), PathBuf::from("y.src"));
    assert!(x == y);
    assert_ne!(hash_of(&x), hash_of(&y));
}

#[test]
fn map_keeps_position() {
    let loc = Located::new(20i64, Position::new(2..3, 4..8));
    let mapped = loc.map(|v| v * 2 + 1);
    assert_eq!(mapped.value, 41);
    assert_eq!(mapped.pos, Position::new(2..3, 4..8));
}

#[test]
fn path_located_map_keeps_position_and_path() {
    let loc = PathLocated::new("ab", Position::new(1..1, 0..2), PathBuf::from("src/m.x"));
    let mapped = loc.map(|s: &str| s.len());
    assert_eq!(mapped.value, 2);
    assert_eq!(mapped.pos, Position::new(1..1, 0..2));
    assert_eq!(mapped.path, PathBuf::from("src/m.x"));
}

#[test]
fn with_path_keeps_value_and_position() {
    let loc = Located::new(String::from("name"), Position::new(3..4, 1..5));
    let p = loc.with_path(PathBuf::from("lib/a.x"));
    assert_eq!(p.value, "name");
    assert_eq!(p.pos, Position::new(3..4, 1..5));
    assert_eq!(p.path, PathBuf::from("lib/a.x"));
}

#[test]
fn new_default_is_at_origin() {
    let loc = Located::new_default('q');
    assert_eq!(loc.value, 'q');
    assert_eq!(loc.pos, Position::default());
}

#[test]
fn default_pos_holds_default_value() {
    let loc: Located<u8> = Located::default_pos(Position::new(1..2, 3..4));
    assert_eq!(loc.value, 0);
    assert_eq!(loc.pos, Position::new(1..2, 3..4));
    let d: Located<String> = Located::default();
    assert_eq!(d.value, "");
    assert_eq!(d.pos, Position::new(0..0, 0..0));
}

#[test]
fn clones_keep_value_position_and_path() {
    let loc = Located::new(vec![1u8, 2], Position::new(0..1, 1..2));
    let c = loc.clone();
    assert_eq!(c.value, vec![1u8, 2]);
    assert_eq!(c.pos, loc.pos);
    let p = PathLocated::new(3u16, Position::new(4..4, 0..9), PathBuf::from("q.x"));
    let pc = p.clone();
    assert_eq!(pc.value, 3);
    assert_eq!(pc.pos, p.pos);
    assert_eq!(pc.path, p.path);
}

#[test]
fn text_shows_value_only() {
    let loc = Located::new(42u32, Position::new(7..8, 1..3));
    assert_eq!(loc.to_string(), "42");
    let p = loc.with_path(PathBuf::from("m.x"));
    assert_eq!(p.to_string(), "42");
}
