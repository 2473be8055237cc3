//! Values paired with the span they came from, and optionally with the path
//! of the file that holds that span.
use crate::position::Position;
use std::path::PathBuf;
use vstd::laws_eq::obeys_concrete_eq;
use vstd::std_specs::cmp::PartialEqSpec;
use vstd::prelude::*;

verus! {

/// File paths of std; opaque here, only carried along.
#[verifier::external_type_specification]
#[verifier::external_body]
pub struct ExPathBuf(PathBuf);

/// Relies on `PathBuf::clone`: a copy of the same path.
#[verifier::external_body]
fn clone_path(path: &PathBuf) -> (r: PathBuf)
    ensures
        r == *path,
{
    path.clone()
}

/// A value with the span it came from. `==` compares the values alone;
/// hashing covers the span too, so two equal located values may hash
/// differently: they are not fit as keys of hashed collections.
#[derive(Hash)]
pub struct Located<T> {
    pub value: T,
    pub pos: Position,
}

/// A value with its span and the path of its file. `==` compares the values
/// alone; hashing covers the span and the path too, so two equal values may
/// hash differently.
#[derive(Hash)]
pub struct PathLocated<T> {
    pub value: T,
    pub pos: Position,
    pub path: PathBuf,
}

impl<T> Located<T> {
    /// Pairs `value` with the span `pos`.
    pub fn new(value: T, pos: Position) -> (r: Located<T>)
        ensures
            r.value == value,
            r.pos == pos,
    {
        Located { value, pos }
    }

    /// A located value at the empty span `0..0`, `0..0`.
    pub fn new_default(value: T) -> (r: Located<T>)
        ensures
            r.value == value,
            r.pos == Position::origin(),
    {
        Located { value, pos: Position::default() }
    }

    /// Applies `f` to the value; the span is kept.
    pub fn map<U, F: Fn(T) -> U>(self, f: F) -> (r: Located<U>)
        requires
            f.requires((self.value,)),
        ensures
            f.ensures((self.value,), r.value),
            r.pos == self.pos,
    {
        Located { value: f(self.value), pos: self.pos }
    }

    /// The same value and span, with the path of their file.
    pub fn with_path(self, path: PathBuf) -> (r: PathLocated<T>)
        ensures
            r.value == self.value,
            r.pos == self.pos,
            r.path == path,
    {
        PathLocated { value: self.value, pos: self.pos, path }
    }
}

impl<T: std::fmt::Display> Located<T> {
    /// The value's text; the span is not shown.
    pub fn to_string(&self) -> (r: String)
        ensures
            vstd::string::to_string_from_display_ensures::<T>(&self.value, r),
    {
        self.value.to_string()
    }
}

impl<T: Default> Located<T> {
    /// `T`'s default value at the span `pos`.
    pub fn default_pos(pos: Position) -> (r: Located<T>)
        ensures
            call_ensures(T::default, (), r.value),
            r.pos == pos,
    {
        Located { value: T::default(), pos }
    }
}

impl<T: Default> Default for Located<T> {
    fn default() -> (r: Located<T>)
        ensures
            call_ensures(T::default, (), r.value),
            r.pos == Position::origin(),
    {
        Located { value: T::default(), pos: Position::default() }
    }
}

impl<T: Clone> Clone for Located<T> {
    fn clone(&self) -> (r: Located<T>)
        ensures
            call_ensures(T::clone, (&self.value,), r.value),
            r.pos == self.pos,
    {
        Located { value: self.value.clone(), pos: self.pos.clone() }
    }
}

impl<T: PartialEq> PartialEq for Located<T> {
    /// Compares the values alone.
    fn eq(&self, other: &Located<T>) -> (r: bool) {
        self.value == other.value
    }
}

impl<T: PartialEq> vstd::std_specs::cmp::PartialEqSpecImpl for Located<T> {
    open spec fn obeys_eq_spec() -> bool {
        <T as PartialEqSpec>::obeys_eq_spec()
    }

    open spec fn eq_spec(&self, other: &Located<T>) -> bool {
        self.value.eq_spec(&other.value)
    }
}

impl<T: Eq> Eq for Located<T> {

}

impl<T> PathLocated<T> {
    /// Pairs `value` with the span `pos` in the file at `path`.
    pub fn new(value: T, pos: Position, path: PathBuf) -> (r: PathLocated<T>)
        ensures
            r.value == value,
            r.pos == pos,
            r.path == path,
    {
        PathLocated { value, pos, path }
    }

    /// Applies `f` to the value; the span and the path are kept.
    pub fn map<U, F: Fn(T) -> U>(self, f: F) -> (r: PathLocated<U>)
        requires
            f.requires((self.value,)),
        ensures
            f.ensures((self.value,), r.value),
            r.pos == self.pos,
            r.path == self.path,
    {
        PathLocated { value: f(self.value), pos: self.pos, path: self.path }
    }
}

impl<T: Clone> Clone for PathLocated<T> {
    fn clone(&self) -> (r: PathLocated<T>)
        ensures
            call_ensures(T::clone, (&self.value,), r.value),
            r.pos == self.pos,
            r.path == self.path,
    {
        PathLocated { value: self.value.clone(), pos: self.pos.clone(), path: clone_path(&self.path) }
    }
}

impl<T: std::fmt::Display> PathLocated<T> {
    /// The value's text; the span and the path are not shown.
    pub fn to_string(&self) -> (r: String)
        ensures
            vstd::string::to_string_from_display_ensures::<T>(&self.value, r),
    {
        self.value.to_string()
    }
}

impl<T: PartialEq> PartialEq for PathLocated<T> {
    /// Compares the values alone.
    fn eq(&self, other: &PathLocated<T>) -> (r: bool) {
        self.value == other.value
    }
}

impl<T: PartialEq> vstd::std_specs::cmp::PartialEqSpecImpl for PathLocated<T> {
    open spec fn obeys_eq_spec() -> bool {
        <T as PartialEqSpec>::obeys_eq_spec()
    }

    open spec fn eq_spec(&self, other: &PathLocated<T>) -> bool {
        self.value.eq_spec(&other.value)
    }
}

impl<T: Eq> Eq for PathLocated<T> {

}

/// `==` on located values compares the values alone: for a value type whose
/// `==` is equality, two located values are equal exactly when their values
/// are, whatever their spans.
pub proof fn lemma_located_eq_ignores_position<T: PartialEq>(x: Located<T>, y: Located<T>)
    requires
        obeys_concrete_eq::<T>(),
    ensures
        <Located<T> as PartialEqSpec>::obeys_eq_spec(),
        x.eq_spec(&y) <==> x.value == y.value,
{
    reveal(obeys_concrete_eq);
}

/// `==` on path-located values compares the values alone: for a value type
/// whose `==` is equality, two of them are equal exactly when their values
/// are, whatever their spans and paths.
pub proof fn lemma_path_located_eq_ignores_position<T: PartialEq>(
    x: PathLocated<T>,
    y: PathLocated<T>,
)
    requires
        obeys_concrete_eq::<T>(),
    ensures
        <PathLocated<T> as PartialEqSpec>::obeys_eq_spec(),
        x.eq_spec(&y) <==> x.value == y.value,
{
    reveal(obeys_concrete_eq);
}

} // verus!
