//! The atom: an immutable, reference-counted, shareable string value.

use vstd::prelude::*;
use std::sync::Arc;
use std::sync::Weak;

verus! {

/// An immutable, reference-counted string value.
///
/// Cloning an atom shares the backing allocation instead of copying the
/// bytes. Equality and hashing go by the string content, whether or not two
/// atoms share an allocation. The view of an atom is its content, as a
/// sequence of characters.
#[derive(Debug, Hash)]
pub struct Atom {
    ptr: Arc<String>,
}

/// A non-owning reference to an atom's backing allocation.
///
/// It does not keep the content alive: once every [`Atom`] over the
/// allocation is gone, [`WeakAtom::upgrade`] fails. The registry stores these
/// so that its table never prolongs the life of a string nobody holds.
#[verifier::external_body]
pub struct WeakAtom {
    inner: Weak<String>,
}

/// The content a weak atom refers to: the string its allocation was created
/// with. The content of an allocation never changes, so this is fixed at
/// [`Atom::as_weak`] time, whether or not the allocation is still alive.
pub uninterp spec fn weak_view(w: WeakAtom) -> Seq<char>;

/// Relies on `std::sync::Arc::clone`: returns a new strong reference to the
/// same allocation, so the referent is unchanged.
#[verifier::external_body]
pub(crate) fn clone_arc<T>(a: &Arc<T>) -> (r: Arc<T>)
    ensures
        r == *a,
{
    Arc::clone(a)
}

/// Relies on `std::sync::Arc::downgrade`: returns a non-owning reference to
/// the same allocation, whose content is the `Arc`'s referent.
#[verifier::external_body]
fn downgrade_arc(a: &Arc<String>) -> (w: WeakAtom)
    ensures
        weak_view(w) == a@,
{
    WeakAtom { inner: Arc::downgrade(a) }
}

/// Relies on `std::sync::Weak::upgrade`: returns `Some` strong reference to
/// the allocation the weak reference was taken from, with its content
/// unchanged, or `None` if no strong reference was left alive.
#[verifier::external_body]
fn upgrade_weak(w: &WeakAtom) -> (r: Option<Arc<String>>)
    ensures
        r matches Some(a) ==> a@ == weak_view(*w),
{
    w.inner.upgrade()
}

/// Relies on `std::sync::Arc::ptr_eq`: returns whether the two strong
/// references share one allocation; if they do, they hold the same content.
#[verifier::external_body]
fn arc_ptr_eq(a: &Arc<String>, b: &Arc<String>) -> (r: bool)
    ensures
        r ==> a@ == b@,
{
    Arc::ptr_eq(a, b)
}

impl View for Atom {
    type V = Seq<char>;

    closed spec fn view(&self) -> Seq<char> {
        self.ptr@
    }
}

impl Atom {
    /// Builds an atom directly from a string slice, copying the bytes into a
    /// fresh allocation. No registry is consulted and the call cannot fail.
    pub fn new(text: &str) -> (a: Atom)
        ensures
            a@ == text@,
    {
        Atom { ptr: Arc::new(text.to_owned()) }
    }

    /// Wraps an already-shared allocation in an atom, without copying.
    pub(crate) fn from_arc(ptr: Arc<String>) -> (a: Atom)
        ensures
            a@ == ptr@,
    {
        Atom { ptr }
    }

    /// Borrows the content. The borrow is free and valid for as long as the
    /// atom itself.
    pub fn as_str(&self) -> (s: &str)
        ensures
            s@ == self@,
    {
        self.ptr.as_str()
    }

    /// Copies the content out into an owned string.
    pub fn to_string(&self) -> (s: String)
        ensures
            s@ == self@,
    {
        (*self.ptr).clone()
    }

    /// Produces the non-owning reference the registry keeps for this atom's
    /// allocation, so that callers can build tables of their own.
    pub fn as_weak(&self) -> (w: WeakAtom)
        ensures
            weak_view(w) == self@,
    {
        downgrade_arc(&self.ptr)
    }

    /// Returns whether two atoms share one backing allocation. Sharing
    /// implies equal content; equal content does not imply sharing.
    pub fn ptr_eq(&self, other: &Atom) -> (r: bool)
        ensures
            r ==> self@ == other@,
    {
        arc_ptr_eq(&self.ptr, &other.ptr)
    }
}

impl WeakAtom {
    /// Attempts to regain a strong atom over the referenced allocation.
    /// Succeeds, with the content the reference was taken over, exactly as
    /// long as some atom over that allocation is still alive.
    pub fn upgrade(&self) -> (r: Option<Atom>)
        ensures
            r matches Some(a) ==> a@ == weak_view(*self),
    {
        match upgrade_weak(self) {
            Some(ptr) => Some(Atom::from_arc(ptr)),
            None => None,
        }
    }
}

impl Clone for Atom {
    /// Shares the backing allocation; the content is unchanged and no string
    /// bytes are copied.
    fn clone(&self) -> (res: Self)
        ensures
            res@ == self@,
    {
        Atom { ptr: clone_arc(&self.ptr) }
    }
}

impl PartialEq for Atom {
    fn eq(&self, other: &Self) -> (r: bool) {
        (*self.ptr).eq(&*other.ptr)
    }
}

impl Eq for Atom {}

impl vstd::std_specs::cmp::PartialEqSpecImpl for Atom {
    open spec fn obeys_eq_spec() -> bool {
        true
    }

    open spec fn eq_spec(&self, other: &Self) -> bool {
        self@ == other@
    }
}

impl Default for Atom {
    /// The empty atom: an atom whose content is the empty string.
    fn default() -> (a: Self)
        ensures
            a@ == Seq::<char>::empty(),
    {
        Atom { ptr: Arc::new(String::new()) }
    }
}

/// Anything that can be turned into an atom, copying its content.
pub trait IntoAtom: Sized {
    /// The content the conversion preserves.
    spec fn content(self) -> Seq<char>;

    /// Turns the value into an atom with the same content.
    fn into_atom(self) -> (a: Atom)
        ensures
            a@ == self.content(),
    ;
}

impl IntoAtom for Atom {
    open spec fn content(self) -> Seq<char> {
        self@
    }

    fn into_atom(self) -> (a: Atom)
        ensures
            a@ == self.content(),
    {
        self
    }
}

impl IntoAtom for &str {
    open spec fn content(self) -> Seq<char> {
        self@
    }

    fn into_atom(self) -> (a: Atom)
        ensures
            a@ == self.content(),
    {
        Atom::new(self)
    }
}

impl IntoAtom for String {
    open spec fn content(self) -> Seq<char> {
        self@
    }

    fn into_atom(self) -> (a: Atom)
        ensures
            a@ == self.content(),
    {
        Atom::new(self.as_str())
    }
}

} // verus!
