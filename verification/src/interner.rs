//! The name interner: every name gets one small, stable handle.
use vstd::prelude::*;
use crate::error::SendError;

verus! {

/// `lasso::Rodeo`, the single-threaded interner, as an opaque type.
#[verifier::external_type_specification]
#[verifier::external_body]
#[verifier::reject_recursive_types(K)]
#[verifier::reject_recursive_types(S)]
pub struct ExRodeo<K, S>(lasso::Rodeo<K, S>);

/// `lasso::Spur`, the key type of a default `Rodeo`, as an opaque type.
#[verifier::external_type_specification]
#[verifier::external_body]
pub struct ExSpur(lasso::Spur);

/// `lasso::LassoError`, as an opaque type.
#[verifier::external_type_specification]
#[verifier::external_body]
pub struct ExLassoError(lasso::LassoError);

/// The strings that a `lasso::Rodeo` holds, in the order in which they were
/// interned. The key that the rodeo gives out for a string is, as a `usize`,
/// the string's position in this sequence.
pub uninterp spec fn interned_names(rodeo: lasso::Rodeo) -> Seq<Seq<char>>;

/// `lasso::Rodeo::new`: a rodeo with the default capacity and no memory
/// limit, which holds no string yet.
#[verifier::external_body]
fn rodeo_new() -> (rodeo: lasso::Rodeo)
    ensures
        interned_names(rodeo) == Seq::<Seq<char>>::empty(),
{
    lasso::Rodeo::new()
}

/// `lasso::Rodeo::try_get_or_intern`, with the key turned into its index by
/// `lasso::Key::into_usize`. A string that the rodeo holds already keeps its
/// key and nothing changes; a new string is appended and its key is the
/// position it was appended at. The call fails only for a new string (the key
/// space or the memory limit is used up), and then nothing has changed.
#[verifier::external_body]
fn rodeo_try_get_or_intern(rodeo: &mut lasso::Rodeo, name: &str) -> (r: Result<usize, lasso::LassoError>)
    ensures
        match r {
            Ok(index) => {
                if interned_names(*old(rodeo)).contains(name@) {
                    &&& interned_names(*final(rodeo)) == interned_names(*old(rodeo))
                    &&& index < interned_names(*old(rodeo)).len()
                    &&& interned_names(*old(rodeo))[index as int] == name@
                } else {
                    &&& interned_names(*final(rodeo)) == interned_names(*old(rodeo)).push(name@)
                    &&& index == interned_names(*old(rodeo)).len()
                }
            },
            Err(_) => {
                &&& interned_names(*final(rodeo)) == interned_names(*old(rodeo))
                &&& !interned_names(*old(rodeo)).contains(name@)
            },
        },
{
    match rodeo.try_get_or_intern(name) {
        Ok(key) => Ok(lasso::Key::into_usize(key)),
        Err(e) => Err(e),
    }
}

/// The names after `name` was interned into `names`.
pub open spec fn names_with(names: Seq<Seq<char>>, name: Seq<char>) -> Seq<Seq<char>> {
    if names.contains(name) {
        names
    } else {
        names.push(name)
    }
}

/// The handle of `name` among `names`: the position at which it stands.
pub open spec fn handle_of(names: Seq<Seq<char>>, name: Seq<char>) -> int {
    names.index_of(name)
}

/// An append-only table of names. A name's handle is its position in the
/// table, so a handle, once given out, stays valid and keeps its name.
pub struct Interner {
    rodeo: lasso::Rodeo,
}

impl Interner {
    /// The names interned so far, oldest first.
    pub closed spec fn names(&self) -> Seq<Seq<char>> {
        interned_names(self.rodeo)
    }

    /// No name stands in the table twice.
    pub open spec fn wf(&self) -> bool {
        self.names().no_duplicates()
    }

    /// An interner without names.
    pub fn new() -> (interner: Interner)
        ensures
            interner.wf(),
            interner.names() == Seq::<Seq<char>>::empty(),
    {
        Interner { rodeo: rodeo_new() }
    }

    /// The handle of `name`, which is added to the table if it is new.
    /// Fails with `RegistryFault` only for a new name that the table has no
    /// room for; the table is then unchanged.
    pub fn intern(&mut self, name: &str) -> (r: Result<usize, SendError>)
        requires
            old(self).wf(),
        ensures
            final(self).wf(),
            match r {
                Ok(handle) => {
                    &&& final(self).names() == names_with(old(self).names(), name@)
                    &&& final(self).names().contains(name@)
                    &&& handle == handle_of(final(self).names(), name@)
                    &&& handle < final(self).names().len()
                    &&& final(self).names()[handle as int] == name@
                },
                Err(e) => {
                    &&& e == SendError::RegistryFault
                    &&& final(self).names() == old(self).names()
                    &&& !old(self).names().contains(name@)
                },
            },
    {
        match rodeo_try_get_or_intern(&mut self.rodeo, name) {
            Ok(index) => {
                proof {
                    lemma_handle_is_position(self.names(), index as int);
                }
                Ok(index)
            },
            Err(_) => Err(SendError::RegistryFault),
        }
    }
}

/// In a table without duplicates the handle of the name at position `i` is `i`.
pub proof fn lemma_handle_is_position(names: Seq<Seq<char>>, i: int)
    requires
        names.no_duplicates(),
        0 <= i < names.len(),
    ensures
        handle_of(names, names[i]) == i,
{
    assert(names.contains(names[i]));
}

/// Names and handles go together. Interning a name a second time changes
/// nothing and gives the handle it gave before; a handle, once given out,
/// stays with its name whatever is interned later; and two names have the
/// same handle only if they are the same name.
pub proof fn lemma_handles_tell_names_apart(names: Seq<Seq<char>>, first: Seq<char>, second: Seq<char>)
    requires
        names.no_duplicates(),
    ensures
        ({
            let one = names_with(names, first);
            let two = names_with(one, second);
            &&& one.no_duplicates() && two.no_duplicates()
            &&& names_with(one, first) == one
            &&& names_with(two, first) == two
            &&& handle_of(two, first) == handle_of(one, first)
            &&& 0 <= handle_of(one, first) < one.len()
            &&& 0 <= handle_of(two, second) < two.len()
            &&& (handle_of(one, first) == handle_of(two, second) <==> first == second)
        }),
{
    let one = names_with(names, first);
    let two = names_with(one, second);
    if !names.contains(first) {
        assert(one[names.len() as int] == first);
    }
    assert(one.contains(first));
    let h = one.index_of(first);
    if !one.contains(second) {
        assert(two[one.len() as int] == second);
    }
    assert(two.contains(second));
    assert(two[h] == first);
    assert(two.contains(first));
    lemma_handle_is_position(two, h);
}

} // verus!
