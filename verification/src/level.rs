//! The level store: named level sources held in an insertion-ordered map,
//! each validated against the configured board size on the way in.

use vstd::prelude::*;
use crate::LevelError;
use crate::board::{spec_stripped, strip_terminators};

verus! {

#[verifier::external_type_specification]
#[verifier::external_body]
#[verifier::reject_recursive_types(K)]
#[verifier::reject_recursive_types(V)]
#[verifier::reject_recursive_types(S)]
pub struct ExIndexMap<K, V, S>(indexmap::IndexMap<K, V, S>);

/// The concrete map the store uses: level names to level bytes.
pub type LevelMap = indexmap::IndexMap<String, Vec<u8>>;

/// What the store holds: each key's level bytes.
pub uninterp spec fn spec_level_table(m: LevelMap) -> Map<Seq<char>, Seq<u8>>;

/// The keys of the store, in insertion order.
pub uninterp spec fn spec_level_order(m: LevelMap) -> Seq<Seq<char>>;

/// Relies on IndexMap::new: creates an empty map.
#[verifier::external_body]
fn levels_new() -> (r: LevelMap)
    ensures
        forall|k: Seq<char>| !spec_level_table(r).contains_key(k),
        spec_level_order(r) == Seq::<Seq<char>>::empty(),
{
    indexmap::IndexMap::new()
}

/// Relies on IndexMap::get: returns the value stored for an equal key,
/// and nothing for an absent one.
#[verifier::external_body]
fn levels_get<'a>(m: &'a LevelMap, name: &str) -> (r: Option<&'a Vec<u8>>)
    ensures
        match r {
            Some(v) => spec_level_table(*m).contains_key(name@) && v@ == spec_level_table(
                *m,
            )[name@],
            None => !spec_level_table(*m).contains_key(name@),
        },
{
    m.get(name)
}

/// Relies on IndexMap::insert: an existing key keeps its place in the
/// order and gets the new value; a new key is appended last in order.
#[verifier::external_body]
fn levels_insert(m: &mut LevelMap, name: String, data: Vec<u8>)
    ensures
        spec_level_table(*final(m)) == spec_level_table(*old(m)).insert(name@, data@),
        spec_level_order(*final(m)) == (if spec_level_table(*old(m)).contains_key(name@) {
            spec_level_order(*old(m))
        } else {
            spec_level_order(*old(m)).push(name@)
        }),
{
    let _ = m.insert(name, data);
}

/// Relies on IndexMap::keys: iterates the keys in their insertion order.
#[verifier::external_body]
fn levels_key_names(m: &LevelMap) -> (r: Vec<String>)
    ensures
        r@.map_values(|s: String| s@) == spec_level_order(*m),
{
    m.keys().cloned().collect()
}

/// Named level sources, each of exactly `level_size` bytes once stripped.
pub struct LevelManager {
    pub level_size: usize,
    pub levels: LevelMap,
}

impl LevelManager {
    /// Every stored level covers the configured size exactly.
    pub open spec fn wf(&self) -> bool {
        forall|k: Seq<char>|
            spec_level_table(self.levels).contains_key(k) ==> (#[trigger] spec_level_table(
                self.levels,
            )[k]).len() == self.level_size
    }

    /// An empty store for levels of `level_size` bytes.
    pub fn new(level_size: usize) -> (r: LevelManager)
        ensures
            r.wf(),
            r.level_size == level_size,
            forall|k: Seq<char>| !spec_level_table(r.levels).contains_key(k),
            spec_level_order(r.levels) == Seq::<Seq<char>>::empty(),
    {
        LevelManager { level_size, levels: levels_new() }
    }

    /// The stored level of that name, if any.
    pub fn get_level(&self, level_name: &str) -> (r: Option<&Vec<u8>>)
        ensures
            match r {
                Some(v) => spec_level_table(self.levels).contains_key(level_name@) && v@
                    == spec_level_table(self.levels)[level_name@],
                None => !spec_level_table(self.levels).contains_key(level_name@),
            },
    {
        levels_get(&self.levels, level_name)
    }

    /// Stores a level under `level_name` after stripping line terminators.
    /// Succeeds exactly when the stripped bytes cover the configured size;
    /// on a size mismatch the store is left untouched.
    pub fn add_level(&mut self, level_name: &str, level_data: &[u8]) -> (r: Result<
        (),
        LevelError,
    >)
        requires
            old(self).wf(),
        ensures
            final(self).wf(),
            final(self).level_size == old(self).level_size,
            r is Ok <==> spec_stripped(level_data@).len() == old(self).level_size,
            r is Ok ==> spec_level_table(final(self).levels) == spec_level_table(
                old(self).levels,
            ).insert(level_name@, spec_stripped(level_data@)),
            r is Ok ==> spec_level_order(final(self).levels) == (if spec_level_table(
                old(self).levels,
            ).contains_key(level_name@) {
                spec_level_order(old(self).levels)
            } else {
                spec_level_order(old(self).levels).push(level_name@)
            }),
            r is Err ==> *final(self) == *old(self),
            r is Err ==> (r matches Err(LevelError::SizeMismatch { expected, got })
                && expected == old(self).level_size && got == spec_stripped(level_data@).len()),
    {
        let clean: Vec<u8> = strip_terminators(level_data);
        let expected_size = self.level_size;
        let got_size = clean.len();
        if expected_size == got_size {
            levels_insert(&mut self.levels, level_name.to_owned(), clean);
            Ok(())
        } else {
            Err(LevelError::SizeMismatch { expected: expected_size, got: got_size })
        }
    }

    /// The stored level names, in the order they were first added.
    pub fn get_level_names(&self) -> (r: Vec<String>)
        ensures
            r@.map_values(|s: String| s@) == spec_level_order(self.levels),
    {
        levels_key_names(&self.levels)
    }
}

} // verus!
