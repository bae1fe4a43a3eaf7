use vstd::prelude::*;
use crate::types::{NativeFunction, ExpressionFunction};

verus! {

/// A table keyed by name, held in a `heapless::FnvIndexMap` of capacity `N`: it never holds
/// more than `N` entries.
#[verifier::external_body]
#[verifier::reject_recursive_types(V)]
#[derive(Debug)]
pub struct NameMap<V, const N: usize> {
    inner: heapless::FnvIndexMap<String, V, N>,
}

impl<V: Clone, const N: usize> Clone for NameMap<V, N> {
    /// `FnvIndexMap::clone`: a table with the same entries.  Nothing is said of it here: the
    /// `copy` method of each kind of table states what a copy holds, and this impl is what
    /// copying a table of attribute tables clones each of them with.
    #[verifier::external_body]
    fn clone(&self) -> (r: Self) {
        NameMap { inner: self.inner.clone() }
    }
}

/// The entries of a table of numbers.
pub uninterp spec fn value_entries(m: NameMap<u64, 64>) -> Map<Seq<char>, u64>;

/// The entries of a table of arrays.
pub uninterp spec fn array_entries(m: NameMap<Vec<u64>, 16>) -> Map<Seq<char>, Vec<u64>>;

/// The entries of a table of objects, each a table of attributes.
pub uninterp spec fn object_entries(m: NameMap<NameMap<u64, 64>, 16>) -> Map<
    Seq<char>,
    NameMap<u64, 64>,
>;

/// The entries of a table of native functions.
pub uninterp spec fn native_entries(m: NameMap<NativeFunction, 128>) -> Map<
    Seq<char>,
    NativeFunction,
>;

/// The entries of a table of expression functions.
pub uninterp spec fn expression_entries(m: NameMap<ExpressionFunction, 64>) -> Map<
    Seq<char>,
    ExpressionFunction,
>;

/// `names` holds each key of `dom` exactly once.
pub open spec fn lists_keys(names: Seq<String>, dom: Set<Seq<char>>) -> bool {
    &&& forall|i: int| 0 <= i < names.len() ==> dom.contains(#[trigger] names[i]@)
    &&& forall|k: Seq<char>| dom.contains(k) ==> exists|i: int| 0 <= i < names.len() && #[trigger] names[i]@ == k
    &&& forall|i: int, j: int| 0 <= i < j < names.len() ==> #[trigger] names[i]@ != #[trigger] names[j]@
}

impl NameMap<u64, 64> {
    /// `FnvIndexMap::new`: an empty table.
    #[verifier::external_body]
    pub fn new() -> (r: Self)
        ensures
            value_entries(r).dom().finite(),
            value_entries(r).len() <= 64,
            value_entries(r).dom().is_empty(),
    {
        NameMap { inner: heapless::FnvIndexMap::new() }
    }

    /// `FnvIndexMap::get`: the number stored under `key`.
    #[verifier::external_body]
    pub fn get(&self, key: &str) -> (r: Option<u64>)
        ensures
            r == value_entries(*self).get(key@),
    {
        self.inner.get(key).copied()
    }

    /// `FnvIndexMap::insert`: stores `value` under `key` unless the table is full and lacks
    /// `key`; gives back the value it replaced.
    #[verifier::external_body]
    pub fn insert(&mut self, key: String, value: u64) -> (r: Result<Option<u64>, ()>)
        ensures
            value_entries(*final(self)).dom().finite(),
            value_entries(*final(self)).len() <= 64,
            r.is_ok() == (value_entries(*old(self)).contains_key(key@) || value_entries(*old(self)).len() < 64),
            r.is_ok() ==> r.unwrap() == value_entries(*old(self)).get(key@) && value_entries(*final(self)) == value_entries(*old(self)).insert(key@, value),
            r.is_err() ==> value_entries(*final(self)) == value_entries(*old(self)),
    {
        match self.inner.insert(key, value) {
            Ok(prev) => Ok(prev),
            Err(_) => Err(()),
        }
    }

    /// `FnvIndexMap::keys`: the names in the table.
    #[verifier::external_body]
    pub fn keys(&self) -> (r: Vec<String>)
        ensures
            lists_keys(r@, value_entries(*self).dom()),
    {
        self.inner.keys().cloned().collect()
    }

    /// `FnvIndexMap::clone`: a table with the same entries.
    #[verifier::external_body]
    pub fn copy(&self) -> (m: Self)
        ensures
            value_entries(m).dom().finite(),
            value_entries(m).len() <= 64,
            value_entries(m) == value_entries(*self),
    {
        NameMap { inner: self.inner.clone() }
    }
}

impl NameMap<Vec<u64>, 16> {
    /// `FnvIndexMap::new`: an empty table.
    #[verifier::external_body]
    pub fn new() -> (r: Self)
        ensures
            array_entries(r).dom().finite(),
            array_entries(r).len() <= 16,
            array_entries(r).dom().is_empty(),
    {
        NameMap { inner: heapless::FnvIndexMap::new() }
    }

    /// `FnvIndexMap::get`: the array stored under `key`.
    #[verifier::external_body]
    pub fn get(&self, key: &str) -> (r: Option<&Vec<u64>>)
        ensures
            array_entries(*self).contains_key(key@) ==> r == Some(&array_entries(*self)[key@]),
            !array_entries(*self).contains_key(key@) ==> r.is_none(),
    {
        self.inner.get(key)
    }

    /// `FnvIndexMap::insert`: stores `value` under `key` unless the table is full and lacks
    /// `key`.
    #[verifier::external_body]
    pub fn insert(&mut self, key: String, value: Vec<u64>) -> (r: Result<(), ()>)
        ensures
            array_entries(*final(self)).dom().finite(),
            array_entries(*final(self)).len() <= 16,
            r.is_ok() == (array_entries(*old(self)).contains_key(key@) || array_entries(*old(self)).len() < 16),
            r.is_ok() ==> array_entries(*final(self)) == array_entries(*old(self)).insert(key@, value),
            r.is_err() ==> array_entries(*final(self)) == array_entries(*old(self)),
    {
        match self.inner.insert(key, value) {
            Ok(_) => Ok(()),
            Err(_) => Err(()),
        }
    }

    /// `FnvIndexMap::clone`: a table with the same names, each holding a copy of its array.
    #[verifier::external_body]
    pub fn copy(&self) -> (m: Self)
        ensures
            array_entries(m).dom().finite(),
            array_entries(m).len() <= 16,
            array_entries(m).dom() == array_entries(*self).dom(),
            forall|k: Seq<char>| #[trigger] array_entries(m).contains_key(k) ==> array_entries(m)[k]@
                == array_entries(*self)[k]@,
    {
        NameMap { inner: self.inner.clone() }
    }
}

impl NameMap<NameMap<u64, 64>, 16> {
    /// `FnvIndexMap::new`: an empty table.
    #[verifier::external_body]
    pub fn new() -> (r: Self)
        ensures
            object_entries(r).dom().finite(),
            object_entries(r).len() <= 16,
            object_entries(r).dom().is_empty(),
    {
        NameMap { inner: heapless::FnvIndexMap::new() }
    }

    /// `FnvIndexMap::get`: the attribute table of the object `key`.
    #[verifier::external_body]
    pub fn get(&self, key: &str) -> (r: Option<&NameMap<u64, 64>>)
        ensures
            object_entries(*self).contains_key(key@) ==> r == Some(&object_entries(*self)[key@]),
            !object_entries(*self).contains_key(key@) ==> r.is_none(),
    {
        self.inner.get(key)
    }

    /// `FnvIndexMap::insert`: stores `value` under `key` unless the table is full and lacks
    /// `key`.
    #[verifier::external_body]
    pub fn insert(&mut self, key: String, value: NameMap<u64, 64>) -> (r: Result<(), ()>)
        ensures
            object_entries(*final(self)).dom().finite(),
            object_entries(*final(self)).len() <= 16,
            r.is_ok() == (object_entries(*old(self)).contains_key(key@) || object_entries(*old(self)).len() < 16),
            r.is_ok() ==> object_entries(*final(self)) == object_entries(*old(self)).insert(key@, value),
            r.is_err() ==> object_entries(*final(self)) == object_entries(*old(self)),
    {
        match self.inner.insert(key, value) {
            Ok(_) => Ok(()),
            Err(_) => Err(()),
        }
    }

    /// `FnvIndexMap::clone`: a table with the same names, each holding a copy of its
    /// attribute table, whose entries are those of the original.
    #[verifier::external_body]
    pub fn copy(&self) -> (m: Self)
        ensures
            object_entries(m).dom().finite(),
            object_entries(m).len() <= 16,
            object_entries(m).dom() == object_entries(*self).dom(),
            forall|k: Seq<char>| #[trigger] object_entries(m).contains_key(k) ==> value_entries(
                object_entries(m)[k],
            ) == value_entries(object_entries(*self)[k]),
    {
        NameMap { inner: self.inner.clone() }
    }
}

impl NameMap<NativeFunction, 128> {
    /// `FnvIndexMap::new`: an empty table.
    #[verifier::external_body]
    pub fn new() -> (r: Self)
        ensures
            native_entries(r).dom().finite(),
            native_entries(r).len() <= 128,
            native_entries(r).dom().is_empty(),
    {
        NameMap { inner: heapless::FnvIndexMap::new() }
    }

    /// `FnvIndexMap::get`: the function registered under `key`.
    #[verifier::external_body]
    pub fn get(&self, key: &str) -> (r: Option<&NativeFunction>)
        ensures
            native_entries(*self).contains_key(key@) ==> r == Some(&native_entries(*self)[key@]),
            !native_entries(*self).contains_key(key@) ==> r.is_none(),
    {
        self.inner.get(key)
    }

    /// `FnvIndexMap::insert`: registers `value` under `key` unless the table is full and lacks
    /// `key`.
    #[verifier::external_body]
    pub fn insert(&mut self, key: String, value: NativeFunction) -> (r: Result<(), ()>)
        ensures
            native_entries(*final(self)).dom().finite(),
            native_entries(*final(self)).len() <= 128,
            r.is_ok() == (native_entries(*old(self)).contains_key(key@) || native_entries(*old(self)).len() < 128),
            r.is_ok() ==> native_entries(*final(self)) == native_entries(*old(self)).insert(key@, value),
            r.is_err() ==> native_entries(*final(self)) == native_entries(*old(self)),
    {
        match self.inner.insert(key, value) {
            Ok(_) => Ok(()),
            Err(_) => Err(()),
        }
    }

    /// `FnvIndexMap::clone`: a table with the same names, each holding a copy of its
    /// function.
    #[verifier::external_body]
    pub fn copy(&self) -> (m: Self)
        ensures
            native_entries(m).dom().finite(),
            native_entries(m).len() <= 128,
            native_entries(m).dom() == native_entries(*self).dom(),
            forall|k: Seq<char>| #[trigger] native_entries(m).contains_key(k) ==> native_entries(m)[k]@
                == native_entries(*self)[k]@,
    {
        NameMap { inner: self.inner.clone() }
    }

    /// `FnvIndexMap::keys`: the names of the registered functions.
    #[verifier::external_body]
    pub fn keys(&self) -> (r: Vec<String>)
        ensures
            lists_keys(r@, native_entries(*self).dom()),
    {
        self.inner.keys().cloned().collect()
    }
}

impl NameMap<ExpressionFunction, 64> {
    /// `FnvIndexMap::new`: an empty table.
    #[verifier::external_body]
    pub fn new() -> (r: Self)
        ensures
            expression_entries(r).dom().finite(),
            expression_entries(r).len() <= 64,
            expression_entries(r).dom().is_empty(),
    {
        NameMap { inner: heapless::FnvIndexMap::new() }
    }

    /// `FnvIndexMap::get`: the function registered under `key`.
    #[verifier::external_body]
    pub fn get(&self, key: &str) -> (r: Option<&ExpressionFunction>)
        ensures
            expression_entries(*self).contains_key(key@) ==> r == Some(&expression_entries(*self)[key@]),
            !expression_entries(*self).contains_key(key@) ==> r.is_none(),
    {
        self.inner.get(key)
    }

    /// `FnvIndexMap::insert`: registers `value` under `key` unless the table is full and lacks
    /// `key`.
    #[verifier::external_body]
    pub fn insert(&mut self, key: String, value: ExpressionFunction) -> (r: Result<(), ()>)
        ensures
            expression_entries(*final(self)).dom().finite(),
            expression_entries(*final(self)).len() <= 64,
            r.is_ok() == (expression_entries(*old(self)).contains_key(key@) || expression_entries(*old(self)).len() < 64),
            r.is_ok() ==> expression_entries(*final(self)) == expression_entries(*old(self)).insert(key@, value),
            r.is_err() ==> expression_entries(*final(self)) == expression_entries(*old(self)),
    {
        match self.inner.insert(key, value) {
            Ok(_) => Ok(()),
            Err(_) => Err(()),
        }
    }

    /// `FnvIndexMap::clone`: a table with the same names, each holding a copy of its
    /// function.
    #[verifier::external_body]
    pub fn copy(&self) -> (m: Self)
        ensures
            expression_entries(m).dom().finite(),
            expression_entries(m).len() <= 64,
            expression_entries(m).dom() == expression_entries(*self).dom(),
            forall|k: Seq<char>| #[trigger] expression_entries(m).contains_key(k) ==> expression_entries(
                m,
            )[k]@ == expression_entries(*self)[k]@,
    {
        NameMap { inner: self.inner.clone() }
    }

    /// `FnvIndexMap::remove`: unregisters `key`; tells whether it was registered.
    #[verifier::external_body]
    pub fn remove(&mut self, key: &str) -> (r: bool)
        ensures
            expression_entries(*final(self)).dom().finite(),
            expression_entries(*final(self)).len() <= 64,
            r == expression_entries(*old(self)).contains_key(key@),
            expression_entries(*final(self)) == expression_entries(*old(self)).remove(key@),
    {
        self.inner.remove(key).is_some()
    }

    /// `FnvIndexMap::keys`: the names of the registered functions.
    #[verifier::external_body]
    pub fn keys(&self) -> (r: Vec<String>)
        ensures
            lists_keys(r@, expression_entries(*self).dom()),
    {
        self.inner.keys().cloned().collect()
    }
}

} // verus!
