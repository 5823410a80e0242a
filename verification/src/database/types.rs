//! Requests to the cache database.

use vstd::prelude::*;

verus! {

/// Keys and values that the databases store.
pub trait GenericBytes: Clone + Ord + Sized + Send + Sync {

}

impl<T> GenericBytes for T where T: Clone + Ord + Sized + Send + Sync {

}

/// One operation of a batch.
pub enum BatchOp<K, V> where K: GenericBytes, V: GenericBytes {
    Insert(K, V),
    Delete(K),
}

/// Operations that the database applies together, in order.
pub struct Batch<K, V> where K: GenericBytes, V: GenericBytes {
    ops: Vec<BatchOp<K, V>>,
}

impl<K, V> Batch<K, V> where K: GenericBytes, V: GenericBytes {
    /// The operations, in order.
    pub closed spec fn view(&self) -> Seq<BatchOp<K, V>> {
        self.ops@
    }

    /// An empty batch with room for `capacity` operations.
    pub fn with_capacity(capacity: usize) -> (r: Self)
        ensures
            r.view() == Seq::<BatchOp<K, V>>::empty(),
    {
        Batch { ops: Vec::with_capacity(capacity) }
    }

    /// Adds the insertion of `value` under `key`.
    pub fn insert(&mut self, key: K, value: V)
        ensures
            final(self).view() == old(self).view().push(BatchOp::Insert(key, value)),
    {
        self.ops.push(BatchOp::Insert(key, value));
    }

    /// Adds the deletion of `key`.
    pub fn delete(&mut self, key: K)
        ensures
            final(self).view() == old(self).view().push(BatchOp::Delete(key)),
    {
        self.ops.push(BatchOp::Delete(key));
    }

    /// The operations, to be applied in order.
    pub fn into_ops(self) -> (r: Vec<BatchOp<K, V>>)
        ensures
            r@ == self.view(),
    {
        self.ops
    }
}

/// A database the cache can live in.
pub trait GenericDatabase: Sized + Send {
    type Error;

    type Config;

    /// Opens a database from a configuration.
    fn open(config: &Self::Config) -> Result<Self, Self::Error>;

    /// Reads the value stored under `key`.
    fn read<K: GenericBytes>(&self, key: K) -> Result<Option<Vec<u8>>, Self::Error>;

    /// Stores `val` under `key`.
    fn write<K: GenericBytes, V: GenericBytes>(&self, key: K, val: V) -> Result<(), Self::Error>;

    /// Applies a batch of operations.
    fn batch<K: GenericBytes, V: GenericBytes>(&self, batch: Batch<K, V>) -> Result<(), Self::Error>;

    /// Writes everything to disk.
    fn flush(&self) -> Result<(), Self::Error>;

    /// Removes every entry.
    fn clear(&self) -> Result<(), Self::Error>;
}

/// What is asked of the database.
pub enum RequestKind<K, V> where K: GenericBytes, V: GenericBytes {
    Read(K),
    Write(K, V),
    Batch(Batch<K, V>),
    Flush,
}

} // verus!
