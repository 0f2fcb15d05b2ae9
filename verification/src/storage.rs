//! Storage engines. Both engines are placeholders that keep nothing: every
//! write succeeds, every read finds nothing, and every point is reported
//! present.
use vstd::prelude::*;
use crate::types::{DbError, DenseVector, Payload, PointId};

verus! {

/// The operations a storage engine offers.
pub trait StorageEngine {
    fn insert_vector(&self, id: PointId, vector: DenseVector) -> Result<(), DbError>;

    fn get_vector(&self, id: PointId) -> Result<Option<DenseVector>, DbError>;

    fn insert_payload(&self, id: PointId, payload: Payload) -> Result<(), DbError>;

    fn get_payload(&self, id: PointId) -> Result<Option<Payload>, DbError>;

    fn delete_point(&self, id: PointId) -> Result<(), DbError>;

    fn contains_point(&self, id: PointId) -> Result<bool, DbError>;

    /// Stores a point with an optional vector and an optional payload.
    fn insert_point(&self, id: PointId, vector: Option<DenseVector>, payload: Option<Payload>) -> Result<(), DbError>;

    /// Lists up to `limit` stored vectors starting at `offset`, with the
    /// offset to continue from; `None` when there is nothing to list.
    fn list_vectors(&self, offset: u64, limit: usize) -> Result<Option<(Vec<(PointId, DenseVector)>, u64)>, DbError>;
}

/// Which storage engine to create.
#[derive(Debug, Clone, Copy, PartialEq, Eq, Structural)]
pub enum StorageType {
    InMemory,
    RocksDb,
}

/// The in-memory engine.
pub struct MemoryStorage {}

impl MemoryStorage {
    pub fn new() -> (r: Self)
        ensures
            r == (MemoryStorage {}),
    {
        MemoryStorage {}
    }
}

impl Default for MemoryStorage {
    fn default() -> (r: Self)
        ensures
            r == (MemoryStorage {}),
    {
        Self::new()
    }
}

impl StorageEngine for MemoryStorage {
    fn insert_vector(&self, _id: PointId, _vector: DenseVector) -> (r: Result<(), DbError>)
        ensures
            r == Ok::<(), DbError>(()),
    {
        Ok(())
    }

    fn get_vector(&self, _id: PointId) -> (r: Result<Option<DenseVector>, DbError>)
        ensures
            r matches Ok(None),
    {
        Ok(None)
    }

    fn insert_payload(&self, _id: PointId, _payload: Payload) -> (r: Result<(), DbError>)
        ensures
            r == Ok::<(), DbError>(()),
    {
        Ok(())
    }

    fn get_payload(&self, _id: PointId) -> (r: Result<Option<Payload>, DbError>)
        ensures
            r == Ok::<Option<Payload>, DbError>(None),
    {
        Ok(None)
    }

    fn delete_point(&self, _id: PointId) -> (r: Result<(), DbError>)
        ensures
            r == Ok::<(), DbError>(()),
    {
        Ok(())
    }

    fn contains_point(&self, _id: PointId) -> (r: Result<bool, DbError>)
        ensures
            r == Ok::<bool, DbError>(true),
    {
        Ok(true)
    }

    fn insert_point(&self, _id: PointId, _vector: Option<DenseVector>, _payload: Option<Payload>) -> (r: Result<(), DbError>)
        ensures
            r == Ok::<(), DbError>(()),
    {
        Ok(())
    }

    fn list_vectors(&self, _offset: u64, _limit: usize) -> (r: Result<Option<(Vec<(PointId, DenseVector)>, u64)>, DbError>)
        ensures
            r matches Ok(None),
    {
        Ok(None)
    }
}

/// The RocksDB-backed engine, identified by the directory it lives in.
pub struct RocksDbStorage {
    pub path: String,
}

impl RocksDbStorage {
    pub fn new(path: String) -> (r: Self)
        ensures
            r.path@ == path@,
    {
        RocksDbStorage { path }
    }
}

impl StorageEngine for RocksDbStorage {
    fn insert_vector(&self, _id: PointId, _vector: DenseVector) -> (r: Result<(), DbError>)
        ensures
            r == Ok::<(), DbError>(()),
    {
        Ok(())
    }

    fn get_vector(&self, _id: PointId) -> (r: Result<Option<DenseVector>, DbError>)
        ensures
            r matches Ok(None),
    {
        Ok(None)
    }

    fn insert_payload(&self, _id: PointId, _payload: Payload) -> (r: Result<(), DbError>)
        ensures
            r == Ok::<(), DbError>(()),
    {
        Ok(())
    }

    fn get_payload(&self, _id: PointId) -> (r: Result<Option<Payload>, DbError>)
        ensures
            r == Ok::<Option<Payload>, DbError>(None),
    {
        Ok(None)
    }

    fn delete_point(&self, _id: PointId) -> (r: Result<(), DbError>)
        ensures
            r == Ok::<(), DbError>(()),
    {
        Ok(())
    }

    fn contains_point(&self, _id: PointId) -> (r: Result<bool, DbError>)
        ensures
            r == Ok::<bool, DbError>(true),
    {
        Ok(true)
    }

    fn insert_point(&self, _id: PointId, _vector: Option<DenseVector>, _payload: Option<Payload>) -> (r: Result<(), DbError>)
        ensures
            r == Ok::<(), DbError>(()),
    {
        Ok(())
    }

    fn list_vectors(&self, _offset: u64, _limit: usize) -> (r: Result<Option<(Vec<(PointId, DenseVector)>, u64)>, DbError>)
        ensures
            r matches Ok(None),
    {
        Ok(None)
    }
}

/// Which engine a handle is, and where a RocksDB engine lives.
pub enum StorageView {
    InMemory,
    RocksDb(Seq<char>),
}

/// What an engine answers to `get_vector`: it keeps no vectors.
pub open spec fn spec_get_vector(id: PointId) -> Option<Seq<u32>> {
    None
}

/// What an engine answers to `get_payload`: it keeps no payloads.
pub open spec fn spec_get_payload(id: PointId) -> Option<Payload> {
    None
}

/// What an engine answers to `contains_point`: every point is reported present.
pub open spec fn spec_contains_point(id: PointId) -> bool {
    true
}

/// What an engine answers to `list_vectors`: there is nothing to list.
pub open spec fn spec_list_vectors(offset: u64, limit: usize) -> Option<(Seq<(PointId, Seq<u32>)>, u64)> {
    None
}

/// The listing an engine returned, as mathematical values.
pub open spec fn listing_view(r: Option<(Vec<(PointId, DenseVector)>, u64)>) -> Option<(Seq<(PointId, Seq<u32>)>, u64)> {
    match r {
        Some((v, next)) => Some((v@.map_values(|p: (PointId, DenseVector)| (p.0, p.1@)), next)),
        None => None,
    }
}

/// A storage engine of either kind.
pub enum StorageHandle {
    InMemory(MemoryStorage),
    RocksDb(RocksDbStorage),
}

impl View for StorageHandle {
    type V = StorageView;

    open spec fn view(&self) -> StorageView {
        match self {
            StorageHandle::InMemory(_) => StorageView::InMemory,
            StorageHandle::RocksDb(s) => StorageView::RocksDb(s.path@),
        }
    }
}

impl StorageHandle {
    /// The kind of engine behind the handle.
    pub open spec fn kind(&self) -> StorageType {
        match self {
            StorageHandle::InMemory(_) => StorageType::InMemory,
            StorageHandle::RocksDb(_) => StorageType::RocksDb,
        }
    }
}

impl StorageEngine for StorageHandle {
    fn insert_vector(&self, id: PointId, vector: DenseVector) -> (r: Result<(), DbError>)
        ensures
            r == Ok::<(), DbError>(()),
    {
        match self {
            StorageHandle::InMemory(s) => s.insert_vector(id, vector),
            StorageHandle::RocksDb(s) => s.insert_vector(id, vector),
        }
    }

    fn get_vector(&self, id: PointId) -> (r: Result<Option<DenseVector>, DbError>)
        ensures
            r matches Ok(v) && v is None && spec_get_vector(id) is None,
    {
        match self {
            StorageHandle::InMemory(s) => s.get_vector(id),
            StorageHandle::RocksDb(s) => s.get_vector(id),
        }
    }

    fn insert_payload(&self, id: PointId, payload: Payload) -> (r: Result<(), DbError>)
        ensures
            r == Ok::<(), DbError>(()),
    {
        match self {
            StorageHandle::InMemory(s) => s.insert_payload(id, payload),
            StorageHandle::RocksDb(s) => s.insert_payload(id, payload),
        }
    }

    fn get_payload(&self, id: PointId) -> (r: Result<Option<Payload>, DbError>)
        ensures
            r == Ok::<Option<Payload>, DbError>(spec_get_payload(id)),
    {
        match self {
            StorageHandle::InMemory(s) => s.get_payload(id),
            StorageHandle::RocksDb(s) => s.get_payload(id),
        }
    }

    fn delete_point(&self, id: PointId) -> (r: Result<(), DbError>)
        ensures
            r == Ok::<(), DbError>(()),
    {
        match self {
            StorageHandle::InMemory(s) => s.delete_point(id),
            StorageHandle::RocksDb(s) => s.delete_point(id),
        }
    }

    fn contains_point(&self, id: PointId) -> (r: Result<bool, DbError>)
        ensures
            r == Ok::<bool, DbError>(spec_contains_point(id)),
    {
        match self {
            StorageHandle::InMemory(s) => s.contains_point(id),
            StorageHandle::RocksDb(s) => s.contains_point(id),
        }
    }

    fn insert_point(&self, id: PointId, vector: Option<DenseVector>, payload: Option<Payload>) -> (r: Result<(), DbError>)
        ensures
            r == Ok::<(), DbError>(()),
    {
        match self {
            StorageHandle::InMemory(s) => s.insert_point(id, vector, payload),
            StorageHandle::RocksDb(s) => s.insert_point(id, vector, payload),
        }
    }

    fn list_vectors(&self, offset: u64, limit: usize) -> (r: Result<Option<(Vec<(PointId, DenseVector)>, u64)>, DbError>)
        ensures
            r matches Ok(v) && listing_view(v) == spec_list_vectors(offset, limit),
    {
        match self {
            StorageHandle::InMemory(s) => s.list_vectors(offset, limit),
            StorageHandle::RocksDb(s) => s.list_vectors(offset, limit),
        }
    }
}

/// Creates an engine of the given kind; a RocksDB engine lives at `path`.
pub fn create_storage_engine(storage_type: StorageType, path: String) -> (r: Result<StorageHandle, DbError>)
    ensures
        r is Ok,
        r matches Ok(h) ==> h.kind() == storage_type,
        r matches Ok(h) ==> h@ == (if storage_type == StorageType::RocksDb { StorageView::RocksDb(path@) } else { StorageView::InMemory }),
{
    match storage_type {
        StorageType::InMemory => Ok(StorageHandle::InMemory(MemoryStorage::new())),
        StorageType::RocksDb => Ok(StorageHandle::RocksDb(RocksDbStorage::new(path))),
    }
}

} // verus!
