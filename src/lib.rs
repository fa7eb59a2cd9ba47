//! Incremental synchronisation of a local cache of publication records with
//! a remote registry: the record model, the classification of every record
//! identifier against the cache, the plan of what to fetch, keep and drop, the
//! merge of cached and freshly fetched records into the collection that is
//! stored, the registry's endpoints, the run's settings, and the protocol that
//! replaces the cache file atomically.
pub mod model;
pub mod compare;
pub mod sync;
pub mod laws;
pub mod options;
pub mod registry;
pub mod store;
