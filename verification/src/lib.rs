//! Memoization engine: a function is set up once from its signature and its
//! attribute arguments, and each call of it then goes through the cache.
//!
//! * `attr`, `config`: the attribute arguments and the modes they select.
//! * `shape`, `rule`: the parameters, and what each gives to the cache key.
//! * `content`, `material`, `key`: key material, and keys with their equality and hash.
//! * `store`: the cache itself.
//! * `lifetime`: when the cache is emptied.
//! * `memo`: setting a function up, and the path of one call.
//! * `laws`, `shared`: what holds of keys, of the store, and of callers that share one.
//! * `naming`: names derived from the name of a function.

pub mod attr;
pub mod config;
pub mod content;
pub mod key;
pub mod laws;
pub mod lifetime;
pub mod material;
pub mod memo;
pub mod naming;
pub mod rule;
pub mod shape;
pub mod shared;
pub mod store;
