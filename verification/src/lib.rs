//! Follower-change detection and notification fan-out for a streaming
//! overlay: a short-TTL response cache in front of the upstream fetcher, a
//! bounded compressed-history store for membership testing, a change detector
//! with special dedup handling for one highlighted entity, two time-ordered
//! pending-notification queues, a connection pool with staleness eviction,
//! and a broadcast bus that fans change events out to every live subscriber.
pub mod follower;

pub mod cache;

pub mod fingerprint;

pub mod history;

pub mod queues;

pub mod detector;

pub mod bus;

pub mod pool;

pub mod schedule;

pub mod version;

