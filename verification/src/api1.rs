//! Early variant of the version 1 client, kept alongside the main one: it
//! normalizes its configuration slightly differently and exposes only the
//! search operation.

pub mod bgg1;
