//! Downloads a SQL Server query result into a Parquet file.
//!
//! This crate is the part of the downloader that decides and computes: how a
//! cell becomes text, how a column becomes a polars `Series`, and how the items
//! of a query stream become a `DataFrame`. Connecting, awaiting the stream and
//! writing the file are left to the program around it.

use vstd::prelude::*;

pub mod calendar;
pub mod column;
pub mod connection;
pub mod download;
pub mod laws;
pub mod metadata;
pub mod series;
pub mod text;

verus! {

/// Adds two numbers whose sum fits in a `u64`.
pub fn add(left: u64, right: u64) -> (sum: u64)
    requires
        left + right <= u64::MAX,
    ensures
        sum == left + right,
{
    left + right
}

} // verus!
