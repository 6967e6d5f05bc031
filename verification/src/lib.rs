//! A virtualized row cache for a very large grid of cells.
//!
//! The grid is far too large to hold in memory, so rows are materialized on
//! demand, kept in a bounded least-recently-used store, and filled in as the
//! backend pushes cell data.

pub mod cell;
pub mod row_store;
pub mod debouncer;
pub mod loader;
pub mod cell_cache;
pub mod line_buffer;
