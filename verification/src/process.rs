//! Data model of the process widget: how its table is sorted.

use vstd::prelude::*;

verus! {

/// The column the process table is sorted by.
#[derive(Debug, Clone, Copy, PartialEq, Eq, Structural)]
pub enum SortBy {
    Cpu,
    Memory,
    Name,
}

} // verus!
