//! Plans: what a resolved statement does to the tables, step by step.

use vstd::prelude::*;
use crate::definitions::{LiteralValue, LiteralView};

pub mod insert_plan;
pub mod select_plan;

verus! {

/// A source of rows that holds at most one row and hands it out once.
pub struct StaticRow {
    row: Option<Vec<LiteralValue>>,
}

impl View for StaticRow {
    type V = Option<Seq<LiteralView>>;

    /// The row still to be handed out, if any.
    closed spec fn view(&self) -> Option<Seq<LiteralView>> {
        match self.row {
            Some(row) => Some(row.deep_view()),
            None => None,
        }
    }
}

impl StaticRow {
    /// A source that holds `row`.
    pub fn new(row: Vec<LiteralValue>) -> (source: StaticRow)
        ensures
            source@ == Some(row.deep_view()),
    {
        StaticRow { row: Some(row) }
    }

    /// Hands out the row, and leaves the source empty.
    pub fn next(&mut self) -> (row: Option<Vec<LiteralValue>>)
        ensures
            final(self)@ is None,
            match row {
                Some(r) => old(self)@ == Some(r.deep_view()),
                None => old(self)@ is None,
            },
    {
        if self.row.is_none() {
            return None;
        }
        self.row.take()
    }
}

} // verus!
