//! Rows as the store hands them back for a point lookup, and how an entity
//! is read from one.
//!
//! A board or a post is read from a row only where its identifiers and texts
//! are all there in their types; the row is otherwise taken for no row at
//! all. A moment that is missing, or that the calendar cannot represent,
//! is replaced by the moment of the reading.

use vstd::prelude::*;
use crate::models::{Board, Post};
use crate::timing::{millis_or, representable_millis};

verus! {

/// One column of a row.
#[derive(Debug, Clone, PartialEq, Eq)]
pub enum Column {
    Null,
    Uuid(u128),
    Text(String),
    BigInt(i64),
    /// A value of a type that no entity uses.
    Other,
}

/// One row: its columns in the order of the query.
#[derive(Debug, Clone, PartialEq, Eq)]
pub struct Row {
    pub columns: Vec<Column>,
}

/// The identifier in column `i`, where the column is there and holds one.
pub open spec fn uuid_at(columns: Seq<Column>, i: int) -> Option<u128> {
    if 0 <= i < columns.len() {
        match columns[i] {
            Column::Uuid(id) => Some(id),
            _ => None,
        }
    } else {
        None
    }
}

/// The text in column `i`, where the column is there and holds one.
pub open spec fn text_at(columns: Seq<Column>, i: int) -> Option<String> {
    if 0 <= i < columns.len() {
        match columns[i] {
            Column::Text(text) => Some(text),
            _ => None,
        }
    } else {
        None
    }
}

/// The integer in column `i`, where the column is there and holds one.
pub open spec fn bigint_at(columns: Seq<Column>, i: int) -> Option<i64> {
    if 0 <= i < columns.len() {
        match columns[i] {
            Column::BigInt(n) => Some(n),
            _ => None,
        }
    } else {
        None
    }
}

/// The moment in column `i`, or `now` where the column holds none that the
/// calendar can represent.
pub open spec fn moment_at(columns: Seq<Column>, i: int, now: i64) -> i64 {
    match bigint_at(columns, i) {
        Some(millis) => if representable_millis(millis) {
            millis
        } else {
            now
        },
        None => now,
    }
}

impl Row {
    pub fn uuid(&self, i: usize) -> (r: Option<u128>)
        ensures
            r == uuid_at(self.columns@, i as int),
    {
        if i < self.columns.len() {
            match &self.columns[i] {
                Column::Uuid(id) => Some(*id),
                _ => None,
            }
        } else {
            None
        }
    }

    pub fn text(&self, i: usize) -> (r: Option<String>)
        ensures
            r == text_at(self.columns@, i as int),
    {
        if i < self.columns.len() {
            match &self.columns[i] {
                Column::Text(text) => Some(text.clone()),
                _ => None,
            }
        } else {
            None
        }
    }

    pub fn bigint(&self, i: usize) -> (r: Option<i64>)
        ensures
            r == bigint_at(self.columns@, i as int),
    {
        if i < self.columns.len() {
            match &self.columns[i] {
                Column::BigInt(n) => Some(*n),
                _ => None,
            }
        } else {
            None
        }
    }

    pub fn moment(&self, i: usize, now: i64) -> (r: i64)
        ensures
            r == moment_at(self.columns@, i as int, now),
    {
        match self.bigint(i) {
            Some(millis) => millis_or(millis, now),
            None => now,
        }
    }
}

/// An entity that a point lookup reads from a row and a cache hands out in
/// copies.
pub trait Entity: Sized {
    /// The entity that `columns` hold, read at moment `now`; none where an
    /// identifier or a text is missing.
    spec fn decoded(columns: Seq<Column>, now: i64) -> Option<Self>;

    fn decode(row: &Row, now: i64) -> (r: Option<Self>)
        ensures
            r == Self::decoded(row.columns@, now),
    ;

    fn duplicate(&self) -> (r: Self)
        ensures
            r == *self,
    ;
}

impl Entity for Board {
    open spec fn decoded(columns: Seq<Column>, now: i64) -> Option<Board> {
        match (uuid_at(columns, 0), text_at(columns, 1), text_at(columns, 2)) {
            (Some(id), Some(name), Some(description)) => Some(
                Board { id, name, description, created_at: moment_at(columns, 3, now) },
            ),
            _ => None,
        }
    }

    fn decode(row: &Row, now: i64) -> (r: Option<Board>) {
        match (row.uuid(0), row.text(1), row.text(2)) {
            (Some(id), Some(name), Some(description)) => Some(
                Board { id, name, description, created_at: row.moment(3, now) },
            ),
            _ => None,
        }
    }

    fn duplicate(&self) -> (r: Board) {
        self.clone()
    }
}

impl Entity for Post {
    open spec fn decoded(columns: Seq<Column>, now: i64) -> Option<Post> {
        match (
            uuid_at(columns, 0),
            uuid_at(columns, 1),
            text_at(columns, 2),
            text_at(columns, 3),
            text_at(columns, 4),
        ) {
            (Some(id), Some(board_id), Some(title), Some(content), Some(author)) => Some(
                Post {
                    id,
                    board_id,
                    title,
                    content,
                    created_at: moment_at(columns, 5, now),
                    updated_at: moment_at(columns, 6, now),
                    author,
                },
            ),
            _ => None,
        }
    }

    fn decode(row: &Row, now: i64) -> (r: Option<Post>) {
        match (row.uuid(0), row.uuid(1), row.text(2), row.text(3), row.text(4)) {
            (Some(id), Some(board_id), Some(title), Some(content), Some(author)) => Some(
                Post {
                    id,
                    board_id,
                    title,
                    content,
                    created_at: row.moment(5, now),
                    updated_at: row.moment(6, now),
                    author,
                },
            ),
            _ => None,
        }
    }

    fn duplicate(&self) -> (r: Post) {
        self.clone()
    }
}

} // verus!
