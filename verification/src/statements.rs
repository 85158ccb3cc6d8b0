//! The reusable query plans of the service: one per logical operation,
//! built once before traffic is served and only read afterwards.

use vstd::prelude::*;

verus! {

/// The number of logical operations.
pub const OPERATIONS: usize = 10;

/// A logical operation against the store.
#[derive(Debug, Clone, Copy, PartialEq, Eq, Structural)]
pub enum Operation {
    GetBoards,
    GetBoardById,
    CreateBoard,
    GetPostsByBoard,
    GetPostById,
    CreatePost,
    GetCommentsByPost,
    CreateComment,
    BoardExists,
    PostExists,
}

impl Operation {
    /// The place of the operation in the table of plans.
    pub open spec fn slot(&self) -> int {
        match self {
            Operation::GetBoards => 0,
            Operation::GetBoardById => 1,
            Operation::CreateBoard => 2,
            Operation::GetPostsByBoard => 3,
            Operation::GetPostById => 4,
            Operation::CreatePost => 5,
            Operation::GetCommentsByPost => 6,
            Operation::CreateComment => 7,
            Operation::BoardExists => 8,
            Operation::PostExists => 9,
        }
    }

    /// The operation that stands at `slot`.
    pub open spec fn at(slot: int) -> Operation {
        if slot == 0 {
            Operation::GetBoards
        } else if slot == 1 {
            Operation::GetBoardById
        } else if slot == 2 {
            Operation::CreateBoard
        } else if slot == 3 {
            Operation::GetPostsByBoard
        } else if slot == 4 {
            Operation::GetPostById
        } else if slot == 5 {
            Operation::CreatePost
        } else if slot == 6 {
            Operation::GetCommentsByPost
        } else if slot == 7 {
            Operation::CreateComment
        } else if slot == 8 {
            Operation::BoardExists
        } else {
            Operation::PostExists
        }
    }

    /// The text of the operation's query.
    pub open spec fn query_text(&self) -> Seq<char> {
        match self {
            Operation::GetBoards => "SELECT id, name, description, created_at FROM boards"@,
            Operation::GetBoardById =>
                "SELECT id, name, description, created_at FROM boards WHERE id = ?"@,
            Operation::CreateBoard =>
                "INSERT INTO boards (id, name, description, created_at) VALUES (?, ?, ?, ?)"@,
            Operation::GetPostsByBoard =>
                "SELECT id, board_id, title, content, author, created_at, updated_at FROM posts WHERE board_id = ? ALLOW FILTERING"@,
            Operation::GetPostById =>
                "SELECT id, board_id, title, content, author, created_at, updated_at FROM posts WHERE id = ?"@,
            Operation::CreatePost =>
                "INSERT INTO posts (id, board_id, title, content, author, created_at, updated_at) VALUES (?, ?, ?, ?, ?, ?, ?)"@,
            Operation::GetCommentsByPost =>
                "SELECT id, post_id, content, author, created_at FROM comments WHERE post_id = ? ALLOW FILTERING"@,
            Operation::CreateComment =>
                "INSERT INTO comments (id, post_id, content, author, created_at) VALUES (?, ?, ?, ?, ?)"@,
            Operation::BoardExists => "SELECT id FROM boards WHERE id = ?"@,
            Operation::PostExists => "SELECT id FROM posts WHERE id = ?"@,
        }
    }

    pub fn index(&self) -> (i: usize)
        ensures
            i == self.slot(),
            i < OPERATIONS,
    {
        match self {
            Operation::GetBoards => 0,
            Operation::GetBoardById => 1,
            Operation::CreateBoard => 2,
            Operation::GetPostsByBoard => 3,
            Operation::GetPostById => 4,
            Operation::CreatePost => 5,
            Operation::GetCommentsByPost => 6,
            Operation::CreateComment => 7,
            Operation::BoardExists => 8,
            Operation::PostExists => 9,
        }
    }

    pub fn from_index(i: usize) -> (op: Operation)
        requires
            i < OPERATIONS,
        ensures
            op == Operation::at(i as int),
            op.slot() == i,
    {
        if i == 0 {
            Operation::GetBoards
        } else if i == 1 {
            Operation::GetBoardById
        } else if i == 2 {
            Operation::CreateBoard
        } else if i == 3 {
            Operation::GetPostsByBoard
        } else if i == 4 {
            Operation::GetPostById
        } else if i == 5 {
            Operation::CreatePost
        } else if i == 6 {
            Operation::GetCommentsByPost
        } else if i == 7 {
            Operation::CreateComment
        } else if i == 8 {
            Operation::BoardExists
        } else {
            Operation::PostExists
        }
    }

    pub fn query(&self) -> (text: &'static str)
        ensures
            text@ == self.query_text(),
    {
        match self {
            Operation::GetBoards => "SELECT id, name, description, created_at FROM boards",
            Operation::GetBoardById =>
                "SELECT id, name, description, created_at FROM boards WHERE id = ?",
            Operation::CreateBoard =>
                "INSERT INTO boards (id, name, description, created_at) VALUES (?, ?, ?, ?)",
            Operation::GetPostsByBoard =>
                "SELECT id, board_id, title, content, author, created_at, updated_at FROM posts WHERE board_id = ? ALLOW FILTERING",
            Operation::GetPostById =>
                "SELECT id, board_id, title, content, author, created_at, updated_at FROM posts WHERE id = ?",
            Operation::CreatePost =>
                "INSERT INTO posts (id, board_id, title, content, author, created_at, updated_at) VALUES (?, ?, ?, ?, ?, ?, ?)",
            Operation::GetCommentsByPost =>
                "SELECT id, post_id, content, author, created_at FROM comments WHERE post_id = ? ALLOW FILTERING",
            Operation::CreateComment =>
                "INSERT INTO comments (id, post_id, content, author, created_at) VALUES (?, ?, ?, ?, ?)",
            Operation::BoardExists => "SELECT id FROM boards WHERE id = ?",
            Operation::PostExists => "SELECT id FROM posts WHERE id = ?",
        }
    }
}

/// Every operation has a slot of its own.
pub proof fn lemma_slots_are_distinct(a: Operation, b: Operation)
    ensures
        0 <= a.slot() < OPERATIONS,
        Operation::at(a.slot()) == a,
        a.slot() == b.slot() ==> a == b,
{
}

/// How a caller reaches the store for one operation.
pub enum Statement<'a, H> {
    /// The table is ready: execute the plan.
    Ready(&'a H),
    /// The table is not ready: build a plan from the text for this call
    /// alone.
    NotReady(&'static str),
}

/// Why the table of plans refused a step of its initialization.
#[derive(Debug, Clone, Copy, PartialEq, Eq, Structural)]
pub enum InitError {
    /// The operation already has a plan: a plan is never replaced.
    AlreadyPrepared(Operation),
    /// The operation has no plan yet: the table cannot be made ready.
    Missing(Operation),
}

/// The table of plans, of whatever type `H` the store hands out. Plans are
/// taken in one by one; none is served before all are there and the table
/// was made ready, and none changes after that.
pub struct StatementCache<H> {
    slots: Vec<Option<H>>,
    ready: bool,
}

impl<H> StatementCache<H> {
    pub closed spec fn wf(&self) -> bool {
        &&& self.slots@.len() == OPERATIONS
        &&& self.ready ==> forall|k: int| 0 <= k < OPERATIONS ==> (#[trigger] self.slots@[k]) is Some
    }

    /// The plan taken in for `op`, if any.
    pub closed spec fn plan(&self, op: Operation) -> Option<H> {
        self.slots@[op.slot()]
    }

    /// Whether the table was made ready.
    pub closed spec fn ready(&self) -> bool {
        self.ready
    }

    /// Whether every operation has its plan.
    pub open spec fn complete(&self) -> bool {
        forall|op: Operation| (#[trigger] self.plan(op)) is Some
    }

    /// The plan that callers are served for `op`: none until the table is
    /// ready.
    pub open spec fn served(&self, op: Operation) -> Option<H> {
        if self.ready() {
            self.plan(op)
        } else {
            None
        }
    }

    /// A table that holds no plan and is not ready.
    pub fn new() -> (c: Self)
        ensures
            c.wf(),
            !c.ready(),
            forall|op: Operation| (#[trigger] c.plan(op)) is None,
    {
        let mut slots: Vec<Option<H>> = Vec::new();
        let mut i: usize = 0;
        while i < OPERATIONS
            invariant
                i <= OPERATIONS,
                slots@.len() == i,
                forall|k: int| 0 <= k < i ==> (#[trigger] slots@[k]) is None,
            decreases OPERATIONS - i,
        {
            slots.push(None);
            i = i + 1;
        }
        StatementCache { slots, ready: false }
    }

    /// Takes `handle` in as the plan of `op`, unless `op` has one already.
    pub fn install(&mut self, op: Operation, handle: H) -> (r: Result<(), InitError>)
        requires
            old(self).wf(),
        ensures
            final(self).wf(),
            final(self).ready() == old(self).ready(),
            forall|other: Operation|
                other != op ==> final(self).plan(other) == old(self).plan(other),
            match r {
                Ok(()) => old(self).plan(op) is None && final(self).plan(op) == Some(handle),
                Err(e) => old(self).plan(op) is Some && final(self).plan(op) == old(self).plan(op)
                    && e == InitError::AlreadyPrepared(op),
            },
    {
        let i = op.index();
        if self.slots[i].is_some() {
            return Err(InitError::AlreadyPrepared(op));
        }
        self.slots[i] = Some(handle);
        proof {
            assert forall|other: Operation| other != op implies final(self).plan(other) == old(
                self,
            ).plan(other) by {
                lemma_slots_are_distinct(other, op);
            }
        }
        Ok(())
    }

    /// The first operation, in the order of the slots, that has no plan yet;
    /// none once every operation has one.
    pub fn next_missing(&self) -> (r: Option<Operation>)
        requires
            self.wf(),
        ensures
            match r {
                Some(op) => self.plan(op) is None && forall|earlier: Operation|
                    earlier.slot() < op.slot() ==> (#[trigger] self.plan(earlier)) is Some,
                None => self.complete(),
            },
    {
        let mut i: usize = 0;
        while i < OPERATIONS
            invariant
                self.wf(),
                i <= OPERATIONS,
                forall|k: int| 0 <= k < i ==> (#[trigger] self.slots@[k]) is Some,
            decreases OPERATIONS - i,
        {
            if self.slots[i].is_none() {
                return Some(Operation::from_index(i));
            }
            i = i + 1;
        }
        proof {
            assert forall|op: Operation| (#[trigger] self.plan(op)) is Some by {
                lemma_slots_are_distinct(op, op);
                assert(self.slots@[op.slot()] is Some);
            }
        }
        None
    }

    /// Ends the initialization: makes the table ready where every operation
    /// has its plan, and names the first one that has none otherwise.
    pub fn make_ready(&mut self) -> (r: Result<(), InitError>)
        requires
            old(self).wf(),
        ensures
            final(self).wf(),
            forall|op: Operation| final(self).plan(op) == old(self).plan(op),
            match r {
                Ok(()) => old(self).complete() && final(self).ready(),
                Err(e) => {
                    &&& final(self).ready() == old(self).ready()
                    &&& e is Missing
                    &&& old(self).plan(e->Missing_0) is None
                    &&& forall|earlier: Operation|
                        earlier.slot() < e->Missing_0.slot() ==> (#[trigger] old(self).plan(
                            earlier,
                        )) is Some
                },
            },
    {
        match self.next_missing() {
            Some(op) => Err(InitError::Missing(op)),
            None => {
                proof {
                    assert forall|k: int| 0 <= k < OPERATIONS implies (#[trigger] self.slots@[k])
                        is Some by {
                        let op = Operation::at(k);
                        assert(self.plan(op) is Some);
                    }
                }
                self.ready = true;
                Ok(())
            },
        }
    }

    /// The plan of `op`, once the table is ready.
    pub fn get(&self, op: Operation) -> (r: Option<&H>)
        requires
            self.wf(),
        ensures
            match r {
                Some(handle) => self.served(op) == Some(*handle),
                None => self.served(op) is None,
            },
            self.ready() ==> r is Some,
    {
        if self.ready {
            self.slots[op.index()].as_ref()
        } else {
            None
        }
    }

    /// How to reach the store for `op`: by the plan once the table is ready,
    /// by the query's text until then.
    pub fn statement(&self, op: Operation) -> (r: Statement<'_, H>)
        requires
            self.wf(),
        ensures
            match r {
                Statement::Ready(handle) => self.ready() && self.plan(op) == Some(*handle),
                Statement::NotReady(text) => !self.ready() && text@ == op.query_text(),
            },
    {
        match self.get(op) {
            Some(handle) => Statement::Ready(handle),
            None => Statement::NotReady(op.query()),
        }
    }
}

} // verus!
