use vstd::prelude::*;

use crate::table::{StorageError, TableView, TodoTable};
use crate::todo::{rows_view, Todo, TodoView};

verus! {

/// A value bound to a placeholder of a statement.
pub enum Param {
    Text(String),
    Int(i64),
    Bool(bool),
}

pub enum ParamView {
    Text(Seq<char>),
    Int(int),
    Bool(bool),
}

impl View for Param {
    type V = ParamView;

    open spec fn view(&self) -> ParamView {
        match self {
            Param::Text(s) => ParamView::Text(s@),
            Param::Int(n) => ParamView::Int(*n as int),
            Param::Bool(b) => ParamView::Bool(*b),
        }
    }
}

/// The four statements the storage gateway runs against the `todos` table.
pub enum Statement {
    SelectAll,
    Insert { description: String },
    DeleteById { id: i64 },
    UpdateById { id: i64, description: String, done: bool },
}

/// What running a statement gave back.
pub enum Outcome {
    /// The rows a read returned.
    Rows(Vec<Todo>),
    /// A write was carried out (possibly affecting no row).
    Done,
    /// The statement could not be carried out.
    Failed(StorageError),
}

pub open spec fn select_all_sql() -> Seq<char> {
    "SELECT id, description, done FROM todos ORDER BY id"@
}

pub open spec fn insert_sql() -> Seq<char> {
    "INSERT INTO todos (description) VALUES (?)"@
}

pub open spec fn delete_sql() -> Seq<char> {
    "DELETE FROM todos WHERE id = ?"@
}

pub open spec fn update_sql() -> Seq<char> {
    "UPDATE todos SET description = ?, done = ? WHERE id = ?"@
}

impl Statement {
    /// The SQL text: fixed for each kind of statement, whatever values it carries.
    pub open spec fn sql_spec(&self) -> Seq<char> {
        match self {
            Statement::SelectAll => select_all_sql(),
            Statement::Insert { .. } => insert_sql(),
            Statement::DeleteById { .. } => delete_sql(),
            Statement::UpdateById { .. } => update_sql(),
        }
    }

    /// The values bound to the placeholders, in placeholder order.
    pub open spec fn params_spec(&self) -> Seq<ParamView> {
        match self {
            Statement::SelectAll => seq![],
            Statement::Insert { description } => seq![ParamView::Text(description@)],
            Statement::DeleteById { id } => seq![ParamView::Int(*id as int)],
            Statement::UpdateById { id, description, done } => seq![
                ParamView::Text(description@),
                ParamView::Bool(*done),
                ParamView::Int(*id as int),
            ],
        }
    }

    pub fn sql(&self) -> (r: &'static str)
        ensures
            r@ == self.sql_spec(),
    {
        match self {
            Statement::SelectAll => "SELECT id, description, done FROM todos ORDER BY id",
            Statement::Insert { .. } => "INSERT INTO todos (description) VALUES (?)",
            Statement::DeleteById { .. } => "DELETE FROM todos WHERE id = ?",
            Statement::UpdateById { .. } => "UPDATE todos SET description = ?, done = ? WHERE id = ?",
        }
    }

    pub fn params(&self) -> (r: Vec<Param>)
        ensures
            r@.map_values(|p: Param| p@) == self.params_spec(),
    {
        let mut r: Vec<Param> = Vec::new();
        match self {
            Statement::SelectAll => {},
            Statement::Insert { description } => {
                r.push(Param::Text(description.clone()));
            },
            Statement::DeleteById { id } => {
                r.push(Param::Int(*id));
            },
            Statement::UpdateById { id, description, done } => {
                r.push(Param::Text(description.clone()));
                r.push(Param::Bool(*done));
                r.push(Param::Int(*id));
            },
        }
        assert(r@.map_values(|p: Param| p@) =~= self.params_spec());
        r
    }

    /// What the statement does to a table.
    pub open spec fn effect(&self, t: TableView) -> TableView {
        match self {
            Statement::SelectAll => t,
            Statement::Insert { description } => if t.can_insert() {
                t.inserted(description@)
            } else {
                t
            },
            Statement::DeleteById { id } => t.deleted(*id as int),
            Statement::UpdateById { id, description, done } => t.updated(
                *id as int,
                description@,
                *done,
            ),
        }
    }

    /// What running the statement on a table gives back.
    pub open spec fn result_on(&self, t: TableView, r: Outcome) -> bool {
        match self {
            Statement::SelectAll => match r {
                Outcome::Rows(rows) => rows_view(rows@) == t.rows,
                _ => false,
            },
            Statement::Insert { .. } => if t.can_insert() {
                r is Done
            } else {
                r == Outcome::Failed(StorageError::IdsExhausted)
            },
            _ => r is Done,
        }
    }
}

impl TodoTable {
    /// Runs a statement on the in-memory table.
    pub fn execute(&mut self, stmt: Statement) -> (r: Outcome)
        requires
            old(self).wf(),
        ensures
            final(self).wf(),
            final(self)@ == stmt.effect(old(self)@),
            stmt.result_on(old(self)@, r),
    {
        match stmt {
            Statement::SelectAll => Outcome::Rows(self.list()),
            Statement::Insert { description } => match self.create(description) {
                Ok(_) => Outcome::Done,
                Err(e) => Outcome::Failed(e),
            },
            Statement::DeleteById { id } => {
                self.delete(id);
                Outcome::Done
            },
            Statement::UpdateById { id, description, done } => {
                self.update(id, description, done);
                Outcome::Done
            },
        }
    }
}

} // verus!
