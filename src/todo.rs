use vstd::prelude::*;

verus! {

/// A todo item as the abstract model sees it.
pub struct TodoView {
    pub id: int,
    pub description: Seq<char>,
    pub done: bool,
}

/// One row of the `todos` table.
pub struct Todo {
    pub id: i64,
    pub description: String,
    pub done: bool,
}

/// The fields a client supplies when creating a todo.
pub struct NewTodo {
    pub description: String,
}

impl View for Todo {
    type V = TodoView;

    open spec fn view(&self) -> TodoView {
        TodoView { id: self.id as int, description: self.description@, done: self.done }
    }
}

impl Todo {
    /// Builds a row from its three fields.
    pub fn new(id: i64, description: String, done: bool) -> (r: Todo)
        ensures
            r@ == (TodoView { id: id as int, description: description@, done }),
    {
        Todo { id, description, done }
    }

    /// A copy of this row, field for field.
    pub fn duplicate(&self) -> (r: Todo)
        ensures
            r@ == self@,
    {
        Todo { id: self.id, description: self.description.clone(), done: self.done }
    }
}

impl NewTodo {
    /// Builds a create request from its description.
    pub fn new(description: String) -> (r: NewTodo)
        ensures
            r.description@ == description@,
    {
        NewTodo { description }
    }
}

/// The views of a sequence of rows.
pub open spec fn rows_view(rows: Seq<Todo>) -> Seq<TodoView> {
    rows.map_values(|t: Todo| t@)
}

} // verus!
