//! A small todo service: the `todos` table's semantics, the statements that
//! the storage gateway runs, and the decisions of the four HTTP handlers.

pub mod todo;
pub mod table;
pub mod laws;
pub mod gateway;
pub mod handlers;

pub use gateway::{Outcome, Param, Statement};
pub use handlers::{handle, respond, statement_for, Request, Response, FRONTEND_ORIGIN};
pub use table::{StorageError, TodoTable};
pub use todo::{NewTodo, Todo};
