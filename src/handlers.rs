use vstd::prelude::*;

use crate::gateway::{Outcome, Statement};
use crate::table::{TableView, TodoTable};
use crate::todo::{rows_view, NewTodo, Todo, TodoView};

verus! {

/// The origin that the mutating endpoints redirect to unless configured otherwise.
pub const FRONTEND_ORIGIN: &'static str = "http://localhost:5173";

/// A decoded request to one of the four endpoints.
pub enum Request {
    /// `GET /`
    List,
    /// `POST /create` with a form body holding `description`.
    Create(NewTodo),
    /// `GET /delete/{id}`
    Delete(i64),
    /// `GET /update` with a form body holding `id`, `description` and `done`.
    Update(Todo),
}

/// The response a handler sends.
pub enum Response {
    /// 200 with the rows as a JSON array.
    Json(Vec<Todo>),
    /// A redirect to the given location.
    Redirect(String),
    /// A generic server error; the cause is not shown to the client.
    ServerError,
}

impl Response {
    pub open spec fn status_spec(&self) -> u16 {
        match self {
            Response::Json(_) => 200,
            Response::Redirect(_) => 303,
            Response::ServerError => 500,
        }
    }

    /// The HTTP status code: 200 for JSON, 303 See Other for a redirect, 500 for a server error.
    pub fn status(&self) -> (r: u16)
        ensures
            r == self.status_spec(),
    {
        match self {
            Response::Json(_) => 200,
            Response::Redirect(_) => 303,
            Response::ServerError => 500,
        }
    }
}

/// The statement a request runs.
pub open spec fn statement_spec(req: Request) -> Statement {
    match req {
        Request::List => Statement::SelectAll,
        Request::Create(t) => Statement::Insert { description: t.description },
        Request::Delete(id) => Statement::DeleteById { id },
        Request::Update(t) => Statement::UpdateById { id: t.id, description: t.description, done: t.done },
    }
}

/// The response for what a statement gave back.
pub open spec fn response_spec(outcome: Outcome, redirect_to: Seq<char>, r: Response) -> bool {
    match outcome {
        Outcome::Rows(rows) => match r {
            Response::Json(out) => rows_view(out@) == rows_view(rows@),
            _ => false,
        },
        Outcome::Done => match r {
            Response::Redirect(to) => to@ == redirect_to,
            _ => false,
        },
        Outcome::Failed(_) => r is ServerError,
    }
}

/// The response a request gets from a table in state `t`: the rows for a
/// listing, a server error for a create once every id is used, and a redirect
/// to `redirect_to` for every other write.
pub open spec fn answers(req: Request, t: TableView, redirect_to: Seq<char>, r: Response) -> bool {
    match req {
        Request::List => match r {
            Response::Json(out) => rows_view(out@) == t.rows,
            _ => false,
        },
        Request::Create(_) if !t.can_insert() => r is ServerError,
        _ => match r {
            Response::Redirect(to) => to@ == redirect_to,
            _ => false,
        },
    }
}

/// Turns a request into the statement it runs, with the request's values as
/// bound parameters.
pub fn statement_for(req: Request) -> (r: Statement)
    ensures
        r == statement_spec(req),
{
    match req {
        Request::List => Statement::SelectAll,
        Request::Create(t) => Statement::Insert { description: t.description },
        Request::Delete(id) => Statement::DeleteById { id },
        Request::Update(t) => Statement::UpdateById { id: t.id, description: t.description, done: t.done },
    }
}

/// Maps what a statement gave back to the response: rows as JSON, a completed
/// write as a redirect to `redirect_to`, a failure as a server error.
pub fn respond(outcome: Outcome, redirect_to: &str) -> (r: Response)
    ensures
        response_spec(outcome, redirect_to@, r),
{
    match outcome {
        Outcome::Rows(rows) => Response::Json(rows),
        Outcome::Done => Response::Redirect(redirect_to.to_owned()),
        Outcome::Failed(_) => Response::ServerError,
    }
}

/// Serves one request against an in-memory table: runs its statement and
/// answers with the response for the outcome.
pub fn handle(table: &mut TodoTable, req: Request, redirect_to: &str) -> (r: Response)
    requires
        old(table).wf(),
    ensures
        final(table).wf(),
        final(table)@ == statement_spec(req).effect(old(table)@),
        answers(req, old(table)@, redirect_to@, r),
{
    let stmt = statement_for(req);
    let outcome = table.execute(stmt);
    respond(outcome, redirect_to)
}

} // verus!
