use todo_backend::{
    handle, respond, statement_for, NewTodo, Outcome, Param, Request, Response, Statement,
    StorageError, Todo, TodoTable, FRONTEND_ORIGIN,
};

fn rows(table: &TodoTable) -> Vec<(i64, String, bool)> {
    table
        .list()
        .into_iter()
        .map(|t| (t.id, t.description, t.done))
        .collect()
}

fn create(table: &mut TodoTable, description: &str) -> Response {
    handle(table, Request::Create(NewTodo::new(description.to_string())), FRONTEND_ORIGIN)
}

fn is_redirect_to_frontend(r: &Response) -> bool {
    matches!(r, Response::Redirect(to) if to == FRONTEND_ORIGIN)
}

#[test]
fn end_to_end_scenario() {
    let mut table = TodoTable::new();
    match handle(&mut table, Request::List, FRONTEND_ORIGIN) {
        Response::Json(out) => assert!(out.is_empty()),
        _ => panic!("expected JSON"),
    }
    let r = create(&mut table, "test");
    assert!(is_redirect_to_frontend(&r));
    assert_eq!(r.status(), 303);
    assert_eq!(rows(&table), vec![(1, "test".to_string(), false)]);
    match handle(&mut table, Request::List, FRONTEND_ORIGIN) {
        Response::Json(out) => {
            assert_eq!(out.len(), 1);
            assert_eq!((out[0].id, out[0].description.as_str(), out[0].done), (1, "test", false));
        }
        _ => panic!("expected JSON"),
    }
    let r = handle(
        &mut table,
        Request::Update(Todo::new(1, "test2".to_string(), true)),
        FRONTEND_ORIGIN,
    );
    assert!(is_redirect_to_frontend(&r));
    assert_eq!(rows(&table), vec![(1, "test2".to_string(), true)]);
    let r = handle(&mut table, Request::Delete(1), FRONTEND_ORIGIN);
    assert!(is_redirect_to_frontend(&r));
    match handle(&mut table, Request::List, FRONTEND_ORIGIN) {
        Response::Json(out) => assert!(out.is_empty()),
        _ => panic!("expected JSON"),
    }
}

#[test]
fn delete_twice_succeeds_both_times() {
    let mut table = TodoTable::new();
    create(&mut table, "a");
    create(&mut table, "b");
    let first = handle(&mut table, Request::Delete(1), FRONTEND_ORIGIN);
    let after_first = rows(&table);
    let second = handle(&mut table, Request::Delete(1), FRONTEND_ORIGIN);
    assert!(is_redirect_to_frontend(&first));
    assert!(is_redirect_to_frontend(&second));
    assert_eq!(rows(&table), after_first);
    assert_eq!(after_first, vec![(2, "b".to_string(), false)]);
}

#[test]
fn create_buy_milk_round_trip() {
    let mut table = TodoTable::new();
    assert_eq!(table.create("buy milk".to_string()), Ok(1));
    assert_eq!(rows(&table), vec![(1, "buy milk".to_string(), false)]);
    assert_eq!(table.create("more".to_string()), Ok(2));
    table.delete(2);
    // ids are never reused, even after the largest one was deleted
    assert_eq!(table.create("again".to_string()), Ok(3));
}

#[test]
fn update_rewrites_only_that_row() {
    let mut table = TodoTable::new();
    create(&mut table, "one");
    create(&mut table, "two");
    create(&mut table, "three");
    table.update(2, "x".to_string(), true);
    assert_eq!(
        rows(&table),
        vec![
            (1, "one".to_string(), false),
            (2, "x".to_string(), true),
            (3, "three".to_string(), false),
        ]
    );
}

#[test]
fn update_of_missing_id_is_a_no_op() {
    let mut table = TodoTable::new();
    create(&mut table, "one");
    let r = handle(
        &mut table,
        Request::Update(Todo::new(42, "x".to_string(), true)),
        FRONTEND_ORIGIN,
    );
    assert!(is_redirect_to_frontend(&r));
    assert_eq!(rows(&table), vec![(1, "one".to_string(), false)]);
}

#[test]
fn list_is_ascending_by_id() {
    let mut table = TodoTable::new();
    for d in ["c", "a", "b", "d"] {
        create(&mut table, d);
    }
    table.update(1, "z".to_string(), true);
    table.delete(3);
    create(&mut table, "e");
    table.update(4, "first".to_string(), false);
    let ids: Vec<i64> = rows(&table).into_iter().map(|r| r.0).collect();
    assert_eq!(ids, vec![1, 2, 4, 5]);
}

#[test]
fn empty_description_is_accepted() {
    let mut table = TodoTable::new();
    let r = create(&mut table, "");
    assert!(is_redirect_to_frontend(&r));
    assert_eq!(rows(&table), vec![(1, String::new(), false)]);
}

#[test]
fn many_creates_get_distinct_ids() {
    let mut table = TodoTable::new();
    let n: i64 = 50;
    for k in 0..n {
        assert_eq!(table.create(format!("item {}", k)), Ok(k + 1));
    }
    let all = rows(&table);
    assert_eq!(all.len(), n as usize);
    for (k, row) in all.iter().enumerate() {
        assert_eq!(row.0, k as i64 + 1);
        assert_eq!(row.1, format!("item {}", k));
    }
}

#[test]
fn statements_bind_values_as_parameters() {
    let s = statement_for(Request::Create(NewTodo::new("x'); DROP TABLE todos; --".to_string())));
    assert_eq!(s.sql(), "INSERT INTO todos (description) VALUES (?)");
    let p = s.params();
    assert_eq!(p.len(), 1);
    assert!(matches!(&p[0], Param::Text(t) if t == "x'); DROP TABLE todos; --"));

    let s = statement_for(Request::Update(Todo::new(7, "d".to_string(), true)));
    assert_eq!(s.sql(), "UPDATE todos SET description = ?, done = ? WHERE id = ?");
    let p = s.params();
    assert_eq!(p.len(), 3);
    assert!(matches!(&p[0], Param::Text(t) if t == "d"));
    assert!(matches!(&p[1], Param::Bool(true)));
    assert!(matches!(&p[2], Param::Int(7)));

    let s = statement_for(Request::Delete(9));
    assert_eq!(s.sql(), "DELETE FROM todos WHERE id = ?");
    assert!(matches!(s.params().as_slice(), [Param::Int(9)]));

    let s = statement_for(Request::List);
    assert!(matches!(s, Statement::SelectAll));
    assert_eq!(s.sql(), "SELECT id, description, done FROM todos ORDER BY id");
    assert!(s.params().is_empty());
}

#[test]
fn responses_follow_outcomes() {
    let r = respond(Outcome::Done, "http://example.test");
    assert!(matches!(&r, Response::Redirect(to) if to == "http://example.test"));
    assert_eq!(r.status(), 303);

    let r = respond(Outcome::Failed(StorageError::Unavailable), FRONTEND_ORIGIN);
    assert!(matches!(r, Response::ServerError));
    assert_eq!(r.status(), 500);

    let r = respond(Outcome::Failed(StorageError::IdsExhausted), FRONTEND_ORIGIN);
    assert_eq!(r.status(), 500);

    let r = respond(Outcome::Rows(vec![Todo::new(3, "t".to_string(), true)]), FRONTEND_ORIGIN);
    assert_eq!(r.status(), 200);
    match r {
        Response::Json(out) => {
            assert_eq!(out.len(), 1);
            assert_eq!((out[0].id, out[0].description.as_str(), out[0].done), (3, "t", true));
        }
        _ => panic!("expected JSON"),
    }
}

#[test]
fn duplicate_copies_every_field() {
    let t = Todo::new(5, "copy me".to_string(), true);
    let c = t.duplicate();
    assert_eq!((c.id, c.description.as_str(), c.done), (5, "copy me", true));
}
