use rustdb::database::Database;
use rustdb::engine::process_command;
use rustdb::decimal::normal_float;
use rustdb::literal::parse_decimal;
use rustdb::statement::{
    Assignment, ColumnSpec, Expr, FromClause, Join, JoinConstraint, Literal, SelectItem, SqlError, SqlType,
    Statement, TableRef,
};
use rustdb::row::Row;
use rustdb::table::Table;
use rustdb::value::{int_to_text, Value};

fn s(x: &str) -> String {
    x.to_string()
}

fn col(name: &str, t: SqlType, unique: bool) -> ColumnSpec {
    ColumnSpec { name: s(name), data_type: t, unique }
}

fn create(name: &str, columns: Vec<ColumnSpec>) -> Statement {
    Statement::CreateTable { name: s(name), columns }
}

fn num(n: &str) -> Expr {
    Expr::Literal(Literal::Number(s(n)))
}

fn text(t: &str) -> Expr {
    Expr::Literal(Literal::Text(s(t)))
}

fn null() -> Expr {
    Expr::Literal(Literal::Null)
}

fn insert(table: &str, rows: Vec<Vec<Expr>>) -> Statement {
    Statement::Insert { table: s(table), values: Some(rows) }
}

fn select(table: &str, items: Vec<SelectItem>) -> Statement {
    Statement::Select {
        from: vec![FromClause { relation: TableRef::Named(s(table)), joins: vec![] }],
        projection: items,
    }
}

fn select_all(table: &str) -> Statement {
    select(table, vec![SelectItem::Wildcard])
}

fn id_is(n: &str) -> Option<Expr> {
    Some(Expr::Equals(Box::new(Expr::Identifier(s("id"))), Box::new(num(n))))
}

fn qualified(t: &str, c: &str) -> Expr {
    Expr::CompoundIdentifier(vec![s(t), s(c)])
}

fn join_select(left: &str, right: &str, on: JoinConstraint) -> Statement {
    Statement::Select {
        from: vec![FromClause {
            relation: TableRef::Named(s(left)),
            joins: vec![Join { relation: TableRef::Named(s(right)), constraint: on }],
        }],
        projection: vec![SelectItem::Wildcard],
    }
}

fn on_eq(a: Expr, b: Expr) -> JoinConstraint {
    JoinConstraint::InnerOn(Expr::Equals(Box::new(a), Box::new(b)))
}

fn run(db: &mut Database, stmt: Statement) -> Result<String, SqlError> {
    process_command(db, &stmt)
}

fn users() -> Database {
    let mut db = Database::new();
    let cols = vec![
        col("id", SqlType::Int, false),
        col("name", SqlType::Text, false),
        col("email", SqlType::Text, true),
    ];
    assert_eq!(run(&mut db, create("users", cols)).unwrap(), "Table 'users' created");
    db
}

fn row_count(db: &Database, table: &str) -> usize {
    db.tables.iter().find(|t| t.name == table).unwrap().data.len()
}

#[test]
fn unique_violation_on_second_email() {
    let mut db = users();
    let first = run(&mut db, insert("users", vec![vec![num("1"), text("a"), text("a@x.com")]]));
    assert_eq!(first.unwrap(), "Inserted 1 rows");
    let second = run(&mut db, insert("users", vec![vec![num("2"), text("b"), text("a@x.com")]]));
    match second {
        Err(SqlError::UniqueViolation { column, value: Value::Text(v) }) => {
            assert_eq!(column, "email");
            assert_eq!(v, "a@x.com");
        },
        other => panic!("unexpected {:?}", other),
    }
    assert_eq!(row_count(&db, "users"), 1);
}

#[test]
fn select_after_insert_shows_header_and_one_line() {
    let mut db = users();
    run(&mut db, insert("users", vec![vec![num("1"), text("a"), text("a@x.com")]])).unwrap();
    let out = run(&mut db, select_all("users")).unwrap();
    let lines: Vec<&str> = out.split('\n').collect();
    assert_eq!(lines.len(), 2);
    assert_eq!(lines[0], "ID | id | name | email");
    assert_eq!(lines[1], "1  | 1 | a | a@x.com");
}

#[test]
fn join_on_shared_value_gives_one_row() {
    let mut db = Database::new();
    run(&mut db, create("a", vec![col("id", SqlType::Int, false), col("bid", SqlType::Int, false)])).unwrap();
    run(&mut db, create("b", vec![col("id", SqlType::Int, false)])).unwrap();
    run(&mut db, insert("a", vec![vec![num("1"), num("7")]])).unwrap();
    run(&mut db, insert("b", vec![vec![num("7")]])).unwrap();
    let out = run(&mut db, join_select("a", "b", on_eq(qualified("a", "bid"), qualified("b", "id")))).unwrap();
    assert_eq!(out, "a.id | a.bid | b.id\n1 | 7 | 7");
}

#[test]
fn join_pairs_every_match_in_id_order() {
    let mut db = Database::new();
    run(&mut db, create("l", vec![col("k", SqlType::Int, false)])).unwrap();
    run(&mut db, create("r", vec![col("k", SqlType::Int, false), col("v", SqlType::Text, false)])).unwrap();
    run(&mut db, insert("l", vec![vec![num("1")], vec![num("2")]])).unwrap();
    run(&mut db, insert("r", vec![vec![num("2"), text("x")], vec![num("2"), text("y")], vec![num("3"), text("z")]])).unwrap();
    let on = on_eq(Expr::Identifier(s("k")), Expr::Identifier(s("k")));
    let out = run(&mut db, join_select("l", "r", on)).unwrap();
    assert_eq!(out, "l.k | r.k | r.v\n2 | 2 | x\n2 | 2 | y");
}

#[test]
fn null_join_key_matches_nothing() {
    let mut db = Database::new();
    run(&mut db, create("a", vec![col("k", SqlType::Int, false)])).unwrap();
    run(&mut db, create("b", vec![col("k", SqlType::Int, false)])).unwrap();
    run(&mut db, insert("a", vec![vec![null()]])).unwrap();
    run(&mut db, insert("b", vec![vec![null()]])).unwrap();
    let out = run(&mut db, join_select("a", "b", on_eq(qualified("a", "k"), qualified("b", "k")))).unwrap();
    assert_eq!(out, "a.k | b.k");
}

#[test]
fn typed_values_round_trip_through_select() {
    let mut db = Database::new();
    let cols = vec![
        col("n", SqlType::Int, false),
        col("f", SqlType::Float, false),
        col("t", SqlType::Text, false),
        col("b", SqlType::Boolean, false),
        col("z", SqlType::Int, false),
    ];
    run(&mut db, create("v", cols)).unwrap();
    let row = vec![num("-0"), num("2.50"), text("hi"), Expr::Literal(Literal::Boolean(true)), null()];
    run(&mut db, insert("v", vec![row])).unwrap();
    let out = run(&mut db, select_all("v")).unwrap();
    assert_eq!(out, "ID | n | f | t | b | z\n1  | 0 | 2.5 | hi | true | NULL");
}

#[test]
fn negative_integer_renders_with_sign() {
    assert_eq!(Value::Integer(-42).render(), "-42");
    assert_eq!(Value::Integer(9_223_372_036_854_775_807).render(), "9223372036854775807");
    assert_eq!(Value::Bool(false).render(), "false");
}

#[test]
fn type_mismatch_commits_nothing() {
    let mut db = users();
    let r = run(&mut db, insert("users", vec![vec![text("x"), text("a"), text("e")]]));
    match r {
        Err(SqlError::TypeMismatch { column, actual: Value::Text(v), .. }) => {
            assert_eq!(column, "id");
            assert_eq!(v, "x");
        },
        other => panic!("unexpected {:?}", other),
    }
    assert_eq!(row_count(&db, "users"), 0);
}

#[test]
fn earlier_rows_of_a_refused_insert_stay() {
    let mut db = users();
    let r = run(&mut db, insert("users", vec![
        vec![num("1"), text("a"), text("a@x")],
        vec![num("2"), num("5"), text("b@x")],
        vec![num("3"), text("c"), text("c@x")],
    ]));
    assert!(matches!(r, Err(SqlError::TypeMismatch { .. })));
    assert_eq!(row_count(&db, "users"), 1);
}

#[test]
fn delete_of_missing_id_is_refused() {
    let mut db = users();
    run(&mut db, insert("users", vec![vec![num("1"), text("a"), text("a@x")]])).unwrap();
    let del = Statement::Delete { from: vec![TableRef::Named(s("users"))], tables: vec![], selection: id_is("9") };
    assert!(matches!(run(&mut db, del), Err(SqlError::RowNotFound(n)) if n == "9"));
    assert_eq!(row_count(&db, "users"), 1);
}

#[test]
fn delete_removes_row_and_keeps_last_id() {
    let mut db = users();
    run(&mut db, insert("users", vec![vec![num("1"), text("a"), text("a@x")], vec![num("2"), text("b"), text("b@x")]])).unwrap();
    let del = Statement::Delete { from: vec![], tables: vec![s("users")], selection: id_is("2") };
    assert_eq!(run(&mut db, del).unwrap(), "Deleted row with id 2");
    assert_eq!(row_count(&db, "users"), 1);
    let t: &Table = &db.tables[0];
    assert_eq!(t.last_id, 2);
}

#[test]
fn update_changes_only_assigned_columns() {
    let mut db = users();
    run(&mut db, insert("users", vec![vec![num("1"), text("a"), text("a@x")], vec![num("2"), text("b"), text("b@x")]])).unwrap();
    let upd = Statement::Update {
        table: TableRef::Named(s("users")),
        assignments: vec![Assignment { column: s("name"), value: text("z") }],
        selection: id_is("1"),
    };
    assert_eq!(run(&mut db, upd).unwrap(), "Updated row 1");
    let out = run(&mut db, select_all("users")).unwrap();
    assert_eq!(out, "ID | id | name | email\n1  | 1 | z | a@x\n2  | 2 | b | b@x");
}

#[test]
fn update_with_unsupported_value_changes_nothing() {
    let mut db = users();
    run(&mut db, insert("users", vec![vec![num("1"), text("a"), text("a@x")]])).unwrap();
    let upd = Statement::Update {
        table: TableRef::Named(s("users")),
        assignments: vec![
            Assignment { column: s("name"), value: text("z") },
            Assignment { column: s("email"), value: Expr::Other },
        ],
        selection: id_is("1"),
    };
    assert!(matches!(run(&mut db, upd), Err(SqlError::UnsupportedExpression)));
    let out = run(&mut db, select_all("users")).unwrap();
    assert_eq!(out, "ID | id | name | email\n1  | 1 | a | a@x");
}

#[test]
fn update_of_other_literal_stores_null() {
    let mut db = users();
    run(&mut db, insert("users", vec![vec![num("1"), text("a"), text("a@x")]])).unwrap();
    let upd = Statement::Update {
        table: TableRef::Named(s("users")),
        assignments: vec![Assignment { column: s("name"), value: Expr::Literal(Literal::Other) }],
        selection: id_is("1"),
    };
    run(&mut db, upd).unwrap();
    let out = run(&mut db, select(
        "users",
        vec![SelectItem::Column(s("name"))],
    )).unwrap();
    assert_eq!(out, "ID | name\n1  | NULL");
}

#[test]
fn ids_count_up_and_explicit_id_overwrites() {
    let mut db = Database::new();
    run(&mut db, create("t", vec![col("v", SqlType::Text, false)])).unwrap();
    run(&mut db, insert("t", vec![vec![text("a")], vec![text("b")]])).unwrap();
    assert_eq!(run(&mut db, select_all("t")).unwrap(), "ID | v\n1  | a\n2  | b");
    let mut db2 = users();
    run(&mut db2, insert("users", vec![vec![num("5"), text("a"), text("a@x")]])).unwrap();
    run(&mut db2, insert("users", vec![vec![num("5"), text("b"), text("b@x")]])).unwrap();
    assert_eq!(run(&mut db2, select_all("users")).unwrap(), "ID | id | name | email\n5  | 5 | b | b@x");
}

#[test]
fn explicit_id_is_cut_to_32_bits() {
    let mut db = users();
    run(&mut db, insert("users", vec![vec![num("4294967297"), text("a"), text("a@x")]])).unwrap();
    assert_eq!(db.tables[0].data[0].id, 1);
}

#[test]
fn exhausted_ids_are_refused() {
    let mut db = users();
    run(&mut db, insert("users", vec![vec![num("4294967295"), text("a"), text("a@x")]])).unwrap();
    let r = run(&mut db, insert("users", vec![vec![]]));
    assert!(matches!(r, Err(SqlError::IdsExhausted)));
}

#[test]
fn null_in_unique_column_repeats() {
    let mut db = users();
    run(&mut db, insert("users", vec![vec![num("1"), text("a"), null()]])).unwrap();
    run(&mut db, insert("users", vec![vec![num("2"), text("b"), null()]])).unwrap();
    assert_eq!(row_count(&db, "users"), 2);
}

#[test]
fn projection_lists_and_wildcard() {
    let mut db = users();
    run(&mut db, insert("users", vec![vec![num("1"), text("a"), text("a@x")]])).unwrap();
    let out = run(&mut db, select("users", vec![SelectItem::Column(s("email")), SelectItem::Column(s("id"))])).unwrap();
    assert_eq!(out, "ID | email | id\n1  | a@x | 1");
    let out = run(&mut db, select("users", vec![SelectItem::Column(s("email")), SelectItem::Wildcard])).unwrap();
    assert_eq!(out, "ID | id | name | email\n1  | 1 | a | a@x");
}

#[test]
fn each_error_kind() {
    let mut db = users();
    assert!(matches!(run(&mut db, create("users", vec![])), Err(SqlError::TableExists(n)) if n == "users"));
    let bad = vec![col("a", SqlType::Int, false), col("b", SqlType::Other(s("BLOB")), false)];
    assert!(matches!(run(&mut db, create("x", bad)), Err(SqlError::UnsupportedType(t)) if t == "BLOB"));
    assert!(matches!(run(&mut db, select_all("nope")), Err(SqlError::TableNotFound(n)) if n == "nope"));
    let four = vec![vec![num("1"), text("a"), text("e"), num("4")]];
    assert!(matches!(run(&mut db, insert("users", four)), Err(SqlError::ArityError)));
    assert!(matches!(run(&mut db, insert("users", vec![vec![Expr::Identifier(s("x"))]])), Err(SqlError::UnsupportedExpression)));
    let no_values = Statement::Insert { table: s("users"), values: None };
    assert!(matches!(run(&mut db, no_values), Err(SqlError::UnsupportedStatement)));
    let missing = select("users", vec![SelectItem::Column(s("age"))]);
    assert!(matches!(run(&mut db, missing), Err(SqlError::ColumnNotFound(c)) if c == "age"));
    assert!(matches!(run(&mut db, select("users", vec![SelectItem::Other])), Err(SqlError::UnsupportedProjection)));
    let outer = join_select("users", "users", JoinConstraint::Other);
    assert!(matches!(run(&mut db, outer), Err(SqlError::UnsupportedJoin)));
    let not_eq = join_select("users", "users", JoinConstraint::InnerOn(Expr::Other));
    assert!(matches!(run(&mut db, not_eq), Err(SqlError::UnsupportedJoin)));
    let by_name = Some(Expr::Equals(Box::new(Expr::Identifier(s("name"))), Box::new(num("1"))));
    let del = Statement::Delete { from: vec![TableRef::Named(s("users"))], tables: vec![], selection: by_name };
    assert!(matches!(run(&mut db, del), Err(SqlError::UnsupportedPredicate)));
    let del = Statement::Delete { from: vec![TableRef::Named(s("users"))], tables: vec![], selection: None };
    assert!(matches!(run(&mut db, del), Err(SqlError::MissingWhereClause)));
    let del = Statement::Delete { from: vec![], tables: vec![], selection: id_is("1") };
    assert!(matches!(run(&mut db, del), Err(SqlError::NoTableSpecified)));
    let del = Statement::Delete { from: vec![TableRef::Other], tables: vec![], selection: id_is("1") };
    assert!(matches!(run(&mut db, del), Err(SqlError::UnsupportedTableReference)));
    let upd = Statement::Update { table: TableRef::Named(s("users")), assignments: vec![], selection: id_is("3") };
    assert!(matches!(run(&mut db, upd), Err(SqlError::RowNotFound(n)) if n == "3"));
    let upd = Statement::Update { table: TableRef::Named(s("users")), assignments: vec![], selection: None };
    assert!(matches!(run(&mut db, upd), Err(SqlError::UnsupportedPredicate)));
    let empty = Statement::Select { from: vec![], projection: vec![SelectItem::Wildcard] };
    assert!(matches!(run(&mut db, empty), Err(SqlError::NoTableSpecified)));
    assert!(matches!(run(&mut db, Statement::Other), Err(SqlError::UnsupportedStatement)));
    assert_eq!(row_count(&db, "users"), 0);
    assert_eq!(db.tables.len(), 1);
}

#[test]
fn id_predicate_ignores_letter_case() {
    let mut db = users();
    run(&mut db, insert("users", vec![vec![num("1"), text("a"), text("a@x")]])).unwrap();
    let pred = Some(Expr::Equals(Box::new(Expr::Identifier(s("ID"))), Box::new(num("1"))));
    let del = Statement::Delete { from: vec![TableRef::Named(s("users"))], tables: vec![], selection: pred };
    assert!(run(&mut db, del).is_ok());
    assert_eq!(row_count(&db, "users"), 0);
}

#[test]
fn decimal_parsing() {
    assert_eq!(parse_decimal(&s("0"), 10), Some(0));
    assert_eq!(parse_decimal(&s("4294967295"), 4294967295), Some(4294967295));
    assert_eq!(parse_decimal(&s("4294967296"), 4294967295), None);
    assert_eq!(parse_decimal(&s(""), 10), None);
    assert_eq!(parse_decimal(&s("1e5"), 1000000), None);
}

#[test]
fn well_formedness_check_of_a_loaded_store() {
    let mut db = users();
    run(&mut db, insert("users", vec![vec![num("1"), text("a"), text("a@x")], vec![num("2"), text("b"), text("b@x")]])).unwrap();
    assert!(db.is_well_formed());
    db.tables[0].data.swap(0, 1);
    assert!(!db.is_well_formed());
    db.tables[0].data.swap(0, 1);
    db.tables[0].data.push(Row { id: 9, data: vec![] });
    assert!(!db.is_well_formed());
    let mut twice = Database::new();
    twice.tables.push(Table::new(s("t")));
    twice.tables.push(Table::new(s("t")));
    assert!(!twice.is_well_formed());
}

#[test]
fn id_numeral_past_32_bits_names_no_row() {
    let mut db = users();
    run(&mut db, insert("users", vec![vec![num("0"), text("a"), text("a@x")]])).unwrap();
    assert_eq!(db.tables[0].data[0].id, 0);
    let del = Statement::Delete { from: vec![TableRef::Named(s("users"))], tables: vec![], selection: id_is("4294967296") };
    assert!(matches!(run(&mut db, del), Err(SqlError::RowNotFound(n)) if n == "4294967296"));
    let upd = Statement::Update {
        table: TableRef::Named(s("users")),
        assignments: vec![Assignment { column: s("name"), value: text("z") }],
        selection: id_is("4294967296"),
    };
    assert!(matches!(run(&mut db, upd), Err(SqlError::RowNotFound(n)) if n == "4294967296"));
    assert_eq!(run(&mut db, select_all("users")).unwrap(), "ID | id | name | email\n0  | 0 | a | a@x");
}

#[test]
fn equal_floats_clash_whatever_their_numeral() {
    let mut db = Database::new();
    run(&mut db, create("p", vec![col("x", SqlType::Float, true)])).unwrap();
    run(&mut db, insert("p", vec![vec![num("2.5")]])).unwrap();
    let r = run(&mut db, insert("p", vec![vec![num("02.50")]]));
    assert!(matches!(r, Err(SqlError::UniqueViolation { .. })));
    assert_eq!(row_count(&db, "p"), 1);
    run(&mut db, create("q", vec![col("y", SqlType::Float, false)])).unwrap();
    run(&mut db, insert("q", vec![vec![num("2.500")]])).unwrap();
    let out = run(&mut db, join_select("p", "q", on_eq(qualified("p", "x"), qualified("q", "y")))).unwrap();
    assert_eq!(out, "p.x | q.y\n2.5 | 2.5");
}

#[test]
fn float_numerals_in_canonical_form() {
    assert_eq!(normal_float(&s("02.50")), "2.5");
    assert_eq!(normal_float(&s("3.0")), "3");
    assert_eq!(normal_float(&s(".5")), "0.5");
    assert_eq!(normal_float(&s("0.0")), "0");
    assert_eq!(normal_float(&s("1.5e10")), "1.5e10");
    assert_eq!(Value::Float(s("10.10")).render(), "10.1");
}

#[test]
fn integer_text_at_the_extremes() {
    assert_eq!(int_to_text(0), "0");
    assert_eq!(int_to_text(i128::MIN), "-170141183460469231731687303715884105728");
    assert_eq!(int_to_text(i128::MAX), "170141183460469231731687303715884105727");
    assert_eq!(int_to_text(-7), "-7");
}
