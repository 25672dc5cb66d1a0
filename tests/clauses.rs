use diesel::clause::{LimitClause, NoLimitClause, OrderClause, WhereClause};
use diesel::expression::{Column, ConstructionError, Expression};
use diesel::offset_clause::{NoOffsetClause, OffsetClause};
use diesel::query::Query;
use diesel::query_builder::{BindParam, BuildError, QueryBuilder};
use diesel::source::{ForeignKey, JoinKind, Schema, Source, Table};
use diesel::types::{ScalarType, SqlType, Value};

fn tag(scalar: ScalarType) -> SqlType {
    SqlType::not_null(scalar)
}

fn big(n: i64) -> Expression {
    Expression::bound(tag(ScalarType::BigInt), Value::BigInt(n))
}

fn col(table: &str, name: &str, sql_type: SqlType) -> Column {
    Column { table: table.to_string(), name: name.to_string(), sql_type }
}

fn users() -> Table {
    Table {
        name: "users".to_string(),
        columns: vec![
            col("users", "id", tag(ScalarType::Integer)),
            col("users", "name", tag(ScalarType::Text)),
        ],
    }
}

fn posts() -> Table {
    Table {
        name: "posts".to_string(),
        columns: vec![
            col("posts", "id", tag(ScalarType::Integer)),
            col("posts", "user_id", tag(ScalarType::Integer)),
            col("posts", "body", tag(ScalarType::Text).into_nullable()),
        ],
    }
}

fn schema() -> Schema {
    Schema {
        foreign_keys: vec![ForeignKey {
            child: col("posts", "user_id", tag(ScalarType::Integer)),
            parent: col("users", "id", tag(ScalarType::Integer)),
        }],
    }
}

#[test]
fn no_offset_renders_nothing() {
    let mut out = QueryBuilder::new();
    out.push_sql("SELECT 1");
    assert_eq!(NoOffsetClause.to_sql(&mut out), Ok(()));
    assert_eq!(out.sql, "SELECT 1");
    assert!(out.binds.is_empty());
    let mut out = QueryBuilder::new();
    assert_eq!(NoLimitClause.to_sql(&mut out), Ok(()));
    assert_eq!(out.sql, "");
}

#[test]
fn offset_renders_keyword_and_placeholder() {
    let mut out = QueryBuilder::new();
    let clause = OffsetClause::new(big(20)).ok().unwrap();
    assert_eq!(clause.to_sql(&mut out), Ok(()));
    assert_eq!(out.sql, "OFFSET $1");
    assert_eq!(
        out.binds,
        vec![BindParam { value: Value::BigInt(20), sql_type: tag(ScalarType::BigInt) }]
    );
}

#[test]
fn limit_renders_keyword_and_placeholder() {
    let mut out = QueryBuilder::new();
    let clause = LimitClause::new(big(3)).ok().unwrap();
    assert_eq!(clause.to_sql(&mut out), Ok(()));
    assert_eq!(out.sql, "LIMIT $1");
    assert_eq!(out.binds.len(), 1);
}

#[test]
fn offset_needs_a_big_integer_bound() {
    let int_bound = Expression::bound(tag(ScalarType::Integer), Value::Integer(3));
    assert!(matches!(OffsetClause::new(int_bound), Err(ConstructionError::TypeMismatch)));
    let nullable = Expression::bound(tag(ScalarType::BigInt).into_nullable(), Value::BigInt(3));
    assert!(matches!(OffsetClause::new(nullable), Err(ConstructionError::TypeMismatch)));
    let text = Expression::column(col("users", "name", tag(ScalarType::Text)));
    assert!(matches!(LimitClause::new(text), Err(ConstructionError::TypeMismatch)));
    let r = Query::table(users()).offset(Expression::bound(tag(ScalarType::Integer), Value::Integer(1)));
    assert!(matches!(r, Err(ConstructionError::TypeMismatch)));
}

#[test]
fn where_needs_a_boolean_predicate() {
    let id = Expression::column(col("users", "id", tag(ScalarType::Integer)));
    assert!(matches!(WhereClause::new(id), Err(ConstructionError::TypeMismatch)));
    let r = Query::table(users()).filter(Expression::column(col("users", "name", tag(ScalarType::Text))));
    assert!(matches!(r, Err(ConstructionError::TypeMismatch)));
}

#[test]
fn clauses_render_in_grammar_order() {
    let pred = Expression::equal(
        Expression::column(col("users", "id", tag(ScalarType::Integer))),
        Expression::bound(tag(ScalarType::Integer), Value::Integer(7)),
    )
    .ok()
    .unwrap();
    let q = Query::table(users())
        .offset(big(10))
        .ok()
        .unwrap()
        .limit(big(5))
        .ok()
        .unwrap()
        .order_by(Expression::column(col("users", "name", tag(ScalarType::Text))))
        .filter(pred)
        .ok()
        .unwrap();
    let (sql, binds) = q.to_sql().unwrap();
    assert_eq!(
        sql,
        "SELECT users.id, users.name FROM users WHERE users.id = $1 ORDER BY users.name LIMIT $2 OFFSET $3"
    );
    assert_eq!(
        binds,
        vec![
            BindParam { value: Value::Integer(7), sql_type: tag(ScalarType::Integer) },
            BindParam { value: Value::BigInt(5), sql_type: tag(ScalarType::BigInt) },
            BindParam { value: Value::BigInt(10), sql_type: tag(ScalarType::BigInt) },
        ]
    );
}

#[test]
fn unset_limit_and_offset_leave_no_whitespace() {
    let q = Query::table(users());
    assert_eq!(q.to_sql().unwrap().0, "SELECT users.id, users.name FROM users");
    let q = Query::table(users()).offset(big(2)).ok().unwrap();
    assert_eq!(q.to_sql().unwrap().0, "SELECT users.id, users.name FROM users OFFSET $1");
}

#[test]
fn rendering_twice_gives_the_same_statement() {
    let q = Query::table(users()).limit(big(1)).ok().unwrap();
    let first = q.to_sql().unwrap();
    let second = q.to_sql().unwrap();
    assert_eq!(first, second);
}

#[test]
fn value_that_does_not_fit_its_tag_fails_rendering() {
    let bad = Expression::bound(tag(ScalarType::BigInt), Value::Text("ten".to_string()));
    let q = Query::table(users()).limit(bad).ok().unwrap();
    assert_eq!(q.to_sql(), Err(BuildError::ValueDoesNotFitType));
    let null = Expression::bound(tag(ScalarType::BigInt), Value::Null);
    let q = Query::table(users()).offset(null).ok().unwrap();
    assert_eq!(q.to_sql(), Err(BuildError::ValueDoesNotFitType));
}

#[test]
fn null_fits_a_nullable_tag() {
    let mut out = QueryBuilder::new();
    let r = out.push_bound_value(&Value::Null, tag(ScalarType::Text).into_nullable());
    assert_eq!(r, Ok(()));
    assert_eq!(out.sql, "$1");
    let r = out.push_bound_value(&Value::Null, tag(ScalarType::Text));
    assert_eq!(r, Err(BuildError::ValueDoesNotFitType));
    assert_eq!(out.sql, "$1");
    assert_eq!(out.binds.len(), 1);
}

#[test]
fn placeholders_count_past_nine() {
    let mut e = Expression::bound(tag(ScalarType::Bool), Value::Bool(true));
    for _ in 0..10 {
        e = Expression::equal(e, Expression::bound(tag(ScalarType::Bool), Value::Bool(false)))
            .ok()
            .unwrap();
    }
    let mut out = QueryBuilder::new();
    assert_eq!(e.to_sql(&mut out), Ok(()));
    assert_eq!(out.sql, "$1 = $2 = $3 = $4 = $5 = $6 = $7 = $8 = $9 = $10 = $11");
    assert_eq!(out.binds.len(), 11);
    assert_eq!(out.binds[0].value, Value::Bool(true));
    assert_eq!(out.binds[10].value, Value::Bool(false));
}

#[test]
fn order_clause_renders_its_expression() {
    let mut out = QueryBuilder::new();
    let c = OrderClause(Expression::column(col("posts", "id", tag(ScalarType::Integer))));
    assert_eq!(c.to_sql(&mut out), Ok(()));
    assert_eq!(out.sql, "ORDER BY posts.id");
}

#[test]
fn inner_join_keeps_both_shapes() {
    let src = Source::table(users()).join(posts(), JoinKind::Inner, &schema()).ok().unwrap();
    assert_eq!(
        src.get_row_shape(),
        vec![
            tag(ScalarType::Integer),
            tag(ScalarType::Text),
            tag(ScalarType::Integer),
            tag(ScalarType::Integer),
            tag(ScalarType::Text).into_nullable(),
        ]
    );
}

#[test]
fn left_outer_join_wraps_right_side_once() {
    let src = Source::table(users()).join(posts(), JoinKind::LeftOuter, &schema()).ok().unwrap();
    assert_eq!(
        src.get_row_shape(),
        vec![
            tag(ScalarType::Integer),
            tag(ScalarType::Text),
            tag(ScalarType::Integer).into_nullable(),
            tag(ScalarType::Integer).into_nullable(),
            tag(ScalarType::Text).into_nullable(),
        ]
    );
    let wrapped = tag(ScalarType::Text).into_nullable();
    assert_eq!(wrapped.into_nullable(), wrapped);
}

#[test]
fn value_fits_only_its_own_scalar() {
    assert!(Value::Integer(1).fits(tag(ScalarType::Integer)));
    assert!(!Value::Integer(1).fits(tag(ScalarType::BigInt)));
    assert!(Value::Text("a".to_string()).fits(tag(ScalarType::Text).into_nullable()));
    assert!(!Value::Bool(true).fits(tag(ScalarType::Text)));
    assert_eq!(Value::Text("a".to_string()).duplicate(), Value::Text("a".to_string()));
}
