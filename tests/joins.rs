use diesel::expression::{Column, ConstructionError, Expression};
use diesel::query::Query;
use diesel::select_clause::{FieldShape, RowShape, SelectItem};
use diesel::source::{ForeignKey, Schema, Table};
use diesel::types::{ScalarType, SqlType};

fn integer() -> SqlType {
    SqlType { scalar: ScalarType::Integer, nullable: false }
}

fn text() -> SqlType {
    SqlType { scalar: ScalarType::Text, nullable: false }
}

fn nullable_text() -> SqlType {
    SqlType { scalar: ScalarType::Text, nullable: true }
}

fn col(table: &str, name: &str, sql_type: SqlType) -> Column {
    Column { table: table.to_string(), name: name.to_string(), sql_type }
}

fn users() -> Table {
    Table {
        name: "users".to_string(),
        columns: vec![col("users", "id", integer()), col("users", "name", text())],
    }
}

fn posts() -> Table {
    Table {
        name: "posts".to_string(),
        columns: vec![
            col("posts", "id", integer()),
            col("posts", "user_id", integer()),
            col("posts", "title", text()),
            col("posts", "body", nullable_text()),
        ],
    }
}

fn comments() -> Table {
    Table {
        name: "comments".to_string(),
        columns: vec![
            col("comments", "id", integer()),
            col("comments", "post_id", integer()),
            col("comments", "text", text()),
        ],
    }
}

fn schema() -> Schema {
    Schema {
        foreign_keys: vec![
            ForeignKey { child: col("posts", "user_id", integer()), parent: col("users", "id", integer()) },
            ForeignKey {
                child: col("comments", "post_id", integer()),
                parent: col("posts", "id", integer()),
            },
        ],
    }
}

fn user_tags() -> Vec<SqlType> {
    vec![integer(), text()]
}

fn post_tags() -> Vec<SqlType> {
    vec![integer(), integer(), text(), nullable_text()]
}

fn sql_of(q: &Query) -> String {
    q.to_sql().unwrap().0
}

#[test]
fn belongs_to() {
    let q = Query::table(posts()).inner_join(users(), &schema()).unwrap();
    assert_eq!(
        sql_of(&q),
        "SELECT posts.id, posts.user_id, posts.title, posts.body, users.id, users.name \
         FROM posts INNER JOIN users ON posts.user_id = users.id"
    );
    assert_eq!(
        q.get_row_shape(),
        RowShape {
            optional: false,
            fields: vec![
                FieldShape::Record(false, post_tags()),
                FieldShape::Record(false, user_tags()),
            ],
        }
    );
}

#[test]
fn select_single_from_join() {
    let select_name = Query::table(posts())
        .inner_join(users(), &schema())
        .unwrap()
        .select(vec![SelectItem::Column(col("users", "name", text()))])
        .unwrap();
    let select_title = Query::table(posts())
        .inner_join(users(), &schema())
        .unwrap()
        .select(vec![SelectItem::Column(col("posts", "title", text()))])
        .unwrap();
    assert_eq!(
        sql_of(&select_name),
        "SELECT users.name FROM posts INNER JOIN users ON posts.user_id = users.id"
    );
    assert_eq!(
        select_name.get_row_shape(),
        RowShape { optional: false, fields: vec![FieldShape::Value(text())] }
    );
    assert_eq!(
        sql_of(&select_title),
        "SELECT posts.title FROM posts INNER JOIN users ON posts.user_id = users.id"
    );
    assert_eq!(
        select_title.get_row_shape(),
        RowShape { optional: false, fields: vec![FieldShape::Value(text())] }
    );
}

#[test]
fn select_multiple_from_join() {
    let q = Query::table(posts())
        .inner_join(users(), &schema())
        .unwrap()
        .select(vec![
            SelectItem::Column(col("users", "name", text())),
            SelectItem::Column(col("posts", "title", text())),
        ])
        .unwrap();
    assert_eq!(
        sql_of(&q),
        "SELECT users.name, posts.title FROM posts INNER JOIN users ON posts.user_id = users.id"
    );
    assert_eq!(
        q.get_row_shape(),
        RowShape {
            optional: false,
            fields: vec![FieldShape::Value(text()), FieldShape::Value(text())],
        }
    );
}

#[test]
fn select_only_one_side_of_join() {
    let q = Query::table(users())
        .inner_join(posts(), &schema())
        .unwrap()
        .select(vec![SelectItem::Group(users().columns)])
        .unwrap();
    assert_eq!(
        sql_of(&q),
        "SELECT users.id, users.name FROM users INNER JOIN posts ON posts.user_id = users.id"
    );
    assert_eq!(
        q.get_row_shape(),
        RowShape { optional: false, fields: vec![FieldShape::Record(false, user_tags())] }
    );
}

#[test]
fn left_outer_joins() {
    let q = Query::table(users()).left_outer_join(posts(), &schema()).unwrap();
    assert_eq!(
        sql_of(&q),
        "SELECT users.id, users.name, posts.id, posts.user_id, posts.title, posts.body \
         FROM users LEFT OUTER JOIN posts ON posts.user_id = users.id"
    );
    assert_eq!(
        q.get_row_shape(),
        RowShape {
            optional: false,
            fields: vec![
                FieldShape::Record(false, user_tags()),
                FieldShape::Record(true, post_tags()),
            ],
        }
    );
}

#[test]
fn columns_on_right_side_of_left_outer_joins_are_nullable() {
    let q = Query::table(users())
        .left_outer_join(posts(), &schema())
        .unwrap()
        .select(vec![
            SelectItem::Column(col("users", "name", text())),
            SelectItem::Column(col("posts", "title", text())),
        ])
        .unwrap();
    assert_eq!(
        q.get_row_shape(),
        RowShape {
            optional: false,
            fields: vec![FieldShape::Value(text()), FieldShape::Value(nullable_text())],
        }
    );
}

#[test]
fn select_multiple_from_right_side_returns_optional_tuple() {
    let q = Query::table(users())
        .left_outer_join(posts(), &schema())
        .unwrap()
        .select(vec![
            SelectItem::Column(col("posts", "title", text())),
            SelectItem::Column(col("posts", "body", nullable_text())),
        ])
        .unwrap();
    assert_eq!(
        sql_of(&q),
        "SELECT posts.title, posts.body FROM users LEFT OUTER JOIN posts ON posts.user_id = users.id"
    );
    assert_eq!(
        q.get_row_shape(),
        RowShape {
            optional: true,
            fields: vec![FieldShape::Value(text()), FieldShape::Value(nullable_text())],
        }
    );
}

#[test]
fn select_complex_from_left_join() {
    let q = Query::table(users())
        .left_outer_join(posts(), &schema())
        .unwrap()
        .select(vec![
            SelectItem::Group(users().columns),
            SelectItem::Group(vec![
                col("posts", "title", text()),
                col("posts", "body", nullable_text()),
            ]),
        ])
        .unwrap();
    assert_eq!(
        sql_of(&q),
        "SELECT users.id, users.name, posts.title, posts.body \
         FROM users LEFT OUTER JOIN posts ON posts.user_id = users.id"
    );
    assert_eq!(
        q.get_row_shape(),
        RowShape {
            optional: false,
            fields: vec![
                FieldShape::Record(false, user_tags()),
                FieldShape::Record(true, vec![text(), nullable_text()]),
            ],
        }
    );
}

#[test]
fn select_right_side_with_nullable_column_first() {
    let q = Query::table(users())
        .left_outer_join(posts(), &schema())
        .unwrap()
        .select(vec![
            SelectItem::Group(users().columns),
            SelectItem::Group(vec![
                col("posts", "body", nullable_text()),
                col("posts", "title", text()),
            ]),
        ])
        .unwrap();
    assert_eq!(
        q.get_row_shape(),
        RowShape {
            optional: false,
            fields: vec![
                FieldShape::Record(false, user_tags()),
                FieldShape::Record(true, vec![nullable_text(), text()]),
            ],
        }
    );
}

#[test]
fn select_then_join() {
    let inner = Query::table(users())
        .select(vec![SelectItem::Column(col("users", "id", integer()))])
        .unwrap()
        .inner_join(posts(), &schema())
        .unwrap();
    assert_eq!(
        sql_of(&inner),
        "SELECT users.id FROM users INNER JOIN posts ON posts.user_id = users.id"
    );
    assert_eq!(
        inner.get_row_shape(),
        RowShape { optional: false, fields: vec![FieldShape::Value(integer())] }
    );

    let outer = Query::table(users())
        .select(vec![SelectItem::Column(col("users", "id", integer()))])
        .unwrap()
        .left_outer_join(posts(), &schema())
        .unwrap();
    assert_eq!(
        sql_of(&outer),
        "SELECT users.id FROM users LEFT OUTER JOIN posts ON posts.user_id = users.id"
    );
    assert_eq!(
        outer.get_row_shape(),
        RowShape { optional: false, fields: vec![FieldShape::Value(integer())] }
    );
}

#[test]
fn chained_joins_use_the_first_matching_key() {
    let q = Query::table(users())
        .inner_join(posts(), &schema())
        .unwrap()
        .left_outer_join(comments(), &schema())
        .unwrap()
        .select(vec![
            SelectItem::Column(col("users", "name", text())),
            SelectItem::Column(col("comments", "text", text())),
        ])
        .unwrap();
    assert_eq!(
        sql_of(&q),
        "SELECT users.name, comments.text FROM users \
         INNER JOIN posts ON posts.user_id = users.id \
         LEFT OUTER JOIN comments ON comments.post_id = posts.id"
    );
    assert_eq!(
        q.get_row_shape(),
        RowShape {
            optional: false,
            fields: vec![FieldShape::Value(text()), FieldShape::Value(nullable_text())],
        }
    );
}

#[test]
fn join_without_relationship_is_refused() {
    let r = Query::table(users()).inner_join(comments(), &schema());
    assert!(matches!(r, Err(ConstructionError::NoRelationship)));
}

#[test]
fn joining_a_table_twice_is_refused() {
    let r = Query::table(users()).inner_join(users(), &schema());
    assert!(matches!(r, Err(ConstructionError::DuplicateTable)));
}

#[test]
fn selecting_a_column_of_another_table_is_refused() {
    let r = Query::table(users()).select(vec![SelectItem::Column(col("posts", "title", text()))]);
    assert!(matches!(r, Err(ConstructionError::UnknownColumn)));
}

#[test]
fn empty_projection_is_refused() {
    let r = Query::table(users()).select(vec![]);
    assert!(matches!(r, Err(ConstructionError::EmptyProjection)));
    let r = Query::table(users()).select(vec![SelectItem::Group(vec![])]);
    assert!(matches!(r, Err(ConstructionError::EmptyProjection)));
}

#[test]
fn equality_needs_matching_types() {
    let r = Expression::equal(
        Expression::column(col("users", "id", integer())),
        Expression::column(col("users", "name", text())),
    );
    assert!(matches!(r, Err(ConstructionError::TypeMismatch)));
}

#[test]
fn columns_of_two_left_outer_joined_tables_stay_separately_optional() {
    let q = Query::table(users())
        .left_outer_join(posts(), &schema())
        .unwrap()
        .left_outer_join(comments(), &schema())
        .unwrap()
        .select(vec![
            SelectItem::Column(col("posts", "title", text())),
            SelectItem::Column(col("comments", "text", text())),
        ])
        .unwrap();
    assert_eq!(
        q.get_row_shape(),
        RowShape {
            optional: false,
            fields: vec![FieldShape::Value(nullable_text()), FieldShape::Value(nullable_text())],
        }
    );
    let q = Query::table(users())
        .left_outer_join(posts(), &schema())
        .unwrap()
        .left_outer_join(comments(), &schema())
        .unwrap()
        .select(vec![SelectItem::Group(vec![
            col("posts", "title", text()),
            col("comments", "text", text()),
        ])])
        .unwrap();
    assert_eq!(
        q.get_row_shape(),
        RowShape {
            optional: false,
            fields: vec![FieldShape::Record(false, vec![nullable_text(), nullable_text()])],
        }
    );
}

#[test]
fn columns_of_one_left_outer_joined_table_after_another_form_one_optional_row() {
    let q = Query::table(users())
        .left_outer_join(posts(), &schema())
        .unwrap()
        .left_outer_join(comments(), &schema())
        .unwrap()
        .select(vec![
            SelectItem::Column(col("comments", "id", integer())),
            SelectItem::Column(col("comments", "text", text())),
        ])
        .unwrap();
    assert_eq!(
        q.get_row_shape(),
        RowShape {
            optional: true,
            fields: vec![FieldShape::Value(integer()), FieldShape::Value(text())],
        }
    );
}

#[test]
fn selecting_an_undeclared_column_is_refused() {
    let r = Query::table(users()).select(vec![SelectItem::Column(col("users", "bogus", text()))]);
    assert!(matches!(r, Err(ConstructionError::UnknownColumn)));
    let r = Query::table(users()).select(vec![SelectItem::Column(col("users", "name", integer()))]);
    assert!(matches!(r, Err(ConstructionError::UnknownColumn)));
}
