use vstd::prelude::*;
use crate::query_builder::{
    BindParam, BuildError, BuildQueryResult, QueryBuilder, lemma_prefix_append, lemma_prefix_trans,
    placeholder,
};
use crate::types::{ScalarType, SqlType, Value, value_fits};

verus! {

/// A column of a table, with its declared tag.
#[derive(Debug, PartialEq, Eq)]
pub struct Column {
    pub table: String,
    pub name: String,
    pub sql_type: SqlType,
}

/// Something that renders as SQL with placeholders and carries a tag.
pub enum Expression {
    Column(Column),
    Bound(SqlType, Value),
    Equal(Box<Expression>, Box<Expression>),
}

/// Why a query could not be composed.
#[derive(Clone, Copy, Debug, PartialEq, Eq, Structural)]
pub enum ConstructionError {
    /// An expression does not carry the tag its position asks for.
    TypeMismatch,
    /// No relationship between the two sources of a join is known.
    NoRelationship,
    /// A table would appear twice in one source.
    DuplicateTable,
    /// A projected column is not one that a table of the source declares.
    UnknownColumn,
    /// A projection, or a tuple in it, has no column.
    EmptyProjection,
}

/// `table.name`
pub open spec fn column_sql(c: Column) -> Seq<char> {
    c.table@ + seq!['.'] + c.name@
}

impl Expression {
    pub open spec fn sql_type(self) -> SqlType {
        match self {
            Expression::Column(c) => c.sql_type,
            Expression::Bound(t, _) => t,
            Expression::Equal(_, _) => SqlType { scalar: ScalarType::Bool, nullable: false },
        }
    }

    /// Every bound value of the expression fits its tag.
    pub open spec fn encodable(self) -> bool
        decreases self,
    {
        match self {
            Expression::Column(_) => true,
            Expression::Bound(t, v) => value_fits(v, t),
            Expression::Equal(l, r) => l.encodable() && r.encodable(),
        }
    }

    /// The bind parameters, in the order of their placeholders.
    pub open spec fn binds(self) -> Seq<BindParam>
        decreases self,
    {
        match self {
            Expression::Column(_) => Seq::empty(),
            Expression::Bound(t, v) => seq![BindParam { value: v, sql_type: t }],
            Expression::Equal(l, r) => l.binds() + r.binds(),
        }
    }

    /// The SQL text, where `n` parameters were bound before it.
    pub open spec fn sql(self, n: nat) -> Seq<char>
        decreases self,
    {
        match self {
            Expression::Column(c) => column_sql(c),
            Expression::Bound(_, _) => placeholder(n + 1),
            Expression::Equal(l, r) => l.sql(n) + " = "@ + r.sql(n + l.binds().len()),
        }
    }

    /// A column reference.
    pub fn column(c: Column) -> (r: Expression)
        ensures
            r == Expression::Column(c),
    {
        Expression::Column(c)
    }

    /// A value bound to a placeholder of the tag `t`.
    pub fn bound(t: SqlType, v: Value) -> (r: Expression)
        ensures
            r == Expression::Bound(t, v),
    {
        Expression::Bound(t, v)
    }

    /// `l = r`; both sides must carry the same scalar type.
    pub fn equal(l: Expression, r: Expression) -> (res: Result<Expression, ConstructionError>)
        ensures
            l.sql_type().scalar == r.sql_type().scalar ==> res == Ok::<Expression, ConstructionError>(
                Expression::Equal(Box::new(l), Box::new(r)),
            ),
            l.sql_type().scalar != r.sql_type().scalar ==> res == Err::<Expression, ConstructionError>(
                ConstructionError::TypeMismatch,
            ),
    {
        if l.get_sql_type().scalar == r.get_sql_type().scalar {
            Ok(Expression::Equal(Box::new(l), Box::new(r)))
        } else {
            Err(ConstructionError::TypeMismatch)
        }
    }

    /// The tag the expression carries.
    pub fn get_sql_type(&self) -> (r: SqlType)
        ensures
            r == self.sql_type(),
    {
        match self {
            Expression::Column(c) => c.sql_type,
            Expression::Bound(t, _) => *t,
            Expression::Equal(_, _) => SqlType::not_null(ScalarType::Bool),
        }
    }

    /// Writes the expression and its bind parameters into `out`.
    pub fn to_sql(&self, out: &mut QueryBuilder) -> (r: BuildQueryResult)
        requires
            old(out).binds@.len() + self.binds().len() < usize::MAX,
        ensures
            r is Ok <==> self.encodable(),
            r is Err ==> r == Err::<(), BuildError>(BuildError::ValueDoesNotFitType),
            r is Ok ==> final(out).sql@ == old(out).sql@ + self.sql(old(out).binds@.len() as nat),
            r is Ok ==> final(out).binds@ == old(out).binds@ + self.binds(),
            final(out).extends(*old(out)),
        decreases self,
    {
        match self {
            Expression::Column(c) => {
                push_column(c, out);
                assert(out.binds@ == old(out).binds@ + self.binds());
                proof {
                    lemma_prefix_append(old(out).sql@, column_sql(*c));
                    lemma_prefix_append(old(out).binds@, Seq::<BindParam>::empty());
                }
                Ok(())
            },
            Expression::Bound(t, v) => {
                let r = out.push_bound_value(v, *t);
                assert(r is Ok ==> out.binds@ == old(out).binds@ + self.binds());
                proof {
                    if r is Ok {
                        lemma_prefix_append(old(out).sql@, placeholder(old(out).binds@.len() + 1));
                        lemma_prefix_append(old(out).binds@, self.binds());
                    } else {
                        lemma_prefix_append(old(out).sql@, Seq::<char>::empty());
                        lemma_prefix_append(old(out).binds@, Seq::<BindParam>::empty());
                    }
                }
                r
            },
            Expression::Equal(l, rhs) => {
                let ghost n = old(out).binds@.len() as nat;
                l.to_sql(out)?;
                let ghost mid = *out;
                out.push_sql(" = ");
                let ghost mid2 = *out;
                proof {
                    lemma_prefix_append(mid.sql@, " = "@);
                    lemma_prefix_trans(old(out).sql@, mid.sql@, mid2.sql@);
                }
                let r = rhs.to_sql(out);
                proof {
                    lemma_prefix_trans(old(out).sql@, mid2.sql@, out.sql@);
                    lemma_prefix_trans(old(out).binds@, mid2.binds@, out.binds@);
                    if r is Ok {
                        assert(out.sql@ == old(out).sql@ + self.sql(n));
                        assert(out.binds@ == old(out).binds@ + self.binds());
                    }
                }
                r
            },
        }
    }
}

/// Writes `table.name` into `out`.
pub fn push_column(c: &Column, out: &mut QueryBuilder)
    ensures
        final(out).sql@ == old(out).sql@ + column_sql(*c),
        final(out).binds@ == old(out).binds@,
{
    out.push_sql(c.table.as_str());
    out.push_sql(".");
    out.push_sql(c.name.as_str());
    proof {
        reveal_strlit(".");
    }
    assert(out.sql@ == old(out).sql@ + column_sql(*c));
}

} // verus!
