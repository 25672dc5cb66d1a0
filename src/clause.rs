use vstd::prelude::*;
use crate::expression::{ConstructionError, Expression};
use crate::query_builder::{
    BuildError, BuildQueryResult, QueryBuilder, lemma_prefix_append, lemma_prefix_trans,
};

verus! {

/// The absent limit clause: renders nothing.
#[derive(Clone, Copy, Debug, PartialEq, Eq, Structural)]
pub struct NoLimitClause;

impl NoLimitClause {
    pub fn to_sql(&self, out: &mut QueryBuilder) -> (r: BuildQueryResult)
        ensures
            r is Ok,
            *final(out) == *old(out),
            final(out).extends(*old(out)),
    {
        proof {
            lemma_prefix_append(out.sql@, Seq::<char>::empty());
            lemma_prefix_append(out.binds@, Seq::<crate::query_builder::BindParam>::empty());
        }
        Ok(())
    }
}

/// `LIMIT <bound>`, where the bound carries the big-integer tag.
pub struct LimitClause(pub Expression);

impl LimitClause {
    /// The clause for `bound`; any tag but the big-integer one is refused.
    pub fn new(bound: Expression) -> (r: Result<LimitClause, ConstructionError>)
        ensures
            bound.sql_type().is_big_int() <==> r is Ok,
            r is Ok ==> r->Ok_0.0 == bound,
            r is Err ==> r == Err::<LimitClause, ConstructionError>(ConstructionError::TypeMismatch),
    {
        let t = bound.get_sql_type();
        if t.scalar == crate::types::ScalarType::BigInt && !t.nullable {
            Ok(LimitClause(bound))
        } else {
            Err(ConstructionError::TypeMismatch)
        }
    }

    pub fn to_sql(&self, out: &mut QueryBuilder) -> (r: BuildQueryResult)
        requires
            self.0.sql_type().is_big_int(),
            old(out).binds@.len() + self.0.binds().len() < usize::MAX,
        ensures
            r is Ok <==> self.0.encodable(),
            r is Err ==> r == Err::<(), BuildError>(BuildError::ValueDoesNotFitType),
            r is Ok ==> final(out).sql@ == old(out).sql@ + "LIMIT "@ + self.0.sql(
                old(out).binds@.len() as nat,
            ),
            r is Ok ==> final(out).binds@ == old(out).binds@ + self.0.binds(),
            final(out).extends(*old(out)),
    {
        out.push_sql("LIMIT ");
        let ghost mid = *out;
        proof {
            lemma_prefix_append(old(out).sql@, "LIMIT "@);
        }
        let r = self.0.to_sql(out);
        proof {
            lemma_prefix_trans(old(out).sql@, mid.sql@, out.sql@);
        }
        r
    }
}

/// `WHERE <predicate>`, where the predicate carries the boolean tag.
pub struct WhereClause(pub Expression);

impl WhereClause {
    /// The clause for `predicate`; any tag but the non-null boolean one is refused.
    pub fn new(predicate: Expression) -> (r: Result<WhereClause, ConstructionError>)
        ensures
            predicate.sql_type().is_bool() <==> r is Ok,
            r is Ok ==> r->Ok_0.0 == predicate,
            r is Err ==> r == Err::<WhereClause, ConstructionError>(ConstructionError::TypeMismatch),
    {
        let t = predicate.get_sql_type();
        if t.scalar == crate::types::ScalarType::Bool && !t.nullable {
            Ok(WhereClause(predicate))
        } else {
            Err(ConstructionError::TypeMismatch)
        }
    }

    pub fn to_sql(&self, out: &mut QueryBuilder) -> (r: BuildQueryResult)
        requires
            self.0.sql_type().is_bool(),
            old(out).binds@.len() + self.0.binds().len() < usize::MAX,
        ensures
            r is Ok <==> self.0.encodable(),
            r is Err ==> r == Err::<(), BuildError>(BuildError::ValueDoesNotFitType),
            r is Ok ==> final(out).sql@ == old(out).sql@ + "WHERE "@ + self.0.sql(
                old(out).binds@.len() as nat,
            ),
            r is Ok ==> final(out).binds@ == old(out).binds@ + self.0.binds(),
            final(out).extends(*old(out)),
    {
        out.push_sql("WHERE ");
        let ghost mid = *out;
        proof {
            lemma_prefix_append(old(out).sql@, "WHERE "@);
        }
        let r = self.0.to_sql(out);
        proof {
            lemma_prefix_trans(old(out).sql@, mid.sql@, out.sql@);
        }
        r
    }
}

/// `ORDER BY <expression>`.
pub struct OrderClause(pub Expression);

impl OrderClause {
    pub fn to_sql(&self, out: &mut QueryBuilder) -> (r: BuildQueryResult)
        requires
            old(out).binds@.len() + self.0.binds().len() < usize::MAX,
        ensures
            r is Ok <==> self.0.encodable(),
            r is Err ==> r == Err::<(), BuildError>(BuildError::ValueDoesNotFitType),
            r is Ok ==> final(out).sql@ == old(out).sql@ + "ORDER BY "@ + self.0.sql(
                old(out).binds@.len() as nat,
            ),
            r is Ok ==> final(out).binds@ == old(out).binds@ + self.0.binds(),
            final(out).extends(*old(out)),
    {
        out.push_sql("ORDER BY ");
        let ghost mid = *out;
        proof {
            lemma_prefix_append(old(out).sql@, "ORDER BY "@);
        }
        let r = self.0.to_sql(out);
        proof {
            lemma_prefix_trans(old(out).sql@, mid.sql@, out.sql@);
        }
        r
    }
}

} // verus!
