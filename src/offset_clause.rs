use vstd::prelude::*;
use crate::expression::{ConstructionError, Expression};
use crate::query_builder::{
    BuildError, BuildQueryResult, QueryBuilder, lemma_prefix_append, lemma_prefix_trans,
};

verus! {

/// The absent offset clause: renders nothing.
#[derive(Clone, Copy, Debug, PartialEq, Eq, Structural)]
pub struct NoOffsetClause;

impl NoOffsetClause {
    pub fn to_sql(&self, out: &mut QueryBuilder) -> (r: BuildQueryResult)
        ensures
            r is Ok,
            *final(out) == *old(out),
            final(out).extends(*old(out)),
    {
        proof {
            lemma_prefix_append(out.sql@, Seq::<char>::empty());
            lemma_prefix_append(out.binds@, Seq::<crate::query_builder::BindParam>::empty());
        }
        Ok(())
    }
}

/// `OFFSET <bound>`, where the bound carries the big-integer tag.
pub struct OffsetClause(pub Expression);

impl OffsetClause {
    /// The clause for `bound`; any tag but the big-integer one is refused.
    pub fn new(bound: Expression) -> (r: Result<OffsetClause, ConstructionError>)
        ensures
            bound.sql_type().is_big_int() <==> r is Ok,
            r is Ok ==> r->Ok_0.0 == bound,
            r is Err ==> r == Err::<OffsetClause, ConstructionError>(ConstructionError::TypeMismatch),
    {
        let t = bound.get_sql_type();
        if t.scalar == crate::types::ScalarType::BigInt && !t.nullable {
            Ok(OffsetClause(bound))
        } else {
            Err(ConstructionError::TypeMismatch)
        }
    }

    pub fn to_sql(&self, out: &mut QueryBuilder) -> (r: BuildQueryResult)
        requires
            self.0.sql_type().is_big_int(),
            old(out).binds@.len() + self.0.binds().len() < usize::MAX,
        ensures
            r is Ok <==> self.0.encodable(),
            r is Err ==> r == Err::<(), BuildError>(BuildError::ValueDoesNotFitType),
            r is Ok ==> final(out).sql@ == old(out).sql@ + "OFFSET "@ + self.0.sql(
                old(out).binds@.len() as nat,
            ),
            r is Ok ==> final(out).binds@ == old(out).binds@ + self.0.binds(),
            final(out).extends(*old(out)),
    {
        out.push_sql("OFFSET ");
        let ghost mid = *out;
        proof {
            lemma_prefix_append(old(out).sql@, "OFFSET "@);
        }
        let r = self.0.to_sql(out);
        proof {
            lemma_prefix_trans(old(out).sql@, mid.sql@, out.sql@);
        }
        r
    }
}

} // verus!
