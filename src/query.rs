use vstd::prelude::*;
use crate::clause::{LimitClause, NoLimitClause, OrderClause, WhereClause};
use crate::expression::{Column, ConstructionError, Expression};
use crate::offset_clause::{NoOffsetClause, OffsetClause};
use crate::query_builder::{BindParam, BuildError, BuildQueryResult, QueryBuilder};
use crate::select_clause::{
    FieldModel, ItemModel, RowShape, RowShapeModel, SelectItem, one_nullable_table, columns_sql,
    declared_types, effective_types, field_model, flatten, item_columns, projection_shape,
    push_projection, shape_model, whole_nullable,
};
use crate::types::SqlType;
use crate::source::{JoinKind, Schema, Source, Table};

verus! {

/// A SELECT statement: a source and one slot for each clause kind, where an
/// empty slot stands for the clause's absent form.
pub struct Query {
    pub source: Source,
    pub select: Option<Vec<SelectItem>>,
    pub where_clause: Option<WhereClause>,
    pub order: Option<OrderClause>,
    pub limit: Option<LimitClause>,
    pub offset: Option<OffsetClause>,
}

/// One tuple member per table of the source: all of its columns.
pub open spec fn default_items(src: Source) -> Seq<ItemModel> {
    seq![ItemModel::Group(src.base.columns@)] + src.joins@.map_values(
        |j: crate::source::Join| ItemModel::Group(j.table.columns@),
    )
}

/// Every member is non-empty, and each column is one that a table of `src` declares.
pub open spec fn valid_projection(src: Source, items: Seq<ItemModel>) -> bool {
    &&& items.len() > 0
    &&& forall|i: int| 0 <= i < items.len() ==> item_columns(#[trigger] items[i]).len() > 0
    &&& forall|i: int, k: int|
        0 <= i < items.len() && 0 <= k < item_columns(items[i]).len() ==> src.declares(
            #[trigger] item_columns(#[trigger] items[i])[k],
        )
}

/// Why `items` cannot be selected from `src`, if they cannot.
pub open spec fn projection_error(src: Source, items: Seq<ItemModel>) -> Option<ConstructionError> {
    if items.len() == 0 || exists|i: int|
        0 <= i < items.len() && item_columns(#[trigger] items[i]).len() == 0 {
        Some(ConstructionError::EmptyProjection)
    } else if !valid_projection(src, items) {
        Some(ConstructionError::UnknownColumn)
    } else {
        None
    }
}

pub open spec fn opt_binds(e: Option<Expression>) -> Seq<BindParam> {
    match e {
        Some(e) => e.binds(),
        None => Seq::empty(),
    }
}

pub open spec fn opt_encodable(e: Option<Expression>) -> bool {
    match e {
        Some(e) => e.encodable(),
        None => true,
    }
}

/// A present clause: a space, its keyword and its expression; nothing when absent.
pub open spec fn opt_sql(keyword: Seq<char>, e: Option<Expression>, n: nat) -> Seq<char> {
    match e {
        Some(e) => " "@ + keyword + e.sql(n),
        None => Seq::empty(),
    }
}

impl Query {
    pub open spec fn where_expr(self) -> Option<Expression> {
        match self.where_clause {
            Some(c) => Some(c.0),
            None => None,
        }
    }

    pub open spec fn order_expr(self) -> Option<Expression> {
        match self.order {
            Some(c) => Some(c.0),
            None => None,
        }
    }

    pub open spec fn limit_expr(self) -> Option<Expression> {
        match self.limit {
            Some(c) => Some(c.0),
            None => None,
        }
    }

    pub open spec fn offset_expr(self) -> Option<Expression> {
        match self.offset {
            Some(c) => Some(c.0),
            None => None,
        }
    }

    /// The projection: the selected members, else every table of the source.
    pub open spec fn items(self) -> Seq<ItemModel> {
        match self.select {
            Some(v) => v@.map_values(|it: SelectItem| it@),
            None => default_items(self.source),
        }
    }

    /// The source is well formed, the projection names its columns only, and
    /// every clause carries the tag its position asks for.
    pub open spec fn wf(self) -> bool {
        &&& self.source.wf()
        &&& self.select is Some ==> valid_projection(self.source, self.items())
        &&& self.where_expr() matches Some(e) ==> e.sql_type().is_bool()
        &&& self.limit_expr() matches Some(e) ==> e.sql_type().is_big_int()
        &&& self.offset_expr() matches Some(e) ==> e.sql_type().is_big_int()
    }

    /// The shape of a result row.
    pub open spec fn row_shape(self) -> RowShapeModel {
        shape_model(self.source, self.items())
    }

    /// The bind parameters, in the order of their placeholders.
    pub open spec fn binds(self) -> Seq<BindParam> {
        opt_binds(self.where_expr()) + opt_binds(self.order_expr()) + opt_binds(self.limit_expr())
            + opt_binds(self.offset_expr())
    }

    /// Every bound value of every clause fits its tag.
    pub open spec fn encodable(self) -> bool {
        opt_encodable(self.where_expr()) && opt_encodable(self.order_expr()) && opt_encodable(
            self.limit_expr(),
        ) && opt_encodable(self.offset_expr())
    }

    /// The statement text: the clauses in grammar order, one space apart.
    pub open spec fn sql(self) -> Seq<char> {
        let n1 = opt_binds(self.where_expr()).len();
        let n2 = n1 + opt_binds(self.order_expr()).len();
        let n3 = n2 + opt_binds(self.limit_expr()).len();
        "SELECT "@ + columns_sql(flatten(self.items())) + " FROM "@ + self.source.sql() + opt_sql(
            "WHERE "@,
            self.where_expr(),
            0,
        ) + opt_sql("ORDER BY "@, self.order_expr(), n1) + opt_sql(
            "LIMIT "@,
            self.limit_expr(),
            n2,
        ) + opt_sql("OFFSET "@, self.offset_expr(), n3)
    }
}

fn copy_columns(cs: &Vec<Column>) -> (r: Vec<Column>)
    ensures
        r@ == cs@,
{
    let mut r: Vec<Column> = Vec::new();
    let mut i: usize = 0;
    while i < cs.len()
        invariant
            0 <= i <= cs@.len(),
            r@ == cs@.take(i as int),
        decreases cs@.len() - i,
    {
        r.push(cs[i].duplicate());
        assert(cs@.take(i + 1) =~= cs@.take(i as int).push(cs@[i as int]));
        i += 1;
    }
    assert(cs@.take(i as int) =~= cs@);
    r
}

/// One tuple member per table of the source: all of its columns.
fn default_projection(src: &Source) -> (r: Vec<SelectItem>)
    ensures
        r@.map_values(|it: SelectItem| it@) == default_items(*src),
{
    let mut r: Vec<SelectItem> = Vec::new();
    r.push(SelectItem::Group(copy_columns(&src.base.columns)));
    let mut j: usize = 0;
    while j < src.joins.len()
        invariant
            0 <= j <= src.joins@.len(),
            r@.map_values(|it: SelectItem| it@) == default_items(*src).take(j + 1),
        decreases src.joins@.len() - j,
    {
        let ghost before = r@;
        r.push(SelectItem::Group(copy_columns(&src.joins[j].table.columns)));
        assert(r@.map_values(|it: SelectItem| it@) =~= before.map_values(|it: SelectItem| it@).push(
            r@[j + 1]@,
        ));
        assert(default_items(*src).take(j + 2) =~= default_items(*src).take(j + 1).push(
            default_items(*src)[j + 1],
        ));
        j += 1;
    }
    assert(default_items(*src).take(j + 1) =~= default_items(*src));
    r
}

impl Query {
    /// The shape of a result row.
    pub fn get_row_shape(&self) -> (r: RowShape)
        ensures
            r@ == self.row_shape(),
    {
        match &self.select {
            Some(items) => projection_shape(&self.source, items),
            None => projection_shape(&self.source, &default_projection(&self.source)),
        }
    }

    /// Writes the where slot: a space and the clause, or nothing when absent.
    fn push_where(&self, out: &mut QueryBuilder) -> (r: BuildQueryResult)
        requires
            self.wf(),
            old(out).binds@.len() + opt_binds(self.where_expr()).len() < usize::MAX,
        ensures
            r is Ok <==> opt_encodable(self.where_expr()),
            r is Err ==> r->Err_0 == BuildError::ValueDoesNotFitType,
            r is Ok ==> final(out).sql@ == old(out).sql@ + opt_sql(
                "WHERE "@,
                self.where_expr(),
                old(out).binds@.len() as nat,
            ),
            r is Ok ==> final(out).binds@ == old(out).binds@ + opt_binds(self.where_expr()),
    {
        match &self.where_clause {
            Some(c) => {
                out.push_sql(" ");
                let r = c.to_sql(out);
                assert(r is Ok ==> out.sql@ =~= old(out).sql@ + opt_sql(
                    "WHERE "@,
                    self.where_expr(),
                    old(out).binds@.len() as nat,
                ));
                r
            },
            None => {
                assert(out.binds@ =~= old(out).binds@ + opt_binds(self.where_expr()));
                assert(out.sql@ =~= old(out).sql@ + opt_sql(
                    "WHERE "@,
                    self.where_expr(),
                    old(out).binds@.len() as nat,
                ));
                Ok(())
            },
        }
    }

    /// Writes the order slot: a space and the clause, or nothing when absent.
    fn push_order(&self, out: &mut QueryBuilder) -> (r: BuildQueryResult)
        requires
            self.wf(),
            old(out).binds@.len() + opt_binds(self.order_expr()).len() < usize::MAX,
        ensures
            r is Ok <==> opt_encodable(self.order_expr()),
            r is Err ==> r->Err_0 == BuildError::ValueDoesNotFitType,
            r is Ok ==> final(out).sql@ == old(out).sql@ + opt_sql(
                "ORDER BY "@,
                self.order_expr(),
                old(out).binds@.len() as nat,
            ),
            r is Ok ==> final(out).binds@ == old(out).binds@ + opt_binds(self.order_expr()),
    {
        match &self.order {
            Some(c) => {
                out.push_sql(" ");
                let r = c.to_sql(out);
                assert(r is Ok ==> out.sql@ =~= old(out).sql@ + opt_sql(
                    "ORDER BY "@,
                    self.order_expr(),
                    old(out).binds@.len() as nat,
                ));
                r
            },
            None => {
                assert(out.binds@ =~= old(out).binds@ + opt_binds(self.order_expr()));
                assert(out.sql@ =~= old(out).sql@ + opt_sql(
                    "ORDER BY "@,
                    self.order_expr(),
                    old(out).binds@.len() as nat,
                ));
                Ok(())
            },
        }
    }

    /// Writes the limit slot: a space and the clause, or nothing when absent.
    fn push_limit(&self, out: &mut QueryBuilder) -> (r: BuildQueryResult)
        requires
            self.wf(),
            old(out).binds@.len() + opt_binds(self.limit_expr()).len() < usize::MAX,
        ensures
            r is Ok <==> opt_encodable(self.limit_expr()),
            r is Err ==> r->Err_0 == BuildError::ValueDoesNotFitType,
            r is Ok ==> final(out).sql@ == old(out).sql@ + opt_sql(
                "LIMIT "@,
                self.limit_expr(),
                old(out).binds@.len() as nat,
            ),
            r is Ok ==> final(out).binds@ == old(out).binds@ + opt_binds(self.limit_expr()),
    {
        match &self.limit {
            Some(c) => {
                out.push_sql(" ");
                let r = c.to_sql(out);
                assert(r is Ok ==> out.sql@ =~= old(out).sql@ + opt_sql(
                    "LIMIT "@,
                    self.limit_expr(),
                    old(out).binds@.len() as nat,
                ));
                r
            },
            None => {
                assert(out.binds@ =~= old(out).binds@ + opt_binds(self.limit_expr()));
                assert(out.sql@ =~= old(out).sql@ + opt_sql(
                    "LIMIT "@,
                    self.limit_expr(),
                    old(out).binds@.len() as nat,
                ));
                NoLimitClause.to_sql(out)
            },
        }
    }

    /// Writes the offset slot: a space and the clause, or nothing when absent.
    fn push_offset(&self, out: &mut QueryBuilder) -> (r: BuildQueryResult)
        requires
            self.wf(),
            old(out).binds@.len() + opt_binds(self.offset_expr()).len() < usize::MAX,
        ensures
            r is Ok <==> opt_encodable(self.offset_expr()),
            r is Err ==> r->Err_0 == BuildError::ValueDoesNotFitType,
            r is Ok ==> final(out).sql@ == old(out).sql@ + opt_sql(
                "OFFSET "@,
                self.offset_expr(),
                old(out).binds@.len() as nat,
            ),
            r is Ok ==> final(out).binds@ == old(out).binds@ + opt_binds(self.offset_expr()),
    {
        match &self.offset {
            Some(c) => {
                out.push_sql(" ");
                let r = c.to_sql(out);
                assert(r is Ok ==> out.sql@ =~= old(out).sql@ + opt_sql(
                    "OFFSET "@,
                    self.offset_expr(),
                    old(out).binds@.len() as nat,
                ));
                r
            },
            None => {
                assert(out.binds@ =~= old(out).binds@ + opt_binds(self.offset_expr()));
                assert(out.sql@ =~= old(out).sql@ + opt_sql(
                    "OFFSET "@,
                    self.offset_expr(),
                    old(out).binds@.len() as nat,
                ));
                NoOffsetClause.to_sql(out)
            },
        }
    }

    /// Renders the statement: its text and its bind parameters. Nothing is
    /// handed back when a bound value does not fit its tag.
    pub fn to_sql(&self) -> (r: Result<(String, Vec<BindParam>), BuildError>)
        requires
            self.wf(),
            self.binds().len() < usize::MAX,
        ensures
            r is Ok <==> self.encodable(),
            r is Err ==> r->Err_0 == BuildError::ValueDoesNotFitType,
            r is Ok ==> r->Ok_0.0@ == self.sql(),
            r is Ok ==> r->Ok_0.1@ == self.binds(),
    {
        let mut out = QueryBuilder::new();
        out.push_sql("SELECT ");
        match &self.select {
            Some(items) => push_projection(items, &mut out),
            None => push_projection(&default_projection(&self.source), &mut out),
        }
        out.push_sql(" FROM ");
        self.source.to_sql(&mut out);
        let ghost head = out.sql@;
        assert(head == "SELECT "@ + columns_sql(flatten(self.items())) + " FROM "@ + self.source.sql());
        assert(out.binds@ =~= Seq::<BindParam>::empty());
        self.push_where(&mut out)?;
        self.push_order(&mut out)?;
        self.push_limit(&mut out)?;
        self.push_offset(&mut out)?;
        assert(out.binds@ =~= self.binds());
        Ok((out.sql, out.binds))
    }
}

fn projection_check(src: &Source, items: &Vec<SelectItem>) -> (r: Option<ConstructionError>)
    ensures
        r == projection_error(*src, items@.map_values(|it: SelectItem| it@)),
{
    let ghost m = items@.map_values(|it: SelectItem| it@);
    if items.len() == 0 {
        return Some(ConstructionError::EmptyProjection);
    }
    let mut i: usize = 0;
    while i < items.len()
        invariant
            0 <= i <= items@.len(),
            m == items@.map_values(|it: SelectItem| it@),
            forall|k: int| 0 <= k < i ==> item_columns(#[trigger] m[k]).len() > 0,
        decreases items@.len() - i,
    {
        assert(m[i as int] == items@[i as int]@);
        if let SelectItem::Group(cs) = &items[i] {
            if cs.len() == 0 {
                return Some(ConstructionError::EmptyProjection);
            }
        }
        i += 1;
    }
    let mut i: usize = 0;
    while i < items.len()
        invariant
            0 <= i <= items@.len(),
            m == items@.map_values(|it: SelectItem| it@),
            forall|k: int| 0 <= k < m.len() ==> item_columns(#[trigger] m[k]).len() > 0,
            forall|a: int, k: int|
                0 <= a < i && 0 <= k < item_columns(m[a]).len() ==> src.declares(
                    #[trigger] item_columns(#[trigger] m[a])[k],
                ),
        decreases items@.len() - i,
    {
        assert(m[i as int] == items@[i as int]@);
        match &items[i] {
            SelectItem::Column(c) => {
                assert(item_columns(m[i as int])[0] == *c);
                if !src.declares_exec(c) {
                    assert(!src.declares(item_columns(m[i as int])[0]));
                    return Some(ConstructionError::UnknownColumn);
                }
            },
            SelectItem::Group(cs) => {
                let mut k: usize = 0;
                while k < cs.len()
                    invariant
                        0 <= k <= cs@.len(),
                        0 <= i < m.len(),
                        m == items@.map_values(|it: SelectItem| it@),
                        item_columns(m[i as int]) == cs@,
                        forall|a: int| 0 <= a < m.len() ==> item_columns(#[trigger] m[a]).len() > 0,
                        forall|q: int| 0 <= q < k ==> src.declares(#[trigger] cs@[q]),
                    decreases cs@.len() - k,
                {
                    if !src.declares_exec(&cs[k]) {
                        assert(!src.declares(item_columns(m[i as int])[k as int]));
                        return Some(ConstructionError::UnknownColumn);
                    }
                    k += 1;
                }
            },
        }
        i += 1;
    }
    None
}

proof fn lemma_join_keeps_tables(a: Source, t: Table, kind: JoinKind, schema: Schema, r: Source)
    requires
        a.joined(t, kind, schema, r),
    ensures
        forall|n: Seq<char>| a.has_table(n) ==> r.has_table(n),
        forall|c: Column| a.declares(c) ==> r.declares(c),
{
    assert forall|c: Column| a.declares(c) implies r.declares(c) by {
        if !a.base.declares(c) {
            let i = choose|i: int| 0 <= i < a.joins@.len() && (#[trigger] a.joins@[i]).table.declares(c);
            assert(r.joins@[i] == a.joins@[i]);
        }
    }
    assert(r.table_names() =~= a.table_names().push(t.name@));
    assert forall|n: Seq<char>| a.has_table(n) implies r.has_table(n) by {
        let k = choose|k: int| 0 <= k < a.table_names().len() && a.table_names()[k] == n;
        assert(r.table_names()[k] == n);
    }
}

impl Query {
    /// All rows of `source`, with every clause absent.
    pub fn from_source(source: Source) -> (r: Query)
        requires
            source.wf(),
        ensures
            r.source == source,
            r.select is None,
            r.where_clause is None,
            r.order is None,
            r.limit is None,
            r.offset is None,
            r.wf(),
    {
        Query { source, select: None, where_clause: None, order: None, limit: None, offset: None }
    }

    /// All rows of one table.
    pub fn table(t: Table) -> (r: Query)
        requires
            t.wf(),
        ensures
            r.source.base == t,
            r.source.joins@.len() == 0,
            r.select is None,
            r.where_clause is None,
            r.order is None,
            r.limit is None,
            r.offset is None,
            r.wf(),
    {
        Query::from_source(Source::table(t))
    }

    /// The query with its projection replaced by `items`.
    pub fn select(self, items: Vec<SelectItem>) -> (r: Result<Query, ConstructionError>)
        requires
            self.wf(),
        ensures
            r is Err <==> projection_error(self.source, items@.map_values(|it: SelectItem| it@)) is Some,
            r is Err ==> r->Err_0 == projection_error(
                self.source,
                items@.map_values(|it: SelectItem| it@),
            )->Some_0,
            r is Ok ==> r->Ok_0.items() == items@.map_values(|it: SelectItem| it@),
            r is Ok ==> r->Ok_0.select is Some,
            r is Ok ==> r->Ok_0.source == self.source,
            r is Ok ==> r->Ok_0.where_clause == self.where_clause && r->Ok_0.order == self.order
                && r->Ok_0.limit == self.limit && r->Ok_0.offset == self.offset,
            r is Ok ==> r->Ok_0.wf(),
    {
        match projection_check(&self.source, &items) {
            Some(e) => Err(e),
            None => Ok(Query { select: Some(items), ..self }),
        }
    }

    fn join(self, table: Table, kind: JoinKind, schema: &Schema) -> (r: Result<Query, ConstructionError>)
        requires
            self.wf(),
            table.wf(),
        ensures
            r is Err <==> self.source.join_error(table, *schema) is Some,
            r is Err ==> r->Err_0 == self.source.join_error(table, *schema)->Some_0,
            r is Ok ==> self.source.joined(table, kind, *schema, r->Ok_0.source),
            r is Ok ==> r->Ok_0.select == self.select && r->Ok_0.where_clause == self.where_clause
                && r->Ok_0.order == self.order && r->Ok_0.limit == self.limit && r->Ok_0.offset
                == self.offset,
            r is Ok ==> r->Ok_0.wf(),
    {
        let Query { source, select, where_clause, order, limit, offset } = self;
        let ghost old_source = source;
        match source.join(table, kind, schema) {
            Err(e) => Err(e),
            Ok(source) => {
                proof {
                    lemma_join_keeps_tables(old_source, table, kind, *schema, source);
                }
                let r = Query { source, select, where_clause, order, limit, offset };
                proof {
                    if r.select is Some {
                        let m = r.items();
                        assert forall|i: int, k: int|
                            0 <= i < m.len() && 0 <= k < item_columns(m[i]).len() implies r.source.declares(
                            #[trigger] item_columns(#[trigger] m[i])[k],
                        ) by {
                            assert(old_source.declares(item_columns(m[i])[k]));
                        }
                    }
                }
                Ok(r)
            },
        }
    }

    /// The query with `table` inner-joined onto its source; the projection,
    /// if one was selected, stays as it is.
    pub fn inner_join(self, table: Table, schema: &Schema) -> (r: Result<Query, ConstructionError>)
        requires
            self.wf(),
            table.wf(),
        ensures
            r is Err <==> self.source.join_error(table, *schema) is Some,
            r is Err ==> r->Err_0 == self.source.join_error(table, *schema)->Some_0,
            r is Ok ==> self.source.joined(table, JoinKind::Inner, *schema, r->Ok_0.source),
            r is Ok ==> r->Ok_0.select == self.select && r->Ok_0.where_clause == self.where_clause
                && r->Ok_0.order == self.order && r->Ok_0.limit == self.limit && r->Ok_0.offset
                == self.offset,
            r is Ok ==> r->Ok_0.wf(),
    {
        self.join(table, JoinKind::Inner, schema)
    }

    /// The query with `table` left-outer-joined onto its source; the
    /// projection, if one was selected, stays as it is.
    pub fn left_outer_join(self, table: Table, schema: &Schema) -> (r: Result<Query, ConstructionError>)
        requires
            self.wf(),
            table.wf(),
        ensures
            r is Err <==> self.source.join_error(table, *schema) is Some,
            r is Err ==> r->Err_0 == self.source.join_error(table, *schema)->Some_0,
            r is Ok ==> self.source.joined(table, JoinKind::LeftOuter, *schema, r->Ok_0.source),
            r is Ok ==> r->Ok_0.select == self.select && r->Ok_0.where_clause == self.where_clause
                && r->Ok_0.order == self.order && r->Ok_0.limit == self.limit && r->Ok_0.offset
                == self.offset,
            r is Ok ==> r->Ok_0.wf(),
    {
        self.join(table, JoinKind::LeftOuter, schema)
    }

    /// The query with its WHERE clause set to `predicate`, which must carry
    /// the non-null boolean tag.
    pub fn filter(self, predicate: Expression) -> (r: Result<Query, ConstructionError>)
        requires
            self.wf(),
        ensures
            r is Ok ==> r->Ok_0.wf(),
            r is Ok <==> predicate.sql_type().is_bool(),
            r is Err ==> r->Err_0 == ConstructionError::TypeMismatch,
            r is Ok ==> r->Ok_0.where_expr() == Some(predicate),
            r is Ok ==> r->Ok_0.source == self.source && r->Ok_0.select == self.select
                && r->Ok_0.order == self.order && r->Ok_0.limit == self.limit && r->Ok_0.offset
                == self.offset,
    {
        match WhereClause::new(predicate) {
            Ok(c) => Ok(Query { where_clause: Some(c), ..self }),
            Err(e) => Err(e),
        }
    }

    /// The query ordered by `e`.
    pub fn order_by(self, e: Expression) -> (r: Query)
        requires
            self.wf(),
        ensures
            r.wf(),
            r.order_expr() == Some(e),
            r.source == self.source && r.select == self.select && r.where_clause
                == self.where_clause && r.limit == self.limit && r.offset == self.offset,
    {
        Query { order: Some(OrderClause(e)), ..self }
    }

    /// The query with its LIMIT bound set to `bound`, which must carry the
    /// big-integer tag.
    pub fn limit(self, bound: Expression) -> (r: Result<Query, ConstructionError>)
        requires
            self.wf(),
        ensures
            r is Ok ==> r->Ok_0.wf(),
            r is Ok <==> bound.sql_type().is_big_int(),
            r is Err ==> r->Err_0 == ConstructionError::TypeMismatch,
            r is Ok ==> r->Ok_0.limit_expr() == Some(bound),
            r is Ok ==> r->Ok_0.source == self.source && r->Ok_0.select == self.select
                && r->Ok_0.where_clause == self.where_clause && r->Ok_0.order == self.order
                && r->Ok_0.offset == self.offset,
    {
        match LimitClause::new(bound) {
            Ok(c) => Ok(Query { limit: Some(c), ..self }),
            Err(e) => Err(e),
        }
    }

    /// The query with its OFFSET bound set to `bound`, which must carry the
    /// big-integer tag.
    pub fn offset(self, bound: Expression) -> (r: Result<Query, ConstructionError>)
        requires
            self.wf(),
        ensures
            r is Ok ==> r->Ok_0.wf(),
            r is Ok <==> bound.sql_type().is_big_int(),
            r is Err ==> r->Err_0 == ConstructionError::TypeMismatch,
            r is Ok ==> r->Ok_0.offset_expr() == Some(bound),
            r is Ok ==> r->Ok_0.source == self.source && r->Ok_0.select == self.select
                && r->Ok_0.where_clause == self.where_clause && r->Ok_0.order == self.order
                && r->Ok_0.limit == self.limit,
    {
        match OffsetClause::new(bound) {
            Ok(c) => Ok(Query { offset: Some(c), ..self }),
            Err(e) => Err(e),
        }
    }
}

/// Rendering is a function of the query alone: equal queries render to the
/// same text and the same bind parameters, whatever was rendered before.
pub proof fn law_render_deterministic(q1: Query, q2: Query)
    requires
        q1 == q2,
    ensures
        q1.sql() == q2.sql(),
        q1.binds() == q2.binds(),
        q1.encodable() == q2.encodable(),
{
}

/// The tags of a member, each wrapped in the nullable marker where the
/// member is an optional record.
pub open spec fn field_tags(f: FieldModel) -> Seq<SqlType> {
    match f {
        FieldModel::Value(t) => seq![t],
        FieldModel::Record(optional, ts) => if optional {
            ts.map_values(|t: SqlType| t.spec_into_nullable())
        } else {
            ts
        },
    }
}

pub open spec fn flat_tags(fs: Seq<FieldModel>) -> Seq<SqlType>
    decreases fs.len(),
{
    if fs.len() == 0 {
        Seq::empty()
    } else {
        flat_tags(fs.drop_last()) + field_tags(fs.last())
    }
}

proof fn lemma_nullable_join_name(src: Source, k: int)
    requires
        src.wf(),
        0 <= k < src.joins@.len(),
    ensures
        src.nullable_table(src.joins@[k].table.name@) <==> src.joins@[k].kind == JoinKind::LeftOuter,
        !src.nullable_table(src.base.name@),
{
    let names = src.table_names();
    assert(names[k + 1] == src.joins@[k].table.name@);
    if src.nullable_table(src.joins@[k].table.name@) {
        let i = choose|i: int|
            0 <= i < src.joins@.len() && #[trigger] src.joins@[i].table.name@ == src.joins@[k].table.name@
                && src.joins@[i].kind == JoinKind::LeftOuter;
        assert(names[i + 1] == src.joins@[i].table.name@);
        if i != k {
            if i < k {
                assert(names[i + 1] != names[k + 1]);
            } else {
                assert(names[k + 1] != names[i + 1]);
            }
        }
    }
    if src.nullable_table(src.base.name@) {
        let i = choose|i: int|
            0 <= i < src.joins@.len() && #[trigger] src.joins@[i].table.name@ == src.base.name@
                && src.joins@[i].kind == JoinKind::LeftOuter;
        assert(names[i + 1] == src.joins@[i].table.name@);
        assert(names[0] != names[i + 1]);
    }
}

/// The tags a whole table contributes as a member of a row that is not optional as a whole.
proof fn lemma_group_tags(src: Source, t: crate::source::Table, nullable: bool)
    requires
        t.wf(),
        src.nullable_table(t.name@) == nullable,
    ensures
        field_tags(field_model(src, ItemModel::Group(t.columns@), false)) == if nullable {
            t.tags().map_values(|x: SqlType| x.spec_into_nullable())
        } else {
            t.tags()
        },
{
    let cs = t.columns@;
    assert(declared_types(cs) =~= t.tags());
    if nullable {
        if cs.len() == 0 {
            assert(t.tags().map_values(|x: SqlType| x.spec_into_nullable()) =~= Seq::<SqlType>::empty());
        } else {
            assert(one_nullable_table(src, cs));
        }
    } else {
        if cs.len() > 0 {
            assert(!src.nullable_table(cs[0].table@));
        }
        assert(effective_types(src, cs) =~= t.tags());
    }
}

/// Without a projection, a result row holds every table of the source in
/// order, and its tags, with optional records wrapped, are exactly the row
/// shape of the source: the left side unchanged and the right side of each
/// left-outer join wrapped once.
pub proof fn law_default_shape_is_source_shape(src: Source)
    requires
        src.wf(),
    ensures
        flat_tags(shape_model(src, default_items(src)).fields) == src.row_shape(),
{
    let items = default_items(src);
    let cs = src.base.columns@;
    assert(!src.nullable_table(src.base.name@)) by {
        if src.nullable_table(src.base.name@) {
            let i = choose|i: int|
                0 <= i < src.joins@.len() && #[trigger] src.joins@[i].table.name@ == src.base.name@
                    && src.joins@[i].kind == JoinKind::LeftOuter;
            lemma_nullable_join_name(src, i);
        }
    }
    assert(!whole_nullable(src, items)) by {
        assert(items[0] == ItemModel::Group(cs));
        if cs.len() > 0 {
            assert(!src.nullable_table(cs[0].table@));
        }
    }
    let fields = shape_model(src, items).fields;
    lemma_default_prefix(src, src.joins@.len() as int);
    assert(fields.take(src.joins@.len() as int + 1) =~= fields);
    assert(src.joins@.take(src.joins@.len() as int) =~= src.joins@);
}

proof fn lemma_default_prefix(src: Source, k: int)
    requires
        src.wf(),
        0 <= k <= src.joins@.len(),
        !src.nullable_table(src.base.name@),
        !whole_nullable(src, default_items(src)),
    ensures
        flat_tags(shape_model(src, default_items(src)).fields.take(k + 1)) == src.base.tags()
            + crate::source::joins_tags(src.joins@.take(k)),
    decreases k,
{
    let items = default_items(src);
    let fields = shape_model(src, items).fields;
    if k == 0 {
        lemma_group_tags(src, src.base, false);
        assert(items[0] == ItemModel::Group(src.base.columns@));
        assert(fields.take(1).drop_last() =~= Seq::<FieldModel>::empty());
        assert(fields.take(1).last() == fields[0]);
        assert(fields[0] == field_model(src, items[0], false));
        assert(flat_tags(fields.take(1)) == flat_tags(Seq::<FieldModel>::empty()) + field_tags(fields[0]));
        assert(src.joins@.take(0) =~= Seq::<crate::source::Join>::empty());
        assert(flat_tags(fields.take(1)) =~= src.base.tags() + crate::source::joins_tags(src.joins@.take(0)));
    } else {
        lemma_default_prefix(src, k - 1);
        let j = src.joins@[k - 1];
        lemma_nullable_join_name(src, k - 1);
        lemma_group_tags(src, j.table, j.kind == JoinKind::LeftOuter);
        assert(items[k] == ItemModel::Group(j.table.columns@));
        assert(fields.take(k + 1).drop_last() =~= fields.take(k));
        assert(fields.take(k + 1).last() == fields[k]);
        assert(fields[k] == field_model(src, items[k], false));
        assert(src.joins@.take(k).drop_last() =~= src.joins@.take(k - 1));
        assert(src.joins@.take(k).last() == j);
        assert(flat_tags(fields.take(k + 1)) == flat_tags(fields.take(k)) + field_tags(fields[k]));
        assert(crate::source::joins_tags(src.joins@.take(k)) == crate::source::joins_tags(
            src.joins@.take(k - 1),
        ) + j.tags());
        assert(flat_tags(fields.take(k + 1)) =~= src.base.tags() + crate::source::joins_tags(
            src.joins@.take(k),
        ));
    }
}

/// Joining `b` onto `a` and selecting every column gives rows whose tags are
/// `a`'s row shape followed by `b`'s tags: unchanged for an inner join,
/// wrapped once in the nullable marker for a left-outer join.
pub proof fn law_joined_query_shape(a: Source, b: Table, kind: JoinKind, schema: Schema, r: Source)
    requires
        a.joined(b, kind, schema, r),
        r.wf(),
    ensures
        kind == JoinKind::Inner ==> flat_tags(shape_model(r, default_items(r)).fields)
            == a.row_shape() + b.tags(),
        kind == JoinKind::LeftOuter ==> flat_tags(shape_model(r, default_items(r)).fields)
            == a.row_shape() + b.tags().map_values(|t: SqlType| t.spec_into_nullable()),
{
    law_default_shape_is_source_shape(r);
    match kind {
        JoinKind::Inner => crate::source::law_inner_join_shape(a, b, schema, r),
        JoinKind::LeftOuter => crate::source::law_left_outer_join_shape(a, b, schema, r),
    }
}

} // verus!
