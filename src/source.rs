use vstd::prelude::*;
use crate::expression::{Column, ConstructionError, column_sql, push_column};
use crate::query_builder::QueryBuilder;
use crate::types::SqlType;

verus! {

/// A base table: its name and its columns in declaration order.
pub struct Table {
    pub name: String,
    pub columns: Vec<Column>,
}

/// A foreign key: `child` references `parent`.
pub struct ForeignKey {
    pub child: Column,
    pub parent: Column,
}

/// The relationships the schema declares.
pub struct Schema {
    pub foreign_keys: Vec<ForeignKey>,
}

#[derive(Clone, Copy, Debug, PartialEq, Eq, Structural)]
pub enum JoinKind {
    Inner,
    LeftOuter,
}

/// One table joined onto a source, on a foreign key.
pub struct Join {
    pub table: Table,
    pub kind: JoinKind,
    pub on: ForeignKey,
}

/// What stands in a FROM position: a base table and the tables joined onto it.
pub struct Source {
    pub base: Table,
    pub joins: Vec<Join>,
}

/// `d` and `c` name the same column of the same table, with the same tag.
pub open spec fn same_column(d: Column, c: Column) -> bool {
    d.table@ == c.table@ && d.name@ == c.name@ && d.sql_type == c.sql_type
}

impl Table {
    /// `c` is one of the columns the table declares.
    pub open spec fn declares(self, c: Column) -> bool {
        exists|k: int| 0 <= k < self.columns@.len() && same_column(#[trigger] self.columns@[k], c)
    }

    pub fn declares_exec(&self, c: &Column) -> (r: bool)
        ensures
            r == self.declares(*c),
    {
        let mut k: usize = 0;
        while k < self.columns.len()
            invariant
                0 <= k <= self.columns@.len(),
                forall|q: int| 0 <= q < k ==> !same_column(#[trigger] self.columns@[q], *c),
            decreases self.columns@.len() - k,
        {
            let d = &self.columns[k];
            if d.table == c.table && d.name == c.name && d.sql_type == c.sql_type {
                return true;
            }
            k += 1;
        }
        false
    }

    /// Every column belongs to this table.
    pub open spec fn wf(self) -> bool {
        forall|i: int| 0 <= i < self.columns@.len() ==> #[trigger] self.columns@[i].table@ == self.name@
    }

    /// The declared tags of the columns.
    pub open spec fn tags(self) -> Seq<SqlType> {
        self.columns@.map_values(|c: Column| c.sql_type)
    }
}

impl Join {
    /// The tags this join adds to the row: nullable after a left-outer join.
    pub open spec fn tags(self) -> Seq<SqlType> {
        match self.kind {
            JoinKind::Inner => self.table.tags(),
            JoinKind::LeftOuter => self.table.tags().map_values(|t: SqlType| t.spec_into_nullable()),
        }
    }

    /// ` INNER JOIN t ON c.k = p.id` or ` LEFT OUTER JOIN t ON c.k = p.id`
    pub open spec fn sql(self) -> Seq<char> {
        (match self.kind {
            JoinKind::Inner => " INNER JOIN "@,
            JoinKind::LeftOuter => " LEFT OUTER JOIN "@,
        }) + self.table.name@ + " ON "@ + column_sql(self.on.child) + " = "@ + column_sql(
            self.on.parent,
        )
    }
}

pub open spec fn joins_tags(js: Seq<Join>) -> Seq<SqlType>
    decreases js.len(),
{
    if js.len() == 0 {
        Seq::empty()
    } else {
        joins_tags(js.drop_last()) + js.last().tags()
    }
}

pub open spec fn joins_sql(js: Seq<Join>) -> Seq<char>
    decreases js.len(),
{
    if js.len() == 0 {
        Seq::empty()
    } else {
        joins_sql(js.drop_last()) + js.last().sql()
    }
}

/// Whether `fk` relates the table `t` to one of the tables `names`.
pub open spec fn links_names(fk: ForeignKey, t: Seq<char>, names: Seq<Seq<char>>) -> bool {
    (fk.child.table@ == t && names.contains(fk.parent.table@)) || (fk.parent.table@ == t
        && names.contains(fk.child.table@))
}

/// Whether `fk` relates the table `t` to a table of `src`.
pub open spec fn links(fk: ForeignKey, src: Source, t: Seq<char>) -> bool {
    (fk.child.table@ == t && src.has_table(fk.parent.table@)) || (fk.parent.table@ == t
        && src.has_table(fk.child.table@))
}

/// The first foreign key, from position `i` on, that relates `t` to `src`.
pub open spec fn first_link(fks: Seq<ForeignKey>, src: Source, t: Seq<char>, i: int) -> Option<int>
    decreases fks.len() - i,
{
    if i < 0 || i >= fks.len() {
        None
    } else if links(fks[i], src, t) {
        Some(i)
    } else {
        first_link(fks, src, t, i + 1)
    }
}

proof fn lemma_first_link_links(fks: Seq<ForeignKey>, src: Source, t: Seq<char>, i: int)
    requires
        first_link(fks, src, t, i) is Some,
    ensures
        0 <= first_link(fks, src, t, i)->Some_0 < fks.len(),
        links(fks[first_link(fks, src, t, i)->Some_0], src, t),
    decreases fks.len() - i,
{
    if !links(fks[i], src, t) {
        lemma_first_link_links(fks, src, t, i + 1);
    }
}

impl Source {
    /// The names of the tables of the source, base first.
    pub open spec fn table_names(self) -> Seq<Seq<char>> {
        seq![self.base.name@] + self.joins@.map_values(|j: Join| j.table.name@)
    }

    /// `c` is a column that one of the tables of the source declares.
    pub open spec fn declares(self, c: Column) -> bool {
        self.base.declares(c) || exists|i: int|
            0 <= i < self.joins@.len() && (#[trigger] self.joins@[i]).table.declares(c)
    }

    pub fn declares_exec(&self, c: &Column) -> (r: bool)
        ensures
            r == self.declares(*c),
    {
        if self.base.declares_exec(c) {
            return true;
        }
        let mut i: usize = 0;
        while i < self.joins.len()
            invariant
                0 <= i <= self.joins@.len(),
                forall|q: int| 0 <= q < i ==> !(#[trigger] self.joins@[q]).table.declares(*c),
            decreases self.joins@.len() - i,
        {
            if self.joins[i].table.declares_exec(c) {
                return true;
            }
            i += 1;
        }
        false
    }

    pub open spec fn has_table(self, t: Seq<char>) -> bool {
        self.table_names().contains(t)
    }

    /// Whether the table `t` stands on the right of a left-outer join.
    pub open spec fn nullable_table(self, t: Seq<char>) -> bool {
        exists|i: int|
            0 <= i < self.joins@.len() && #[trigger] self.joins@[i].table.name@ == t
                && self.joins@[i].kind == JoinKind::LeftOuter
    }

    /// The tables are well formed and pairwise distinct, and each join's key
    /// relates its table to a table that stands before it.
    pub open spec fn wf(self) -> bool {
        &&& self.base.wf()
        &&& forall|i: int| 0 <= i < self.joins@.len() ==> (#[trigger] self.joins@[i]).table.wf()
        &&& forall|i: int|
            0 <= i < self.joins@.len() ==> links_names(
                (#[trigger] self.joins@[i]).on,
                self.joins@[i].table.name@,
                self.table_names().take(i + 1),
            )
        &&& forall|i: int, j: int|
            0 <= i < j < self.table_names().len() ==> self.table_names()[i]
                != self.table_names()[j]
    }

    /// The ordered tags of a row of the source.
    pub open spec fn row_shape(self) -> Seq<SqlType> {
        self.base.tags() + joins_tags(self.joins@)
    }

    /// The text of the source in a FROM position.
    pub open spec fn sql(self) -> Seq<char> {
        self.base.name@ + joins_sql(self.joins@)
    }

    /// Why joining `table` onto this source fails, if it does.
    pub open spec fn join_error(self, table: Table, schema: Schema) -> Option<ConstructionError> {
        if self.has_table(table.name@) {
            Some(ConstructionError::DuplicateTable)
        } else if first_link(schema.foreign_keys@, self, table.name@, 0) is None {
            Some(ConstructionError::NoRelationship)
        } else {
            None
        }
    }

    /// `r` is this source with `table` joined by `kind`, on the first foreign key
    /// of `schema` that relates it to a table already in the source.
    pub open spec fn joined(self, table: Table, kind: JoinKind, schema: Schema, r: Source) -> bool {
        &&& first_link(schema.foreign_keys@, self, table.name@, 0) is Some
        &&& r.base == self.base
        &&& r.joins@ == self.joins@.push(
            Join {
                table,
                kind,
                on: schema.foreign_keys@[first_link(
                    schema.foreign_keys@,
                    self,
                    table.name@,
                    0,
                )->Some_0],
            },
        )
    }

    /// A source of one table.
    pub fn table(base: Table) -> (r: Source)
        requires
            base.wf(),
        ensures
            r.base == base,
            r.joins@.len() == 0,
            r.wf(),
    {
        let r = Source { base, joins: Vec::new() };
        assert(r.table_names() =~= seq![r.base.name@]);
        r
    }

    pub fn has_table_exec(&self, t: &String) -> (r: bool)
        ensures
            r == self.has_table(t@),
    {
        if self.base.name == *t {
            assert(self.table_names()[0] == t@);
            return true;
        }
        let mut i: usize = 0;
        while i < self.joins.len()
            invariant
                0 <= i <= self.joins@.len(),
                self.base.name@ != t@,
                forall|k: int| 0 <= k < i ==> self.joins@[k].table.name@ != t@,
            decreases self.joins@.len() - i,
        {
            if self.joins[i].table.name == *t {
                assert(self.table_names()[i + 1] == t@);
                return true;
            }
            i += 1;
        }
        proof {
            if self.has_table(t@) {
                let k = choose|k: int| 0 <= k < self.table_names().len() && self.table_names()[k] == t@;
                if k > 0 {
                    assert(self.joins@[k - 1].table.name@ == t@);
                }
            }
        }
        false
    }

    /// Whether the table `t` stands on the right of a left-outer join.
    pub fn is_nullable_table(&self, t: &String) -> (r: bool)
        ensures
            r == self.nullable_table(t@),
    {
        let mut i: usize = 0;
        while i < self.joins.len()
            invariant
                0 <= i <= self.joins@.len(),
                forall|k: int|
                    0 <= k < i ==> !(#[trigger] self.joins@[k].table.name@ == t@
                        && self.joins@[k].kind == JoinKind::LeftOuter),
            decreases self.joins@.len() - i,
        {
            if self.joins[i].table.name == *t && self.joins[i].kind == JoinKind::LeftOuter {
                return true;
            }
            i += 1;
        }
        false
    }

    /// Joins `table` onto this source with `kind`, on the first foreign key of
    /// `schema` that relates it to a table already in the source.
    pub fn join(self, table: Table, kind: JoinKind, schema: &Schema) -> (r: Result<
        Source,
        ConstructionError,
    >)
        requires
            self.wf(),
            table.wf(),
        ensures
            r is Err <==> self.join_error(table, *schema) is Some,
            r is Err ==> r->Err_0 == self.join_error(table, *schema)->Some_0,
            r is Ok ==> self.joined(table, kind, *schema, r->Ok_0),
            r is Ok ==> r->Ok_0.wf(),
    {
        if self.has_table_exec(&table.name) {
            return Err(ConstructionError::DuplicateTable);
        }
        match find_link(&schema.foreign_keys, &self, &table.name) {
            None => Err(ConstructionError::NoRelationship),
            Some(i) => {
                let on = schema.foreign_keys[i].duplicate();
                let ghost old_names = self.table_names();
                let Source { base, mut joins } = self;
                let ghost j = Join { table, kind, on };
                joins.push(Join { table, kind, on });
                let r = Source { base, joins };
                assert(r.table_names() =~= old_names.push(table.name@));
                assert forall|k: int| 0 <= k < r.joins@.len() implies links_names(
                    (#[trigger] r.joins@[k]).on,
                    r.joins@[k].table.name@,
                    r.table_names().take(k + 1),
                ) by {
                    assert(r.table_names().take(k + 1) =~= old_names.take(k + 1));
                    if k < self.joins@.len() {
                        assert(r.joins@[k] == self.joins@[k]);
                    } else {
                        assert(old_names.take(k + 1) =~= old_names);
                        lemma_first_link_links(schema.foreign_keys@, self, table.name@, 0);
                    }
                }
                assert forall|k: int| 0 <= k < r.joins@.len() implies (#[trigger] r.joins@[k]).table.wf() by {
                    if k < self.joins@.len() {
                        assert(r.joins@[k] == self.joins@[k]);
                    }
                }
                Ok(r)
            },
        }
    }

    /// The ordered tags of a row of the source.
    pub fn get_row_shape(&self) -> (r: Vec<SqlType>)
        ensures
            r@ == self.row_shape(),
    {
        let mut r: Vec<SqlType> = Vec::new();
        let mut i: usize = 0;
        while i < self.base.columns.len()
            invariant
                0 <= i <= self.base.columns@.len(),
                r@ == self.base.tags().take(i as int),
            decreases self.base.columns@.len() - i,
        {
            r.push(self.base.columns[i].sql_type);
            assert(self.base.tags().take(i + 1) =~= self.base.tags().take(i as int).push(
                self.base.columns@[i as int].sql_type,
            ));
            i += 1;
        }
        assert(self.base.tags().take(i as int) =~= self.base.tags());
        let mut j: usize = 0;
        while j < self.joins.len()
            invariant
                0 <= j <= self.joins@.len(),
                r@ == self.base.tags() + joins_tags(self.joins@.take(j as int)),
            decreases self.joins@.len() - j,
        {
            let join = &self.joins[j];
            let ghost before = r@;
            let mut k: usize = 0;
            while k < join.table.columns.len()
                invariant
                    0 <= k <= join.table.columns@.len(),
                    r@ == before + join.tags().take(k as int),
                decreases join.table.columns@.len() - k,
            {
                let t = join.table.columns[k].sql_type;
                let t = match join.kind {
                    JoinKind::Inner => t,
                    JoinKind::LeftOuter => t.into_nullable(),
                };
                r.push(t);
                assert(join.tags().take(k + 1) =~= join.tags().take(k as int).push(t));
                k += 1;
            }
            assert(join.tags().take(k as int) =~= join.tags());
            assert(self.joins@.take(j + 1).drop_last() =~= self.joins@.take(j as int));
            j += 1;
        }
        assert(self.joins@.take(j as int) =~= self.joins@);
        r
    }

    /// Writes the source as it stands in a FROM position.
    pub fn to_sql(&self, out: &mut QueryBuilder)
        ensures
            final(out).sql@ == old(out).sql@ + self.sql(),
            final(out).binds@ == old(out).binds@,
    {
        out.push_sql(self.base.name.as_str());
        let mut j: usize = 0;
        while j < self.joins.len()
            invariant
                0 <= j <= self.joins@.len(),
                out.sql@ == old(out).sql@ + self.base.name@ + joins_sql(self.joins@.take(j as int)),
                out.binds@ == old(out).binds@,
            decreases self.joins@.len() - j,
        {
            let join = &self.joins[j];
            match join.kind {
                JoinKind::Inner => out.push_sql(" INNER JOIN "),
                JoinKind::LeftOuter => out.push_sql(" LEFT OUTER JOIN "),
            }
            out.push_sql(join.table.name.as_str());
            out.push_sql(" ON ");
            push_column(&join.on.child, out);
            out.push_sql(" = ");
            push_column(&join.on.parent, out);
            assert(self.joins@.take(j + 1).drop_last() =~= self.joins@.take(j as int));
            assert(self.joins@.take(j + 1).last() == *join);
            assert(joins_sql(self.joins@.take(j + 1)) == joins_sql(self.joins@.take(j as int))
                + join.sql());
            assert(out.sql@ =~= old(out).sql@ + self.base.name@ + joins_sql(self.joins@.take(j + 1)));
            j += 1;
        }
        assert(self.joins@.take(j as int) =~= self.joins@);
    }
}

/// The position of the first foreign key of `fks` that relates `t` to `src`.
fn find_link(fks: &Vec<ForeignKey>, src: &Source, t: &String) -> (r: Option<usize>)
    ensures
        r matches Some(i) ==> i < fks@.len() && first_link(fks@, *src, t@, 0) == Some(i as int),
        r is None ==> first_link(fks@, *src, t@, 0) is None,
{
    let mut i: usize = 0;
    while i < fks.len()
        invariant
            0 <= i <= fks@.len(),
            first_link(fks@, *src, t@, 0) == first_link(fks@, *src, t@, i as int),
        decreases fks@.len() - i,
    {
        let fk = &fks[i];
        let hit = (fk.child.table == *t && src.has_table_exec(&fk.parent.table)) || (
        fk.parent.table == *t && src.has_table_exec(&fk.child.table));
        if hit {
            return Some(i);
        }
        i += 1;
    }
    None
}

impl Column {
    /// A copy of the column.
    pub fn duplicate(&self) -> (r: Column)
        ensures
            r == *self,
    {
        Column { table: self.table.clone(), name: self.name.clone(), sql_type: self.sql_type }
    }
}

impl ForeignKey {
    /// A copy of the foreign key.
    pub fn duplicate(&self) -> (r: ForeignKey)
        ensures
            r == *self,
    {
        ForeignKey { child: self.child.duplicate(), parent: self.parent.duplicate() }
    }
}

/// An inner join keeps both sides as they are: the joined row is the left row
/// followed by the right table's tags, unchanged.
pub proof fn law_inner_join_shape(a: Source, b: Table, schema: Schema, r: Source)
    requires
        a.joined(b, JoinKind::Inner, schema, r),
    ensures
        r.row_shape() == a.row_shape() + b.tags(),
{
    assert(r.joins@.drop_last() =~= a.joins@);
}

/// A left-outer join wraps every tag of the right table in the nullable marker,
/// once: the joined row is the left row followed by those wrapped tags, and
/// wrapping them again changes nothing.
pub proof fn law_left_outer_join_shape(a: Source, b: Table, schema: Schema, r: Source)
    requires
        a.joined(b, JoinKind::LeftOuter, schema, r),
    ensures
        r.row_shape() == a.row_shape() + b.tags().map_values(|t: SqlType| t.spec_into_nullable()),
        r.row_shape().subrange(a.row_shape().len() as int, r.row_shape().len() as int).map_values(
            |t: SqlType| t.spec_into_nullable(),
        ) == r.row_shape().subrange(a.row_shape().len() as int, r.row_shape().len() as int),
{
    assert(r.joins@.drop_last() =~= a.joins@);
    let w = b.tags().map_values(|t: SqlType| t.spec_into_nullable());
    assert(r.row_shape().subrange(a.row_shape().len() as int, r.row_shape().len() as int) =~= w);
    assert(w.map_values(|t: SqlType| t.spec_into_nullable()) =~= w);
}

} // verus!
