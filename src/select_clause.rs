use vstd::prelude::*;
use crate::expression::{Column, column_sql, push_column};
use crate::query_builder::QueryBuilder;
use crate::source::Source;
use crate::types::SqlType;

verus! {

/// One member of a projection: a column, or a tuple of columns.
pub enum SelectItem {
    Column(Column),
    Group(Vec<Column>),
}

pub enum ItemModel {
    Column(Column),
    Group(Seq<Column>),
}

impl View for SelectItem {
    type V = ItemModel;

    open spec fn view(&self) -> ItemModel {
        match self {
            SelectItem::Column(c) => ItemModel::Column(*c),
            SelectItem::Group(cs) => ItemModel::Group(cs@),
        }
    }
}

/// The shape of one member of a result row.
#[derive(Debug, PartialEq, Eq)]
pub enum FieldShape {
    /// A single value of the tag.
    Value(SqlType),
    /// A tuple of values; absent as a whole where the flag is set.
    Record(bool, Vec<SqlType>),
}

pub enum FieldModel {
    Value(SqlType),
    Record(bool, Seq<SqlType>),
}

impl View for FieldShape {
    type V = FieldModel;

    open spec fn view(&self) -> FieldModel {
        match self {
            FieldShape::Value(t) => FieldModel::Value(*t),
            FieldShape::Record(o, ts) => FieldModel::Record(*o, ts@),
        }
    }
}

/// The shape of a result row: its members, and whether the row as a whole
/// may be absent.
#[derive(Debug, PartialEq, Eq)]
pub struct RowShape {
    pub optional: bool,
    pub fields: Vec<FieldShape>,
}

pub struct RowShapeModel {
    pub optional: bool,
    pub fields: Seq<FieldModel>,
}

impl View for RowShape {
    type V = RowShapeModel;

    open spec fn view(&self) -> RowShapeModel {
        RowShapeModel { optional: self.optional, fields: self.fields@.map_values(|f: FieldShape| f@) }
    }
}

pub open spec fn item_columns(item: ItemModel) -> Seq<Column> {
    match item {
        ItemModel::Column(c) => seq![c],
        ItemModel::Group(cs) => cs,
    }
}

/// Every column of `cs` comes from one and the same table, which stands on the
/// right of a left-outer join of `src`: the columns are absent together.
pub open spec fn one_nullable_table(src: Source, cs: Seq<Column>) -> bool {
    &&& cs.len() > 0
    &&& src.nullable_table(cs[0].table@)
    &&& forall|i: int| 0 <= i < cs.len() ==> (#[trigger] cs[i]).table@ == cs[0].table@
}

/// Every member of the projection is drawn from one table on the nullable
/// side, so the absence of its row is one fact about the whole result row.
pub open spec fn whole_nullable(src: Source, items: Seq<ItemModel>) -> bool {
    &&& items.len() > 0
    &&& one_nullable_table(src, item_columns(items[0]))
    &&& forall|i: int, k: int|
        0 <= i < items.len() && 0 <= k < item_columns(items[i]).len() ==> (#[trigger] item_columns(
            #[trigger] items[i],
        )[k]).table@ == item_columns(items[0])[0].table@
}

/// The tag of a column as the source delivers it.
pub open spec fn effective_type(src: Source, c: Column) -> SqlType {
    if src.nullable_table(c.table@) {
        c.sql_type.spec_into_nullable()
    } else {
        c.sql_type
    }
}

pub open spec fn declared_types(cs: Seq<Column>) -> Seq<SqlType> {
    cs.map_values(|c: Column| c.sql_type)
}

pub open spec fn effective_types(src: Source, cs: Seq<Column>) -> Seq<SqlType> {
    cs.map_values(|c: Column| effective_type(src, c))
}

/// The shape of one member; `whole` says that the row as a whole is optional,
/// so its members keep their declared tags.
pub open spec fn field_model(src: Source, item: ItemModel, whole: bool) -> FieldModel {
    match item {
        ItemModel::Column(c) => if whole {
            FieldModel::Value(c.sql_type)
        } else {
            FieldModel::Value(effective_type(src, c))
        },
        ItemModel::Group(cs) => if whole {
            FieldModel::Record(false, declared_types(cs))
        } else if one_nullable_table(src, cs) {
            FieldModel::Record(true, declared_types(cs))
        } else {
            FieldModel::Record(false, effective_types(src, cs))
        },
    }
}

/// The shape of a row of the projection `items` over `src`.
pub open spec fn shape_model(src: Source, items: Seq<ItemModel>) -> RowShapeModel {
    let whole = whole_nullable(src, items);
    RowShapeModel { optional: whole, fields: items.map_values(|it: ItemModel| field_model(src, it, whole)) }
}

/// The columns of the projection, in order.
pub open spec fn flatten(items: Seq<ItemModel>) -> Seq<Column>
    decreases items.len(),
{
    if items.len() == 0 {
        Seq::empty()
    } else {
        flatten(items.drop_last()) + item_columns(items.last())
    }
}

/// The columns, separated by `, `.
pub open spec fn columns_sql(cs: Seq<Column>) -> Seq<char>
    decreases cs.len(),
{
    if cs.len() == 0 {
        Seq::empty()
    } else if cs.len() == 1 {
        column_sql(cs[0])
    } else {
        columns_sql(cs.drop_last()) + ", "@ + column_sql(cs.last())
    }
}

fn effective_type_exec(src: &Source, c: &Column) -> (r: SqlType)
    ensures
        r == effective_type(*src, *c),
{
    if src.is_nullable_table(&c.table) {
        c.sql_type.into_nullable()
    } else {
        c.sql_type
    }
}

fn same_table_exec(cs: &Vec<Column>, t: &String) -> (r: bool)
    ensures
        r == forall|i: int| 0 <= i < cs@.len() ==> (#[trigger] cs@[i]).table@ == t@,
{
    let mut i: usize = 0;
    while i < cs.len()
        invariant
            0 <= i <= cs@.len(),
            forall|q: int| 0 <= q < i ==> (#[trigger] cs@[q]).table@ == t@,
        decreases cs@.len() - i,
    {
        if cs[i].table != *t {
            return false;
        }
        i += 1;
    }
    true
}

fn one_nullable_table_exec(src: &Source, cs: &Vec<Column>) -> (r: bool)
    ensures
        r == one_nullable_table(*src, cs@),
{
    if cs.len() == 0 {
        return false;
    }
    src.is_nullable_table(&cs[0].table) && same_table_exec(cs, &cs[0].table)
}

fn item_nullable_exec(src: &Source, item: &SelectItem) -> (r: bool)
    ensures
        r == one_nullable_table(*src, item_columns(item@)),
{
    match item {
        SelectItem::Column(c) => {
            let r = src.is_nullable_table(&c.table);
            assert(item_columns(item@)[0] == *c);
            r
        },
        SelectItem::Group(cs) => one_nullable_table_exec(src, cs),
    }
}

/// The table of the first column of `item`.
fn first_table(item: &SelectItem) -> (r: &String)
    requires
        item_columns(item@).len() > 0,
    ensures
        r@ == item_columns(item@)[0].table@,
{
    match item {
        SelectItem::Column(c) => &c.table,
        SelectItem::Group(cs) => &cs[0].table,
    }
}

fn item_in_table_exec(item: &SelectItem, t: &String) -> (r: bool)
    ensures
        r == forall|k: int|
            0 <= k < item_columns(item@).len() ==> (#[trigger] item_columns(item@)[k]).table@ == t@,
{
    match item {
        SelectItem::Column(c) => {
            assert(item_columns(item@) =~= seq![*c]);
            assert(item_columns(item@)[0] == *c);
            c.table == *t
        },
        SelectItem::Group(cs) => same_table_exec(cs, t),
    }
}

fn whole_nullable_exec(src: &Source, items: &Vec<SelectItem>) -> (r: bool)
    ensures
        r == whole_nullable(*src, items@.map_values(|it: SelectItem| it@)),
{
    let ghost m = items@.map_values(|it: SelectItem| it@);
    if items.len() == 0 {
        return false;
    }
    assert(m[0] == items@[0]@);
    if !item_nullable_exec(src, &items[0]) {
        return false;
    }
    let t = first_table(&items[0]);
    let mut i: usize = 0;
    while i < items.len()
        invariant
            0 <= i <= items@.len(),
            m == items@.map_values(|it: SelectItem| it@),
            m.len() > 0,
            item_columns(m[0]).len() > 0,
            t@ == item_columns(m[0])[0].table@,
            forall|a: int, k: int|
                0 <= a < i && 0 <= k < item_columns(m[a]).len() ==> (#[trigger] item_columns(
                    #[trigger] m[a],
                )[k]).table@ == t@,
        decreases items@.len() - i,
    {
        assert(m[i as int] == items@[i as int]@);
        if !item_in_table_exec(&items[i], t) {
            return false;
        }
        i += 1;
    }
    true
}

fn types_of(src: &Source, cs: &Vec<Column>, effective: bool) -> (r: Vec<SqlType>)
    ensures
        effective ==> r@ == effective_types(*src, cs@),
        !effective ==> r@ == declared_types(cs@),
{
    let mut r: Vec<SqlType> = Vec::new();
    let mut i: usize = 0;
    while i < cs.len()
        invariant
            0 <= i <= cs@.len(),
            effective ==> r@ == effective_types(*src, cs@).take(i as int),
            !effective ==> r@ == declared_types(cs@).take(i as int),
        decreases cs@.len() - i,
    {
        let t = if effective {
            effective_type_exec(src, &cs[i])
        } else {
            cs[i].sql_type
        };
        r.push(t);
        assert(effective_types(*src, cs@).take(i + 1) =~= effective_types(*src, cs@).take(
            i as int,
        ).push(effective_type(*src, cs@[i as int])));
        assert(declared_types(cs@).take(i + 1) =~= declared_types(cs@).take(i as int).push(
            cs@[i as int].sql_type,
        ));
        i += 1;
    }
    assert(effective_types(*src, cs@).take(i as int) =~= effective_types(*src, cs@));
    assert(declared_types(cs@).take(i as int) =~= declared_types(cs@));
    r
}

fn field_shape(src: &Source, item: &SelectItem, whole: bool) -> (r: FieldShape)
    ensures
        r@ == field_model(*src, item@, whole),
{
    match item {
        SelectItem::Column(c) => if whole {
            FieldShape::Value(c.sql_type)
        } else {
            FieldShape::Value(effective_type_exec(src, c))
        },
        SelectItem::Group(cs) => if whole {
            FieldShape::Record(false, types_of(src, cs, false))
        } else if one_nullable_table_exec(src, cs) {
            FieldShape::Record(true, types_of(src, cs, false))
        } else {
            FieldShape::Record(false, types_of(src, cs, true))
        },
    }
}

/// The shape of a row of the projection `items` over `src`.
pub fn projection_shape(src: &Source, items: &Vec<SelectItem>) -> (r: RowShape)
    ensures
        r@ == shape_model(*src, items@.map_values(|it: SelectItem| it@)),
{
    let ghost m = items@.map_values(|it: SelectItem| it@);
    let whole = whole_nullable_exec(src, items);
    let mut fields: Vec<FieldShape> = Vec::new();
    let mut i: usize = 0;
    while i < items.len()
        invariant
            0 <= i <= items@.len(),
            m == items@.map_values(|it: SelectItem| it@),
            whole == whole_nullable(*src, m),
            fields@.map_values(|f: FieldShape| f@) == m.map_values(
                |it: ItemModel| field_model(*src, it, whole),
            ).take(i as int),
        decreases items@.len() - i,
    {
        let f = field_shape(src, &items[i], whole);
        let ghost before = fields@;
        fields.push(f);
        assert(m[i as int] == items@[i as int]@);
        assert(fields@.map_values(|f: FieldShape| f@) =~= before.map_values(|f: FieldShape| f@).push(f@));
        assert(fields@.map_values(|f: FieldShape| f@) =~= m.map_values(
            |it: ItemModel| field_model(*src, it, whole),
        ).take(i + 1));
        i += 1;
    }
    let r = RowShape { optional: whole, fields };
    assert(r@.fields =~= shape_model(*src, m).fields);
    r
}

/// Writes the columns of the projection, separated by `, `.
pub fn push_projection(items: &Vec<SelectItem>, out: &mut QueryBuilder)
    ensures
        final(out).sql@ == old(out).sql@ + columns_sql(
            flatten(items@.map_values(|it: SelectItem| it@)),
        ),
        final(out).binds@ == old(out).binds@,
{
    let ghost m = items@.map_values(|it: SelectItem| it@);
    let ghost done: Seq<Column> = Seq::empty();
    let mut first = true;
    let mut i: usize = 0;
    while i < items.len()
        invariant
            0 <= i <= items@.len(),
            m == items@.map_values(|it: SelectItem| it@),
            done == flatten(m.take(i as int)),
            first == (done.len() == 0),
            out.sql@ == old(out).sql@ + columns_sql(done),
            out.binds@ == old(out).binds@,
        decreases items@.len() - i,
    {
        assert(m.take(i + 1).drop_last() =~= m.take(i as int));
        match &items[i] {
            SelectItem::Column(c) => {
                push_next_column(c, first, Ghost(done), out);
                first = false;
                proof {
                    assert(item_columns(m[i as int]) =~= seq![*c]);
                    done = done.push(*c);
                }
            },
            SelectItem::Group(cs) => {
                let mut k: usize = 0;
                while k < cs.len()
                    invariant
                        0 <= k <= cs@.len(),
                        done == flatten(m.take(i as int)) + cs@.take(k as int),
                        first == (done.len() == 0),
                        out.sql@ == old(out).sql@ + columns_sql(done),
                        out.binds@ == old(out).binds@,
                    decreases cs@.len() - k,
                {
                    push_next_column(&cs[k], first, Ghost(done), out);
                    first = false;
                    proof {
                        assert(cs@.take(k + 1) =~= cs@.take(k as int).push(cs@[k as int]));
                        done = done.push(cs@[k as int]);
                    }
                    k += 1;
                }
                assert(cs@.take(k as int) =~= cs@);
            },
        }
        i += 1;
    }
    assert(m.take(i as int) =~= m);
}

/// Writes `c` after the columns `done` already written.
fn push_next_column(c: &Column, first: bool, done: Ghost<Seq<Column>>, out: &mut QueryBuilder)
    requires
        first == (done@.len() == 0),
    ensures
        final(out).sql@ == old(out).sql@ + columns_sql(done@.push(*c)).subrange(
            columns_sql(done@).len() as int,
            columns_sql(done@.push(*c)).len() as int,
        ),
        columns_sql(done@.push(*c)) == columns_sql(done@) + columns_sql(done@.push(*c)).subrange(
            columns_sql(done@).len() as int,
            columns_sql(done@.push(*c)).len() as int,
        ),
        final(out).binds@ == old(out).binds@,
{
    let ghost next = done@.push(*c);
    assert(next.drop_last() =~= done@);
    if !first {
        out.push_sql(", ");
    }
    push_column(c, out);
    assert(columns_sql(next) =~= columns_sql(done@) + columns_sql(next).subrange(
        columns_sql(done@).len() as int,
        columns_sql(next).len() as int,
    ));
}

/// A projection drawn entirely from one table on the right of a left-outer join is one
/// optional row: the row as a whole may be absent, and its members keep their
/// declared tags and are not each made optional on their own.
pub proof fn law_right_side_projection_is_one_optional(src: Source, items: Seq<ItemModel>)
    requires
        whole_nullable(src, items),
    ensures
        shape_model(src, items).optional,
        shape_model(src, items).fields.len() == items.len(),
        forall|i: int|
            0 <= i < items.len() ==> match #[trigger] items[i] {
                ItemModel::Column(c) => shape_model(src, items).fields[i] == FieldModel::Value(
                    c.sql_type,
                ),
                ItemModel::Group(cs) => shape_model(src, items).fields[i] == FieldModel::Record(
                    false,
                    declared_types(cs),
                ),
            },
{
}

/// A projection that is not drawn from one such table is not optional as a whole: a column is
/// nullable only where it comes from the right of a left-outer join, and a
/// tuple drawn wholly from one such table is one optional record.
pub proof fn law_mixed_projection_per_member(src: Source, items: Seq<ItemModel>)
    requires
        !whole_nullable(src, items),
    ensures
        !shape_model(src, items).optional,
        shape_model(src, items).fields.len() == items.len(),
        forall|i: int|
            0 <= i < items.len() ==> match #[trigger] items[i] {
                ItemModel::Column(c) => shape_model(src, items).fields[i] == FieldModel::Value(
                    if src.nullable_table(c.table@) {
                        c.sql_type.spec_into_nullable()
                    } else {
                        c.sql_type
                    },
                ),
                ItemModel::Group(cs) => shape_model(src, items).fields[i] == if one_nullable_table(
                    src,
                    cs,
                ) {
                    FieldModel::Record(true, declared_types(cs))
                } else {
                    FieldModel::Record(false, effective_types(src, cs))
                },
            },
{
}

} // verus!
