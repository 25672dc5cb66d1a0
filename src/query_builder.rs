use vstd::prelude::*;
use vstd::string::StringExecFns;
use crate::types::{SqlType, Value, value_fits};

verus! {

/// A value bound to a placeholder, with the tag it was encoded for.
#[derive(Debug, PartialEq, Eq)]
pub struct BindParam {
    pub value: Value,
    pub sql_type: SqlType,
}

/// Why rendering failed.
#[derive(Clone, Copy, Debug, PartialEq, Eq, Structural)]
pub enum BuildError {
    /// A bound value cannot be encoded for the tag it was given.
    ValueDoesNotFitType,
}

pub type BuildQueryResult = Result<(), BuildError>;

/// The output buffer of rendering: SQL text and the ordered bind parameters.
pub struct QueryBuilder {
    pub sql: String,
    pub binds: Vec<BindParam>,
}

/// The decimal digits of `n`, most significant first.
pub open spec fn decimal(n: nat) -> Seq<char>
    decreases n,
{
    if n < 10 {
        seq![digit_char(n)]
    } else {
        decimal(n / 10) + seq![digit_char(n % 10)]
    }
}

pub open spec fn digit_char(d: nat) -> char {
    ((d + '0' as nat) as u32) as char
}

/// The placeholder of the bind parameter at 1-based position `k`: `$k`.
pub open spec fn placeholder(k: nat) -> Seq<char> {
    seq!['$'] + decimal(k)
}

fn digit_str(d: usize) -> (r: &'static str)
    requires
        d < 10,
    ensures
        r@ == seq![digit_char(d as nat)],
{
    proof {
        reveal_strlit("0");
        reveal_strlit("1");
        reveal_strlit("2");
        reveal_strlit("3");
        reveal_strlit("4");
        reveal_strlit("5");
        reveal_strlit("6");
        reveal_strlit("7");
        reveal_strlit("8");
        reveal_strlit("9");
    }
    match d {
        0 => "0",
        1 => "1",
        2 => "2",
        3 => "3",
        4 => "4",
        5 => "5",
        6 => "6",
        7 => "7",
        8 => "8",
        _ => "9",
    }
}

fn push_decimal(s: &mut String, n: usize)
    ensures
        final(s)@ == old(s)@ + decimal(n as nat),
    decreases n,
{
    if n >= 10 {
        push_decimal(s, n / 10);
    }
    s.append(digit_str(n % 10));
    assert(final(s)@ == old(s)@ + decimal(n as nat));
}

/// Appending keeps what was there as a prefix.
pub proof fn lemma_prefix_append<A>(a: Seq<A>, x: Seq<A>)
    ensures
        a.is_prefix_of(a + x),
{
    assert(a =~= (a + x).subrange(0, a.len() as int));
}

/// Being a prefix is transitive.
pub proof fn lemma_prefix_trans<A>(a: Seq<A>, b: Seq<A>, c: Seq<A>)
    requires
        a.is_prefix_of(b),
        b.is_prefix_of(c),
    ensures
        a.is_prefix_of(c),
{
    assert(a =~= c.subrange(0, a.len() as int));
}

impl QueryBuilder {
    /// The buffer `self` holds what `before` held, and possibly more after it.
    pub open spec fn extends(self, before: QueryBuilder) -> bool {
        before.sql@.is_prefix_of(self.sql@) && before.binds@.is_prefix_of(self.binds@)
    }

    /// An empty buffer.
    pub fn new() -> (r: QueryBuilder)
        ensures
            r.sql@ == Seq::<char>::empty(),
            r.binds@ == Seq::<BindParam>::empty(),
    {
        QueryBuilder { sql: String::new(), binds: Vec::new() }
    }

    /// Appends literal SQL text.
    pub fn push_sql(&mut self, text: &str)
        ensures
            final(self).sql@ == old(self).sql@ + text@,
            final(self).binds@ == old(self).binds@,
    {
        self.sql.append(text);
    }

    /// Registers a bind parameter and writes its positional placeholder.
    /// Fails, leaving the buffer as it was, when the value does not fit the tag.
    pub fn push_bound_value(&mut self, value: &Value, sql_type: SqlType) -> (r: BuildQueryResult)
        requires
            old(self).binds@.len() < usize::MAX,
        ensures
            r is Ok <==> value_fits(*value, sql_type),
            r is Ok ==> final(self).sql@ == old(self).sql@ + placeholder(
                old(self).binds@.len() + 1,
            ),
            r is Ok ==> final(self).binds@ == old(self).binds@.push(
                BindParam { value: *value, sql_type },
            ),
            r is Err ==> r == Err::<(), BuildError>(BuildError::ValueDoesNotFitType),
            r is Err ==> *final(self) == *old(self),
    {
        if !value.fits(sql_type) {
            return Err(BuildError::ValueDoesNotFitType);
        }
        let k = self.binds.len() + 1;
        self.sql.append("$");
        push_decimal(&mut self.sql, k);
        proof {
            reveal_strlit("$");
        }
        self.binds.push(BindParam { value: value.duplicate(), sql_type });
        Ok(())
    }
}

} // verus!
