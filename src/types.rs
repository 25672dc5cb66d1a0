use vstd::prelude::*;

verus! {

/// The scalar SQL types an expression can carry.
#[derive(Clone, Copy, Debug, PartialEq, Eq, Structural)]
pub enum ScalarType {
    Integer,
    BigInt,
    Text,
    Bool,
}

/// A SQL type tag: a scalar type, possibly wrapped in the nullable marker.
/// Wrapping is a flag, so a nullable tag is never wrapped twice.
#[derive(Clone, Copy, Debug, PartialEq, Eq, Structural)]
pub struct SqlType {
    pub scalar: ScalarType,
    pub nullable: bool,
}

impl SqlType {
    pub open spec fn spec_into_nullable(self) -> SqlType {
        SqlType { scalar: self.scalar, nullable: true }
    }

    /// The non-nullable tag of a scalar type.
    pub fn not_null(scalar: ScalarType) -> (r: SqlType)
        ensures
            r == (SqlType { scalar, nullable: false }),
    {
        SqlType { scalar, nullable: false }
    }

    /// The tag wrapped in the nullable marker; a nullable tag stays as it is.
    #[verifier::when_used_as_spec(spec_into_nullable)]
    pub fn into_nullable(self) -> (r: SqlType)
        ensures
            r == self.spec_into_nullable(),
    {
        SqlType { scalar: self.scalar, nullable: true }
    }

    /// The big-integer tag that offset and limit bounds must carry.
    pub open spec fn is_big_int(self) -> bool {
        self.scalar == ScalarType::BigInt && !self.nullable
    }

    pub open spec fn is_bool(self) -> bool {
        self.scalar == ScalarType::Bool && !self.nullable
    }
}

/// A value that can be bound to a placeholder.
#[derive(Debug, PartialEq, Eq)]
pub enum Value {
    Null,
    Integer(i32),
    BigInt(i64),
    Text(String),
    Bool(bool),
}

/// Whether a value can be encoded for a tag.
pub open spec fn value_fits(v: Value, t: SqlType) -> bool {
    match v {
        Value::Null => t.nullable,
        Value::Integer(_) => t.scalar == ScalarType::Integer,
        Value::BigInt(_) => t.scalar == ScalarType::BigInt,
        Value::Text(_) => t.scalar == ScalarType::Text,
        Value::Bool(_) => t.scalar == ScalarType::Bool,
    }
}

impl Value {
    /// A copy of the value.
    pub fn duplicate(&self) -> (r: Value)
        ensures
            r == *self,
    {
        match self {
            Value::Null => Value::Null,
            Value::Integer(i) => Value::Integer(*i),
            Value::BigInt(i) => Value::BigInt(*i),
            Value::Text(s) => Value::Text(s.clone()),
            Value::Bool(b) => Value::Bool(*b),
        }
    }

    /// Whether the value can be encoded for the tag `t`.
    pub fn fits(&self, t: SqlType) -> (r: bool)
        ensures
            r == value_fits(*self, t),
    {
        match self {
            Value::Null => t.nullable,
            Value::Integer(_) => t.scalar == ScalarType::Integer,
            Value::BigInt(_) => t.scalar == ScalarType::BigInt,
            Value::Text(_) => t.scalar == ScalarType::Text,
            Value::Bool(_) => t.scalar == ScalarType::Bool,
        }
    }
}

} // verus!
