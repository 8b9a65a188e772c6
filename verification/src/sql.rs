//! Statements and values as they go to and come from the database.
use vstd::prelude::*;

verus! {

/// One value of a row or one bound parameter.
#[derive(Debug)]
pub enum SqlValue {
    Null,
    Integer(i64),
    /// A floating-point number. No rule reads its digits.
    Real,
    Text(String),
    Blob(Vec<u8>),
}

/// A value as a mathematical value.
#[verifier::ext_equal]
pub enum SqlModel {
    Null,
    Integer(i64),
    Real,
    Text(Seq<char>),
    Blob(Seq<u8>),
}

impl View for SqlValue {
    type V = SqlModel;

    open spec fn view(&self) -> SqlModel {
        match self {
            SqlValue::Null => SqlModel::Null,
            SqlValue::Integer(n) => SqlModel::Integer(*n),
            SqlValue::Real => SqlModel::Real,
            SqlValue::Text(text) => SqlModel::Text(text@),
            SqlValue::Blob(bytes) => SqlModel::Blob(bytes@),
        }
    }
}

/// The values of a row or of a parameter list.
pub open spec fn models(values: Seq<SqlValue>) -> Seq<SqlModel> {
    values.map_values(|value: SqlValue| value@)
}

impl SqlValue {
    pub fn as_integer(&self) -> (n: Option<i64>)
        ensures
            n == (match self@ {
                SqlModel::Integer(i) => Some(i),
                _ => None,
            }),
    {
        match self {
            SqlValue::Integer(n) => Some(*n),
            _ => None,
        }
    }

    pub fn as_text(&self) -> (text: Option<String>)
        ensures
            match self@ {
                SqlModel::Text(expected) => text matches Some(found) && found@ == expected,
                _ => text is None,
            },
    {
        match self {
            SqlValue::Text(text) => Some(text.clone()),
            _ => None,
        }
    }
}

/// A statement with the values bound to its parameters, in order.
pub struct SqlStatement {
    pub sql: String,
    pub values: Vec<SqlValue>,
}

impl SqlStatement {
    /// The statement is `sql` with `values` bound.
    pub open spec fn runs(self, sql: Seq<char>, values: Seq<SqlModel>) -> bool {
        &&& self.sql@ == sql
        &&& models(self.values@) == values
    }
}

} // verus!
