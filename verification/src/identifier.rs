//! Names for tables, columns and result aliases.
//!
//! SQL text is parsed outside this library; identifiers arrive here as
//! plain strings and are carried through unchanged. A table is addressed
//! by a schema-qualified reference such as `sxt.t`.

use vstd::prelude::*;

verus! {

/// A column, table, schema or alias name.
#[derive(Clone, Debug, PartialEq, Eq, Hash)]
pub struct Identifier {
    pub name: String,
}

impl View for Identifier {
    type V = Seq<char>;

    open spec fn view(&self) -> Seq<char> {
        self.name@
    }
}

impl Identifier {
    pub fn new(name: &str) -> (r: Identifier)
        ensures
            r@ == name@,
    {
        Identifier { name: name.to_owned() }
    }

    pub fn clone_id(&self) -> (r: Identifier)
        ensures
            r@ == self@,
    {
        Identifier { name: self.name.clone() }
    }

    pub fn eq_name(&self, other: &Identifier) -> (r: bool)
        ensures
            r == (self@ == other@),
    {
        self.name == other.name
    }
}

/// A schema-qualified table reference.
#[derive(Clone, Debug, PartialEq, Eq, Hash)]
pub struct TableRef {
    pub schema: Identifier,
    pub name: Identifier,
}

impl View for TableRef {
    type V = (Seq<char>, Seq<char>);

    open spec fn view(&self) -> (Seq<char>, Seq<char>) {
        (self.schema@, self.name@)
    }
}

impl TableRef {
    pub fn new(schema: Identifier, name: Identifier) -> (r: TableRef)
        ensures
            r@ == (schema@, name@),
    {
        TableRef { schema, name }
    }

    pub fn clone_ref(&self) -> (r: TableRef)
        ensures
            r@ == self@,
    {
        TableRef { schema: self.schema.clone_id(), name: self.name.clone_id() }
    }

    pub fn eq_ref(&self, other: &TableRef) -> (r: bool)
        ensures
            r == (self@ == other@),
    {
        self.schema.eq_name(&other.schema) && self.name.eq_name(&other.name)
    }
}

/// The error returned when a table reference cannot be read from text.
#[derive(Clone, Copy, Debug, PartialEq, Eq, Structural)]
pub struct ParseTableRefError {}

impl core::str::FromStr for TableRef {
    type Err = ParseTableRefError;

    /// Reads a `schema.table` pair, split at the first dot.
    fn from_str(s: &str) -> Result<TableRef, ParseTableRefError> {
        let bytes = s.as_bytes();
        let n = bytes.len();
        let mut dot: usize = 0;
        let mut found = false;
        let mut i: usize = 0;
        while i < n
            invariant
                i <= n,
                n == bytes@.len(),
                found ==> dot < n,
            decreases n - i,
        {
            if bytes[i] == 46u8 {
                dot = i;
                found = true;
                break ;
            }
            i = i + 1;
        }
        if !found || dot == 0 || dot + 1 >= n {
            return Err(ParseTableRefError {});
        }
        if !s.is_char_boundary(dot) {
            return Err(ParseTableRefError {});
        }
        let (schema_part, rest) = s.split_at(dot);
        if !rest.is_char_boundary(1) {
            return Err(ParseTableRefError {});
        }
        let (_, name_part) = rest.split_at(1);
        Ok(TableRef { schema: Identifier::new(schema_part), name: Identifier::new(name_part) })
    }
}

} // verus!
