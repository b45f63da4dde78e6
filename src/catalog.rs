//! Where the planner looks up tables and scalar functions.

use vstd::prelude::*;
use crate::datatypes::{DataType, FieldV, Schema, copy_fields, fields_view};
use crate::logical::FunctionMeta;

verus! {

/// The metadata the planner consults: table schemas and function signatures.
pub trait SchemaProvider {
    /// The schema of the table called `name`, if there is one.
    spec fn table_meta(&self, name: Seq<char>) -> Option<Seq<FieldV>>;

    /// The parameters and result type of the function called `name`, if any.
    spec fn function_meta(&self, name: Seq<char>) -> Option<(Seq<FieldV>, DataType)>;

    fn get_table_meta(&self, name: &str) -> (r: Option<Schema>)
        ensures
            r matches Some(s) ==> self.table_meta(name@) == Some(s@),
            r is None ==> self.table_meta(name@) is None,
    ;

    fn get_function_meta(&self, name: &str) -> (r: Option<FunctionMeta>)
        ensures
            r matches Some(m) ==> self.function_meta(name@) == Some(
                (fields_view(m.args@), m.return_type),
            ),
            r is None ==> self.function_meta(name@) is None,
    ;
}

/// A registered table.
#[derive(Debug)]
pub struct TableEntry {
    pub name: String,
    pub schema: Schema,
}

/// Tables and scalar functions by name; a later registration under a name
/// replaces an earlier one.
#[derive(Debug)]
pub struct Catalog {
    pub tables: Vec<TableEntry>,
    pub functions: Vec<FunctionMeta>,
}

pub open spec fn lookup_table(s: Seq<TableEntry>, name: Seq<char>) -> Option<Seq<FieldV>>
    decreases s.len(),
{
    if s.len() == 0 {
        None
    } else if s.last().name@ == name {
        Some(s.last().schema@)
    } else {
        lookup_table(s.drop_last(), name)
    }
}

pub open spec fn lookup_function(s: Seq<FunctionMeta>, name: Seq<char>) -> Option<(Seq<FieldV>, DataType)>
    decreases s.len(),
{
    if s.len() == 0 {
        None
    } else if s.last().name@ == name {
        Some((fields_view(s.last().args@), s.last().return_type))
    } else {
        lookup_function(s.drop_last(), name)
    }
}

impl Catalog {
    pub fn new() -> (r: Catalog)
        ensures
            r.tables@.len() == 0,
            r.functions@.len() == 0,
    {
        Catalog { tables: Vec::new(), functions: Vec::new() }
    }

    /// Registers `schema` as the schema of table `name`.
    pub fn register_table(&mut self, name: &str, schema: Schema)
        ensures
            forall|n: Seq<char>| #[trigger] lookup_table(final(self).tables@, n) == if n == name@ {
                Some(schema@)
            } else {
                lookup_table(old(self).tables@, n)
            },
            final(self).functions@ == old(self).functions@,
    {
        self.tables.push(TableEntry { name: String::from_str(name), schema });
        assert forall|n: Seq<char>| #[trigger] lookup_table(self.tables@, n) == if n == name@ {
            Some(schema@)
        } else {
            lookup_table(old(self).tables@, n)
        } by {
            assert(self.tables@.drop_last() =~= old(self).tables@);
        }
    }

    /// Registers a scalar function under its name.
    pub fn register_function(&mut self, meta: FunctionMeta)
        ensures
            forall|n: Seq<char>| #[trigger] lookup_function(final(self).functions@, n) == if n
                == meta.name@ {
                Some((fields_view(meta.args@), meta.return_type))
            } else {
                lookup_function(old(self).functions@, n)
            },
            final(self).tables@ == old(self).tables@,
    {
        let ghost m = meta;
        self.functions.push(meta);
        assert forall|n: Seq<char>| #[trigger] lookup_function(self.functions@, n) == if n
            == m.name@ {
            Some((fields_view(m.args@), m.return_type))
        } else {
            lookup_function(old(self).functions@, n)
        } by {
            assert(self.functions@.drop_last() =~= old(self).functions@);
        }
    }
}

impl SchemaProvider for Catalog {
    open spec fn table_meta(&self, name: Seq<char>) -> Option<Seq<FieldV>> {
        lookup_table(self.tables@, name)
    }

    open spec fn function_meta(&self, name: Seq<char>) -> Option<(Seq<FieldV>, DataType)> {
        lookup_function(self.functions@, name)
    }

    fn get_table_meta(&self, name: &str) -> (r: Option<Schema>) {
        let mut i: usize = self.tables.len();
        let key = String::from_str(name);
        assert(self.tables@.subrange(0, i as int) =~= self.tables@);
        while i > 0
            invariant
                i <= self.tables@.len(),
                key@ == name@,
                lookup_table(self.tables@, name@) == lookup_table(self.tables@.subrange(0, i as int), name@),
            decreases i,
        {
            assert(self.tables@.subrange(0, i as int).drop_last() =~= self.tables@.subrange(0, i - 1));
            if self.tables[i - 1].name == key {
                return Some(self.tables[i - 1].schema.duplicate());
            }
            i = i - 1;
        }
        None
    }

    fn get_function_meta(&self, name: &str) -> (r: Option<FunctionMeta>) {
        let mut i: usize = self.functions.len();
        let key = String::from_str(name);
        assert(self.functions@.subrange(0, i as int) =~= self.functions@);
        while i > 0
            invariant
                i <= self.functions@.len(),
                key@ == name@,
                lookup_function(self.functions@, name@) == lookup_function(
                    self.functions@.subrange(0, i as int),
                    name@,
                ),
            decreases i,
        {
            assert(self.functions@.subrange(0, i as int).drop_last() =~= self.functions@.subrange(0, i - 1));
            let f = &self.functions[i - 1];
            if f.name == key {
                return Some(
                    FunctionMeta {
                        name: f.name.clone(),
                        args: copy_fields(&f.args),
                        return_type: f.return_type,
                    },
                );
            }
            i = i - 1;
        }
        None
    }
}

} // verus!
