//! Data types, fields and schemas of columnar tables, and the supertype
//! lattice used by type coercion.

use vstd::prelude::*;

verus! {

/// The logical type of a column or of a scalar value.
#[derive(Clone, Copy, Debug, PartialEq, Eq, Structural)]
pub enum DataType {
    Boolean,
    Int8,
    Int16,
    Int32,
    Int64,
    UInt8,
    UInt16,
    UInt32,
    UInt64,
    Float32,
    Float64,
    Utf8,
}

/// Position of a signed integer type in the width order, if it is one.
pub open spec fn signed_rank(t: DataType) -> Option<nat> {
    match t {
        DataType::Int8 => Some(1),
        DataType::Int16 => Some(2),
        DataType::Int32 => Some(3),
        DataType::Int64 => Some(4),
        _ => None,
    }
}

/// Position of an unsigned integer type in the width order, if it is one.
pub open spec fn unsigned_rank(t: DataType) -> Option<nat> {
    match t {
        DataType::UInt8 => Some(1),
        DataType::UInt16 => Some(2),
        DataType::UInt32 => Some(3),
        DataType::UInt64 => Some(4),
        _ => None,
    }
}

pub open spec fn signed_of_rank(r: nat) -> DataType {
    if r <= 1 {
        DataType::Int8
    } else if r == 2 {
        DataType::Int16
    } else if r == 3 {
        DataType::Int32
    } else {
        DataType::Int64
    }
}

pub open spec fn unsigned_of_rank(r: nat) -> DataType {
    if r <= 1 {
        DataType::UInt8
    } else if r == 2 {
        DataType::UInt16
    } else if r == 3 {
        DataType::UInt32
    } else {
        DataType::UInt64
    }
}

pub open spec fn is_float(t: DataType) -> bool {
    t == DataType::Float32 || t == DataType::Float64
}

pub open spec fn is_numeric(t: DataType) -> bool {
    signed_rank(t) is Some || unsigned_rank(t) is Some || is_float(t)
}

pub open spec fn max_nat(a: nat, b: nat) -> nat {
    if a >= b { a } else { b }
}

/// The widest common type of two types, if they have one.
///
/// Integers widen to the larger width of the same signedness; a signed and an
/// unsigned integer widen to the signed type one step wider than both (capped
/// at `Int64`); any number combined with a float gives a float (`Float64` if
/// either side is `Float64`); `Utf8` and `Boolean` combine only with themselves.
pub open spec fn supertype(l: DataType, r: DataType) -> Option<DataType> {
    if l == r {
        Some(l)
    } else if !is_numeric(l) || !is_numeric(r) {
        None
    } else if l == DataType::Float64 || r == DataType::Float64 {
        Some(DataType::Float64)
    } else if is_float(l) || is_float(r) {
        Some(DataType::Float32)
    } else if signed_rank(l) is Some && signed_rank(r) is Some {
        Some(signed_of_rank(max_nat(signed_rank(l)->0, signed_rank(r)->0)))
    } else if unsigned_rank(l) is Some && unsigned_rank(r) is Some {
        Some(unsigned_of_rank(max_nat(unsigned_rank(l)->0, unsigned_rank(r)->0)))
    } else {
        let s = if signed_rank(l) is Some { signed_rank(l)->0 } else { signed_rank(r)->0 };
        let u = if unsigned_rank(l) is Some { unsigned_rank(l)->0 } else { unsigned_rank(r)->0 };
        Some(signed_of_rank(max_nat(s, u) + 1))
    }
}

fn signed_rank_of(t: DataType) -> (r: Option<u8>)
    ensures
        r matches Some(k) ==> signed_rank(t) == Some(k as nat),
        r is None ==> signed_rank(t) is None,
{
    match t {
        DataType::Int8 => Some(1),
        DataType::Int16 => Some(2),
        DataType::Int32 => Some(3),
        DataType::Int64 => Some(4),
        _ => None,
    }
}

fn unsigned_rank_of(t: DataType) -> (r: Option<u8>)
    ensures
        r matches Some(k) ==> unsigned_rank(t) == Some(k as nat),
        r is None ==> unsigned_rank(t) is None,
{
    match t {
        DataType::UInt8 => Some(1),
        DataType::UInt16 => Some(2),
        DataType::UInt32 => Some(3),
        DataType::UInt64 => Some(4),
        _ => None,
    }
}

fn signed_with_rank(r: u8) -> (t: DataType)
    ensures
        t == signed_of_rank(r as nat),
{
    if r <= 1 {
        DataType::Int8
    } else if r == 2 {
        DataType::Int16
    } else if r == 3 {
        DataType::Int32
    } else {
        DataType::Int64
    }
}

fn unsigned_with_rank(r: u8) -> (t: DataType)
    ensures
        t == unsigned_of_rank(r as nat),
{
    if r <= 1 {
        DataType::UInt8
    } else if r == 2 {
        DataType::UInt16
    } else if r == 3 {
        DataType::UInt32
    } else {
        DataType::UInt64
    }
}

/// The common supertype of two types, or `None` where they are incompatible.
pub fn get_supertype(l: &DataType, r: &DataType) -> (res: Option<DataType>)
    ensures
        res == supertype(*l, *r),
{
    let l = *l;
    let r = *r;
    if l == r {
        return Some(l);
    }
    let ls = signed_rank_of(l);
    let lu = unsigned_rank_of(l);
    let rs = signed_rank_of(r);
    let ru = unsigned_rank_of(r);
    let lf = l == DataType::Float32 || l == DataType::Float64;
    let rf = r == DataType::Float32 || r == DataType::Float64;
    if !(ls.is_some() || lu.is_some() || lf) || !(rs.is_some() || ru.is_some() || rf) {
        None
    } else if l == DataType::Float64 || r == DataType::Float64 {
        Some(DataType::Float64)
    } else if lf || rf {
        Some(DataType::Float32)
    } else {
        match (ls, rs, lu, ru) {
            (Some(a), Some(b), _, _) => Some(signed_with_rank(if a >= b { a } else { b })),
            (_, _, Some(a), Some(b)) => Some(unsigned_with_rank(if a >= b { a } else { b })),
            _ => {
                let s: u8 = match ls {
                    Some(a) => a,
                    None => match rs {
                        Some(b) => b,
                        None => 4,
                    },
                };
                let u: u8 = match lu {
                    Some(a) => a,
                    None => match ru {
                        Some(b) => b,
                        None => 4,
                    },
                };
                Some(signed_with_rank((if s >= u { s } else { u }) + 1))
            },
        }
    }
}

/// A named, typed column of a schema.
#[derive(Clone, Debug, PartialEq, Eq)]
pub struct Field {
    pub name: String,
    pub data_type: DataType,
    pub nullable: bool,
}

/// What a field holds, as plain values.
pub ghost struct FieldV {
    pub name: Seq<char>,
    pub data_type: DataType,
    pub nullable: bool,
}

impl View for Field {
    type V = FieldV;

    open spec fn view(&self) -> FieldV {
        FieldV { name: self.name@, data_type: self.data_type, nullable: self.nullable }
    }
}

impl Field {
    pub fn new(name: &str, data_type: DataType, nullable: bool) -> (r: Field)
        ensures
            r@ == (FieldV { name: name@, data_type, nullable }),
    {
        Field { name: String::from_str(name), data_type, nullable }
    }

    pub fn name(&self) -> (r: &String)
        ensures
            r@ == self.name@,
    {
        &self.name
    }

    pub fn data_type(&self) -> (r: DataType)
        ensures
            r == self.data_type,
    {
        self.data_type
    }

    pub fn is_nullable(&self) -> (r: bool)
        ensures
            r == self.nullable,
    {
        self.nullable
    }
}

/// Copies of a list of fields.
pub fn copy_fields(v: &Vec<Field>) -> (r: Vec<Field>)
    ensures
        fields_view(r@) == fields_view(v@),
{
    let mut out: Vec<Field> = Vec::new();
    let mut i: usize = 0;
    while i < v.len()
        invariant
            i <= v@.len(),
            out@.len() == i,
            forall|j: int| 0 <= j < i ==> (#[trigger] out@[j])@ == v@[j]@,
        decreases v@.len() - i,
    {
        let f = &v[i];
        out.push(Field { name: f.name.clone(), data_type: f.data_type, nullable: f.nullable });
        i = i + 1;
    }
    assert(fields_view(out@) =~= fields_view(v@));
    out
}

/// An ordered sequence of fields; a field's position is its identity.
#[derive(Clone, Debug, PartialEq, Eq)]
pub struct Schema {
    pub fields: Vec<Field>,
}

pub open spec fn fields_view(fs: Seq<Field>) -> Seq<FieldV> {
    fs.map_values(|f: Field| f@)
}

impl View for Schema {
    type V = Seq<FieldV>;

    open spec fn view(&self) -> Seq<FieldV> {
        fields_view(self.fields@)
    }
}

impl Schema {
    pub fn new(fields: Vec<Field>) -> (r: Schema)
        ensures
            r@ == fields_view(fields@),
    {
        Schema { fields }
    }

    pub fn empty() -> (r: Schema)
        ensures
            r@ == Seq::<FieldV>::empty(),
    {
        let r = Schema { fields: Vec::new() };
        assert(r@ =~= Seq::<FieldV>::empty());
        r
    }

    pub fn len(&self) -> (r: usize)
        ensures
            r == self@.len(),
    {
        self.fields.len()
    }

    pub fn field(&self, i: usize) -> (r: &Field)
        requires
            i < self@.len(),
        ensures
            r@ == self@[i as int],
    {
        &self.fields[i]
    }

    /// A copy of this schema.
    pub fn duplicate(&self) -> (r: Schema)
        ensures
            r@ == self@,
    {
        Schema { fields: copy_fields(&self.fields) }
    }

    /// The position of the first field named `name`.
    pub fn index_of(&self, name: &String) -> (r: Option<usize>)
        ensures
            r == first_named(self@, name@),
    {
        let mut i: usize = 0;
        while i < self.fields.len()
            invariant
                i <= self.fields@.len(),
                forall|j: int| 0 <= j < i ==> self@[j].name != name@,
                first_named(self@, name@) == first_named_from(self@, name@, i as nat),
            decreases self.fields@.len() - i,
        {
            if self.fields[i].name == *name {
                return Some(i);
            }
            i = i + 1;
        }
        None
    }
}

pub open spec fn first_named_from(s: Seq<FieldV>, name: Seq<char>, i: nat) -> Option<usize>
    decreases s.len() - i,
{
    if i >= s.len() {
        None
    } else if s[i as int].name == name {
        Some(i as usize)
    } else {
        first_named_from(s, name, i + 1)
    }
}

/// The position of the first field of `s` named `name`.
pub open spec fn first_named(s: Seq<FieldV>, name: Seq<char>) -> Option<usize> {
    first_named_from(s, name, 0)
}

/// A column type as SQL text names it.
#[derive(Clone, Debug, PartialEq, Eq)]
pub enum SqlType {
    Boolean,
    SmallInt,
    Int,
    BigInt,
    Float(Option<u64>),
    Real,
    Double,
    Char(Option<u64>),
    Varchar(Option<u64>),
    Decimal(Option<u64>, Option<u64>),
    Date,
    Time,
    Timestamp,
    Text,
    Bytea,
    Other(String),
}

pub open spec fn sql_type_spec(t: SqlType) -> Option<DataType> {
    match t {
        SqlType::Boolean => Some(DataType::Boolean),
        SqlType::SmallInt => Some(DataType::Int16),
        SqlType::Int => Some(DataType::Int32),
        SqlType::BigInt => Some(DataType::Int64),
        SqlType::Float(_) | SqlType::Real | SqlType::Double => Some(DataType::Float64),
        SqlType::Char(_) | SqlType::Varchar(_) => Some(DataType::Utf8),
        _ => None,
    }
}

} // verus!
