use vstd::prelude::*;

verus! {

/// One field value of an untyped payload, as far as the decoder reads it.
/// Numbers that are not unsigned 64-bit integers, arrays and objects are `Other`.
#[derive(Clone, Debug)]
pub enum RawValue {
    Null,
    Bool(bool),
    UInt(u64),
    Str(String),
    Other,
}

#[derive(Clone, Debug)]
pub struct RawField {
    pub name: String,
    pub value: RawValue,
}

/// An untyped structured payload: its fields in order. A payload that is not
/// an object has no fields.
#[derive(Clone, Debug)]
pub struct RawEvent {
    pub fields: Vec<RawField>,
}

/// A payload as its fields' names and values, in order.
pub type PayloadView = Seq<(Seq<char>, RawValue)>;

impl View for RawEvent {
    type V = PayloadView;

    open spec fn view(&self) -> Seq<(Seq<char>, RawValue)> {
        self.fields@.map_values(|f: RawField| (f.name@, f.value))
    }
}

/// Why a payload could not be decoded.
#[derive(Clone, Debug)]
pub enum DecodeError {
    MissingDiscriminant,
    UnknownKind(String),
    SchemaMismatch,
}

/// The value of the first field called `name`.
pub open spec fn find_field(s: Seq<(Seq<char>, RawValue)>, name: Seq<char>) -> Option<RawValue>
    decreases s.len(),
{
    if s.len() == 0 {
        None
    } else if s[0].0 == name {
        Some(s[0].1)
    } else {
        find_field(s.subrange(1, s.len() as int), name)
    }
}

pub open spec fn read_u64_spec(s: Seq<(Seq<char>, RawValue)>, name: Seq<char>) -> Result<
    u64,
    DecodeError,
> {
    match find_field(s, name) {
        Some(RawValue::UInt(n)) => Ok(n),
        _ => Err(DecodeError::SchemaMismatch),
    }
}

pub open spec fn read_u32_spec(s: Seq<(Seq<char>, RawValue)>, name: Seq<char>) -> Result<
    u32,
    DecodeError,
> {
    match find_field(s, name) {
        Some(RawValue::UInt(n)) => if n <= u32::MAX {
            Ok(n as u32)
        } else {
            Err(DecodeError::SchemaMismatch)
        },
        _ => Err(DecodeError::SchemaMismatch),
    }
}

pub open spec fn read_str_spec(s: Seq<(Seq<char>, RawValue)>, name: Seq<char>) -> Result<
    String,
    DecodeError,
> {
    match find_field(s, name) {
        Some(RawValue::Str(v)) => Ok(v),
        _ => Err(DecodeError::SchemaMismatch),
    }
}

/// An optional string field: absent or null reads as `None`.
pub open spec fn read_opt_str_spec(s: Seq<(Seq<char>, RawValue)>, name: Seq<char>) -> Result<
    Option<String>,
    DecodeError,
> {
    match find_field(s, name) {
        None => Ok(None),
        Some(RawValue::Null) => Ok(None),
        Some(RawValue::Str(v)) => Ok(Some(v)),
        _ => Err(DecodeError::SchemaMismatch),
    }
}

pub(crate) fn field_index(f: &Vec<RawField>, name: &str) -> (r: Option<usize>)
    ensures
        match r {
            Some(i) => i < f@.len() && find_field(
                f@.map_values(|x: RawField| (x.name@, x.value)),
                name@,
            ) == Some(f@[i as int].value),
            None => find_field(f@.map_values(|x: RawField| (x.name@, x.value)), name@) is None,
        },
{
    let ghost v = f@.map_values(|x: RawField| (x.name@, x.value));
    let wanted = name.to_owned();
    let mut i: usize = 0;
    assert(v.subrange(0, v.len() as int) =~= v);
    while i < f.len()
        invariant
            i <= f@.len(),
            v == f@.map_values(|x: RawField| (x.name@, x.value)),
            wanted@ == name@,
            find_field(v, name@) == find_field(v.subrange(i as int, v.len() as int), name@),
        decreases f.len() - i,
    {
        proof {
            let rest = v.subrange(i as int, v.len() as int);
            assert(rest[0] == v[i as int]);
            assert(rest.subrange(1, rest.len() as int) =~= v.subrange(i + 1, v.len() as int));
        }
        if f[i].name == wanted {
            return Some(i);
        }
        i = i + 1;
    }
    None
}

pub(crate) fn read_u64(f: &Vec<RawField>, name: &str) -> (r: Result<u64, DecodeError>)
    ensures
        r == read_u64_spec(f@.map_values(|x: RawField| (x.name@, x.value)), name@),
{
    match field_index(f, name) {
        Some(i) => match &f[i].value {
            RawValue::UInt(n) => Ok(*n),
            _ => Err(DecodeError::SchemaMismatch),
        },
        None => Err(DecodeError::SchemaMismatch),
    }
}

pub(crate) fn read_u32(f: &Vec<RawField>, name: &str) -> (r: Result<u32, DecodeError>)
    ensures
        r == read_u32_spec(f@.map_values(|x: RawField| (x.name@, x.value)), name@),
{
    match field_index(f, name) {
        Some(i) => match &f[i].value {
            RawValue::UInt(n) => if *n <= 4294967295u64 {
                Ok(*n as u32)
            } else {
                Err(DecodeError::SchemaMismatch)
            },
            _ => Err(DecodeError::SchemaMismatch),
        },
        None => Err(DecodeError::SchemaMismatch),
    }
}

pub(crate) fn read_str(f: &Vec<RawField>, name: &str) -> (r: Result<String, DecodeError>)
    ensures
        r == read_str_spec(f@.map_values(|x: RawField| (x.name@, x.value)), name@),
{
    match field_index(f, name) {
        Some(i) => match &f[i].value {
            RawValue::Str(s) => Ok(s.clone()),
            _ => Err(DecodeError::SchemaMismatch),
        },
        None => Err(DecodeError::SchemaMismatch),
    }
}

pub(crate) fn read_opt_str(f: &Vec<RawField>, name: &str) -> (r: Result<Option<String>, DecodeError>)
    ensures
        r == read_opt_str_spec(f@.map_values(|x: RawField| (x.name@, x.value)), name@),
{
    match field_index(f, name) {
        Some(i) => match &f[i].value {
            RawValue::Null => Ok(None),
            RawValue::Str(s) => Ok(Some(s.clone())),
            _ => Err(DecodeError::SchemaMismatch),
        },
        None => Ok(None),
    }
}

} // verus!

verus! {

/// An optional string as a field value: `None` is written as null.
pub open spec fn opt_value(o: Option<String>) -> RawValue {
    match o {
        Some(s) => RawValue::Str(s),
        None => RawValue::Null,
    }
}

pub(crate) fn opt_raw(o: &Option<String>) -> (r: RawValue)
    ensures
        r == opt_value(*o),
{
    match o {
        Some(s) => RawValue::Str(s.clone()),
        None => RawValue::Null,
    }
}

} // verus!
