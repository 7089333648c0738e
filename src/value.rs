use vstd::prelude::*;

verus! {

/// One stored datum, tagged with its kind.
///
/// A double-precision number is held as its IEEE-754 bit pattern, so that the
/// value is compared and copied bit for bit.
#[derive(Debug, Clone, PartialEq, PartialOrd)]
pub enum Value {
    Str(String),
    Bytes(Vec<u8>),
    Int(i64),
    Float(u64),
    Bool(bool),
}

/// What a `Value` holds, as mathematical data.
pub enum ValueView {
    Str(Seq<char>),
    Bytes(Seq<u8>),
    Int(i64),
    Float(u64),
    Bool(bool),
}

impl View for Value {
    type V = ValueView;

    open spec fn view(&self) -> ValueView {
        match self {
            Value::Str(s) => ValueView::Str(s@),
            Value::Bytes(b) => ValueView::Bytes(b@),
            Value::Int(i) => ValueView::Int(*i),
            Value::Float(f) => ValueView::Float(*f),
            Value::Bool(b) => ValueView::Bool(*b),
        }
    }
}

/// The view of an optional value.
pub open spec fn opt_view(o: Option<Value>) -> Option<ValueView> {
    match o {
        Some(v) => Some(v@),
        None => None,
    }
}

impl Value {
    /// An independent copy with the same contents.
    pub fn duplicate(&self) -> (r: Value)
        ensures
            r@ == self@,
    {
        match self {
            Value::Str(s) => Value::Str(s.clone()),
            Value::Bytes(b) => {
                let c = b.clone();
                assert(c@ =~= b@);
                Value::Bytes(c)
            },
            Value::Int(i) => Value::Int(*i),
            Value::Float(f) => Value::Float(*f),
            Value::Bool(b) => Value::Bool(*b),
        }
    }
}

impl From<&str> for Value {
    fn from(s: &str) -> (r: Value)
        ensures
            r@ == ValueView::Str(s@),
    {
        Value::Str(s.to_owned())
    }
}

/// Spec code cannot build a `String`, so the conversion from `&str` states its
/// result in its own `ensures` and not through `from_spec`.
impl vstd::std_specs::convert::FromSpecImpl<&str> for Value {
    open spec fn obeys_from_spec() -> bool {
        false
    }

    open spec fn from_spec(s: &str) -> Value {
        arbitrary()
    }
}

impl From<String> for Value {
    fn from(s: String) -> (r: Value)
        ensures
            r == Value::Str(s),
    {
        Value::Str(s)
    }
}

impl vstd::std_specs::convert::FromSpecImpl<String> for Value {
    open spec fn obeys_from_spec() -> bool {
        true
    }

    open spec fn from_spec(s: String) -> Value {
        Value::Str(s)
    }
}

impl From<Vec<u8>> for Value {
    fn from(b: Vec<u8>) -> (r: Value)
        ensures
            r == Value::Bytes(b),
    {
        Value::Bytes(b)
    }
}

impl vstd::std_specs::convert::FromSpecImpl<Vec<u8>> for Value {
    open spec fn obeys_from_spec() -> bool {
        true
    }

    open spec fn from_spec(b: Vec<u8>) -> Value {
        Value::Bytes(b)
    }
}

impl From<i64> for Value {
    fn from(i: i64) -> (r: Value)
        ensures
            r == Value::Int(i),
    {
        Value::Int(i)
    }
}

impl vstd::std_specs::convert::FromSpecImpl<i64> for Value {
    open spec fn obeys_from_spec() -> bool {
        true
    }

    open spec fn from_spec(i: i64) -> Value {
        Value::Int(i)
    }
}

impl From<bool> for Value {
    fn from(b: bool) -> (r: Value)
        ensures
            r == Value::Bool(b),
    {
        Value::Bool(b)
    }
}

impl vstd::std_specs::convert::FromSpecImpl<bool> for Value {
    open spec fn obeys_from_spec() -> bool {
        true
    }

    open spec fn from_spec(b: bool) -> Value {
        Value::Bool(b)
    }
}

/// A key and its value, as handed out by enumeration.
#[derive(Debug, Clone, PartialEq, PartialOrd)]
pub struct Kvpair {
    pub key: String,
    pub value: Value,
}

impl View for Kvpair {
    type V = (Seq<char>, ValueView);

    open spec fn view(&self) -> (Seq<char>, ValueView) {
        (self.key@, self.value@)
    }
}

impl Kvpair {
    pub fn new(key: &str, value: Value) -> (r: Kvpair)
        ensures
            r.key@ == key@,
            r.value == value,
    {
        Kvpair { key: key.to_owned(), value }
    }
}

/// The kinds of failure that a storage backend may report. Absence of data
/// is never one of them.
#[derive(Debug, Clone, PartialEq)]
pub enum KvError {
    /// The underlying medium failed.
    BackendFault(String),
    /// A table or key name that the backend does not accept.
    InvalidArgument(String),
}

} // verus!
