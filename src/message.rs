use vstd::prelude::*;
use crate::assoc::{assoc, distinct_keys, lemma_assoc_none, lemma_distinct_prepend};
use crate::bytes::copy_range;
use crate::error::ProtocolError;

verus! {

/// A payload value. Arrays of byte values travel as `Bytes`; any other
/// array or object travels as its JSON text, which the protocol never reads.
#[derive(Debug, Clone, PartialEq)]
pub enum Value {
    Null,
    Bool(bool),
    /// A non-negative integer.
    UInt(u64),
    /// A negative integer.
    Int(i64),
    /// A number with a fraction, as the bits of an IEEE-754 double.
    Float(u64),
    Str(String),
    Bytes(Vec<u8>),
    /// JSON text, as UTF-8 bytes.
    Json(Vec<u8>),
}

/// What a payload value stands for.
pub enum ValueView {
    Null,
    Bool(bool),
    UInt(u64),
    Int(i64),
    Float(u64),
    Str(Seq<char>),
    Bytes(Seq<u8>),
    Json(Seq<u8>),
}

impl View for Value {
    type V = ValueView;

    open spec fn view(&self) -> ValueView {
        match self {
            Value::Null => ValueView::Null,
            Value::Bool(b) => ValueView::Bool(*b),
            Value::UInt(n) => ValueView::UInt(*n),
            Value::Int(i) => ValueView::Int(*i),
            Value::Float(f) => ValueView::Float(*f),
            Value::Str(s) => ValueView::Str(s@),
            Value::Bytes(b) => ValueView::Bytes(b@),
            Value::Json(j) => ValueView::Json(j@),
        }
    }
}

/// A payload as key/value pairs.
pub type Payload = Vec<(String, Value)>;

/// What a payload stands for: its pairs in order.
pub open spec fn payload_view(p: Seq<(String, Value)>) -> Seq<(Seq<char>, ValueView)> {
    p.map_values(|e: (String, Value)| (e.0@, e.1@))
}

/// The value of the first pair under `key`.
pub open spec fn lookup(p: Seq<(Seq<char>, ValueView)>, key: Seq<char>) -> Option<ValueView> {
    assoc(p, key)
}

/// A payload whose keys are distinct.
pub open spec fn payload_wf(p: Payload) -> bool {
    distinct_keys(payload_view(p@))
}

/// The wire object of every stage.
#[derive(Debug, Clone, PartialEq)]
pub struct Message {
    pub stage: u8,
    pub counter: u32,
    pub timestamp: u32,
    pub from: String,
    pub to: String,
    pub payload: Payload,
}

impl Message {
    /// The value under `key` in this message's payload.
    pub open spec fn field(self, key: Seq<char>) -> Option<ValueView> {
        lookup(payload_view(self.payload@), key)
    }
}

impl ValueView {
    pub open spec fn as_u64(self) -> Option<u64> {
        match self {
            ValueView::UInt(n) => Some(n),
            ValueView::Int(i) => if i >= 0 {
                Some(i as u64)
            } else {
                None
            },
            _ => None,
        }
    }

    pub open spec fn as_bool(self) -> Option<bool> {
        match self {
            ValueView::Bool(b) => Some(b),
            _ => None,
        }
    }

    pub open spec fn as_str(self) -> Option<Seq<char>> {
        match self {
            ValueView::Str(s) => Some(s),
            _ => None,
        }
    }

    /// The 32-byte key that a value carries.
    pub open spec fn as_key(self) -> Option<Seq<u8>> {
        match self {
            ValueView::Bytes(b) => if b.len() == 32 {
                Some(b)
            } else {
                None
            },
            _ => None,
        }
    }
}

/// `field` read as an unsigned integer, or `default` where it is missing or
/// of another kind.
pub open spec fn u64_or(field: Option<ValueView>, default: u64) -> u64 {
    match field {
        Some(v) => match v.as_u64() {
            Some(n) => n,
            None => default,
        },
        None => default,
    }
}

/// `field` read as a boolean, or `default`.
pub open spec fn bool_or(field: Option<ValueView>, default: bool) -> bool {
    match field {
        Some(v) => match v.as_bool() {
            Some(b) => b,
            None => default,
        },
        None => default,
    }
}

impl Value {
    pub fn as_u64(&self) -> (r: Option<u64>)
        ensures
            r == self@.as_u64(),
    {
        match self {
            Value::UInt(n) => Some(*n),
            Value::Int(i) => if *i >= 0 {
                Some(*i as u64)
            } else {
                None
            },
            _ => None,
        }
    }

    pub fn as_bool(&self) -> (r: Option<bool>)
        ensures
            r == self@.as_bool(),
    {
        match self {
            Value::Bool(b) => Some(*b),
            _ => None,
        }
    }

    pub fn as_str(&self) -> (r: Option<&str>)
        ensures
            r matches Some(s) ==> self@.as_str() == Some(s@),
            r is None ==> self@.as_str() is None,
    {
        match self {
            Value::Str(s) => Some(s.as_str()),
            _ => None,
        }
    }

    /// A value that stands for the same as this one.
    pub fn copy(&self) -> (r: Value)
        ensures
            r@ == self@,
    {
        match self {
            Value::Null => Value::Null,
            Value::Bool(b) => Value::Bool(*b),
            Value::UInt(n) => Value::UInt(*n),
            Value::Int(i) => Value::Int(*i),
            Value::Float(f) => Value::Float(*f),
            Value::Str(s) => {
                let c = s.clone();
                assert(c@ == s@);
                Value::Str(c)
            },
            Value::Bytes(b) => {
                let c = copy_range(b.as_slice(), 0, b.len());
                assert(c@ =~= b@);
                Value::Bytes(c)
            },
            Value::Json(j) => {
                let c = copy_range(j.as_slice(), 0, j.len());
                assert(c@ =~= j@);
                Value::Json(c)
            },
        }
    }

    /// The 32-byte key this value carries; anything else fails key agreement.
    pub fn to_key_bytes(&self) -> (r: Result<[u8; 32], ProtocolError>)
        ensures
            match self@.as_key() {
                Some(k) => r matches Ok(a) && a@ == k,
                None => r == Err::<[u8; 32], ProtocolError>(ProtocolError::KeyAgreementFailed),
            },
    {
        let b = match self {
            Value::Bytes(b) => b,
            _ => {
                return Err(ProtocolError::KeyAgreementFailed);
            },
        };
        if b.len() != 32 {
            return Err(ProtocolError::KeyAgreementFailed);
        }
        let mut key = [0u8; 32];
        let mut i: usize = 0;
        while i < 32
            invariant
                i <= 32,
                b@.len() == 32,
                forall|j: int| 0 <= j < i ==> #[trigger] key@[j] == b@[j],
            decreases 32 - i,
        {
            key[i] = b[i];
            i = i + 1;
        }
        assert(key@ =~= b@);
        Ok(key)
    }
}

/// Whether two strings are equal, compared by their UTF-8 bytes.
pub fn str_eq(a: &str, b: &str) -> (r: bool)
    ensures
        r == (a@ == b@),
{
    let x = a.as_bytes();
    let y = b.as_bytes();
    assert(x@ == vstd::utf8::encode_utf8(a@));
    assert(y@ == vstd::utf8::encode_utf8(b@));
    proof {
        vstd::utf8::encode_utf8_decode_utf8(a@);
        vstd::utf8::encode_utf8_decode_utf8(b@);
    }
    if x.len() != y.len() {
        return false;
    }
    let mut i: usize = 0;
    while i < x.len()
        invariant
            i <= x@.len(),
            x@.len() == y@.len(),
            x@ == vstd::utf8::encode_utf8(a@),
            y@ == vstd::utf8::encode_utf8(b@),
            x@.subrange(0, i as int) == y@.subrange(0, i as int),
        decreases x@.len() - i,
    {
        if x[i] != y[i] {
            assert(x@[i as int] != y@[i as int]);
            assert(a@ != b@) by {
                if a@ == b@ {
                    assert(x@ == y@);
                }
            }
            return false;
        }
        i = i + 1;
        assert(x@.subrange(0, i as int) =~= x@.subrange(0, i - 1) + seq![x@[i - 1]]);
        assert(y@.subrange(0, i as int) =~= y@.subrange(0, i - 1) + seq![y@[i - 1]]);
    }
    assert(x@ =~= x@.subrange(0, i as int));
    assert(y@ =~= y@.subrange(0, i as int));
    proof {
        vstd::utf8::encode_utf8_decode_utf8(a@);
        vstd::utf8::encode_utf8_decode_utf8(b@);
    }
    true
}

/// The value of the first pair of `payload` under `key`.
pub fn payload_get<'a>(payload: &'a Payload, key: &str) -> (r: Option<&'a Value>)
    ensures
        r matches Some(v) ==> lookup(payload_view(payload@), key@) == Some(v@),
        r is None ==> lookup(payload_view(payload@), key@) is None,
{
    let ghost pv = payload_view(payload@);
    assert(pv.subrange(0, pv.len() as int) =~= pv);
    let mut i: usize = 0;
    while i < payload.len()
        invariant
            i <= payload@.len(),
            pv == payload_view(payload@),
            assoc(pv, key@) == assoc(pv.subrange(i as int, pv.len() as int), key@),
        decreases payload@.len() - i,
    {
        assert(pv.subrange(i as int, pv.len() as int).drop_first() =~= pv.subrange(i + 1, pv.len() as int));
        if str_eq(payload[i].0.as_str(), key) {
            return Some(&payload[i].1);
        }
        i = i + 1;
    }
    None
}

/// A payload of no pairs.
pub fn empty_payload() -> (r: Payload)
    ensures
        payload_view(r@) == Seq::<(Seq<char>, ValueView)>::empty(),
        payload_wf(r),
{
    let r: Payload = Vec::new();
    assert(payload_view(r@) =~= Seq::<(Seq<char>, ValueView)>::empty());
    r
}

/// Adds the pair `(key, value)` to a payload that lacks `key`.
pub fn put(payload: &mut Payload, key: &str, value: Value)
    requires
        lookup(payload_view(old(payload)@), key@) is None,
    ensures
        payload_wf(*old(payload)) ==> payload_wf(*final(payload)),
        payload_view(final(payload)@) == seq![(key@, value@)] + payload_view(old(payload)@),
        payload_view(final(payload)@).len() > 0,
        payload_view(final(payload)@)[0] == (key@, value@),
        payload_view(final(payload)@).drop_first() == payload_view(old(payload)@),
        forall|k: Seq<char>| #[trigger] lookup(payload_view(final(payload)@), k) == if k == key@ {
            Some(value@)
        } else {
            lookup(payload_view(old(payload)@), k)
        },
{
    payload.insert(0, (key.to_owned(), value));
    assert(payload_view(payload@) =~= seq![(key@, value@)] + payload_view(old(payload)@));
    assert(payload_view(payload@).drop_first() =~= payload_view(old(payload)@));
    proof {
        lemma_assoc_none(payload_view(old(payload)@), key@);
        if payload_wf(*old(payload)) {
            lemma_distinct_prepend(payload_view(old(payload)@), key@, value@);
        }
    }
}

/// The decimal digits of `n`, as ASCII.
pub open spec fn decimal(n: nat) -> Seq<u8>
    decreases n,
{
    if n < 10 {
        seq![(48 + n) as u8]
    } else {
        decimal(n / 10).push((48 + n % 10) as u8)
    }
}

/// Appends the decimal digits of `n` to `out`.
pub fn push_decimal(out: &mut Vec<u8>, n: u64)
    ensures
        final(out)@ == old(out)@ + decimal(n as nat),
    decreases n,
{
    if n >= 10 {
        push_decimal(out, n / 10);
    }
    out.push((48 + n % 10) as u8);
    assert(out@ =~= old(out)@ + decimal(n as nat));
}

} // verus!
