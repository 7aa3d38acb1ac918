//! The size accountant: decodes each element's value span just far enough
//! to know its kind, and computes the exact number of bytes the value
//! occupies on the wire, per element type, without re-encoding.

use vstd::prelude::*;

use crate::codec::wire_sum;
use crate::codec::ElemS;

verus! {

/// A decoded value: one variant per element type of the wire format, each
/// carrying exactly what the accountant and the renderers need.
#[derive(Clone, Copy, Debug, PartialEq, Eq, Structural)]
pub enum BsonValue {
    Double,
    /// A length-prefixed string; `len` is the UTF-8 byte length.
    StringValue { len: usize },
    /// An embedded document; `total` is the byte length of its whole span.
    Document { total: usize },
    /// An array; `total` is the byte length of its whole span.
    Array { total: usize },
    /// Binary data; `len` is the payload byte length.
    Binary { len: usize },
    Undefined,
    ObjectId,
    Boolean,
    DateTime,
    Null,
    /// A regular expression: two null-terminated byte strings.
    Regex { pattern_len: usize, options_len: usize },
    DbPointer,
    JavaScriptCode { len: usize },
    Symbol { len: usize },
    JavaScriptCodeWithScope { code_len: usize, scope_len: usize },
    Int32,
    Timestamp,
    Int64,
    Decimal128,
    MinKey,
    MaxKey,
}

/// The position of the first null byte of `s`, if any.
pub open spec fn first_zero(s: Seq<u8>) -> Option<int>
    decreases s.len(),
{
    if s.len() == 0 {
        None
    } else if s[0] == 0 {
        Some(0)
    } else {
        match first_zero(s.drop_first()) {
            Some(i) => Some(i + 1),
            None => None,
        }
    }
}

/// A scan that passed `j` nonzero bytes and stopped determines `first_zero`.
pub proof fn lemma_first_zero(s: Seq<u8>, j: int)
    requires
        0 <= j <= s.len(),
        forall|k: int| 0 <= k < j ==> s[k] != 0,
        j < s.len() ==> s[j] == 0,
    ensures
        j < s.len() ==> first_zero(s) == Some(j),
        j == s.len() ==> first_zero(s) is None,
    decreases s.len(),
{
    if s.len() == 0 {
    } else if s[0] == 0 {
        assert(j == 0);
    } else {
        assert(j >= 1);
        lemma_first_zero(s.drop_first(), j - 1);
    }
}

/// Decodes a value span. The tag says which variant applies; the lengths
/// that the accountant needs are read from the span itself. `None` where
/// the span cannot hold a value of that type.
pub open spec fn decode_value(tag: u8, v: Seq<u8>) -> Option<BsonValue> {
    if tag == 1 {
        if v.len() == 8 { Some(BsonValue::Double) } else { None }
    } else if tag == 2 {
        if v.len() >= 5 { Some(BsonValue::StringValue { len: (v.len() - 5) as usize }) } else { None }
    } else if tag == 3 {
        if v.len() >= 5 { Some(BsonValue::Document { total: v.len() as usize }) } else { None }
    } else if tag == 4 {
        if v.len() >= 5 { Some(BsonValue::Array { total: v.len() as usize }) } else { None }
    } else if tag == 5 {
        if v.len() < 5 {
            None
        } else if v[4] == 2 {
            if v.len() >= 9 { Some(BsonValue::Binary { len: (v.len() - 9) as usize }) } else { None }
        } else {
            Some(BsonValue::Binary { len: (v.len() - 5) as usize })
        }
    } else if tag == 6 {
        if v.len() == 0 { Some(BsonValue::Undefined) } else { None }
    } else if tag == 7 {
        if v.len() == 12 { Some(BsonValue::ObjectId) } else { None }
    } else if tag == 8 {
        if v.len() == 1 { Some(BsonValue::Boolean) } else { None }
    } else if tag == 9 {
        if v.len() == 8 { Some(BsonValue::DateTime) } else { None }
    } else if tag == 10 {
        if v.len() == 0 { Some(BsonValue::Null) } else { None }
    } else if tag == 11 {
        match first_zero(v) {
            Some(p) => if p + 2 <= v.len() {
                Some(BsonValue::Regex { pattern_len: p as usize, options_len: (v.len() - p - 2) as usize })
            } else {
                None
            },
            None => None,
        }
    } else if tag == 12 {
        if v.len() >= 17 { Some(BsonValue::DbPointer) } else { None }
    } else if tag == 13 {
        if v.len() >= 5 { Some(BsonValue::JavaScriptCode { len: (v.len() - 5) as usize }) } else { None }
    } else if tag == 14 {
        if v.len() >= 5 { Some(BsonValue::Symbol { len: (v.len() - 5) as usize }) } else { None }
    } else if tag == 15 {
        if v.len() < 14 {
            None
        } else {
            let l = crate::reader::le32(v.subrange(4, 8));
            if l >= 1 && 8 + l + 5 <= v.len() {
                Some(BsonValue::JavaScriptCodeWithScope {
                    code_len: (l - 1) as usize,
                    scope_len: (v.len() - 8 - l) as usize,
                })
            } else {
                None
            }
        }
    } else if tag == 16 {
        if v.len() == 4 { Some(BsonValue::Int32) } else { None }
    } else if tag == 17 {
        if v.len() == 8 { Some(BsonValue::Timestamp) } else { None }
    } else if tag == 18 {
        if v.len() == 8 { Some(BsonValue::Int64) } else { None }
    } else if tag == 19 {
        if v.len() == 16 { Some(BsonValue::Decimal128) } else { None }
    } else if tag == 127 {
        if v.len() == 0 { Some(BsonValue::MaxKey) } else { None }
    } else if tag == 255 {
        if v.len() == 0 { Some(BsonValue::MinKey) } else { None }
    } else {
        None
    }
}

/// The bytes a decoded value occupies on the wire, by the accountant's
/// per-type rules. Strings count their length prefix, bytes and
/// terminator; containers count their whole span; regular expressions
/// count both components by the string rule, though the wire stores them
/// without length prefixes, and a db pointer counts an empty name plus an
/// object id: those two rules are kept as they stand for output
/// compatibility.
pub open spec fn value_size(v: BsonValue) -> int {
    match v {
        BsonValue::Double => 8,
        BsonValue::StringValue { len } => 4 + len + 1,
        BsonValue::Document { total } => total as int,
        BsonValue::Array { total } => total as int,
        BsonValue::Binary { len } => 4 + 1 + len,
        BsonValue::Undefined => 0,
        BsonValue::ObjectId => 12,
        BsonValue::Boolean => 1,
        BsonValue::DateTime => 8,
        BsonValue::Null => 0,
        BsonValue::Regex { pattern_len, options_len } => (4 + pattern_len + 1) + (4 + options_len + 1),
        BsonValue::DbPointer => (4 + 0 + 1) + 12int,
        BsonValue::JavaScriptCode { len } => 4 + len + 1,
        BsonValue::Symbol { len } => 4 + len + 1,
        BsonValue::JavaScriptCodeWithScope { code_len, scope_len } => (4 + code_len + 1) + scope_len,
        BsonValue::Int32 => 4,
        BsonValue::Timestamp => 8,
        BsonValue::Int64 => 8,
        BsonValue::Decimal128 => 16,
        BsonValue::MinKey => 0,
        BsonValue::MaxKey => 0,
    }
}

/// A decoded value never accounts more than its span plus eight bytes
/// (the two length prefixes that the regular-expression rule adds).
pub proof fn lemma_value_size_bound(tag: u8, v: Seq<u8>)
    requires
        decode_value(tag, v) is Some,
    ensures
        0 <= value_size(decode_value(tag, v).unwrap()) <= v.len() + 8,
{
    if tag == 11 {
        lemma_first_zero_bound(v);
    }
}

proof fn lemma_first_zero_bound(v: Seq<u8>)
    ensures
        first_zero(v) matches Some(p) ==> 0 <= p < v.len(),
    decreases v.len(),
{
    if v.len() > 0 && v[0] != 0 {
        lemma_first_zero_bound(v.drop_first());
    }
}

/// Whether the accountant's figure for this element equals the bytes the
/// element's value occupies on the wire. This holds of every type except
/// the regular-expression rule, the db-pointer rule, code-with-scope
/// (whose outer length prefix the rule does not count), and the
/// deprecated old binary subtype (whose inner length prefix is not part
/// of the payload).
pub open spec fn elem_size_exact(e: ElemS) -> bool {
    &&& decode_value(e.tag, e.value) is Some
    &&& e.value.len() <= usize::MAX
    &&& e.tag != 11 && e.tag != 12 && e.tag != 15
    &&& (e.tag == 5 ==> e.value.len() >= 5 && e.value[4] != 2)
}

/// For an exactly-accounted element the accountant's figure is the length
/// of the value span.
pub proof fn lemma_elem_size_exact(e: ElemS)
    requires
        elem_size_exact(e),
    ensures
        value_size(decode_value(e.tag, e.value).unwrap()) == e.value.len(),
{
}

/// Whether every element of the list decodes.
pub open spec fn all_decode(es: Seq<ElemS>) -> bool {
    forall|i: int| 0 <= i < es.len() ==> #[trigger] decode_value(es[i].tag, es[i].value) is Some
}

/// The accountant's figure for one whole element: the type tag byte, the
/// name with its null terminator, and the value's own size.
pub open spec fn field_size(e: ElemS) -> int {
    2 + e.name.len() + value_size(decode_value(e.tag, e.value).unwrap())
}

/// The accountant's total for an element list.
pub open spec fn size_sum(es: Seq<ElemS>) -> int
    decreases es.len(),
{
    if es.len() == 0 {
        0
    } else {
        field_size(es[0]) + size_sum(es.drop_first())
    }
}

/// Extending a prefix of the list by one element adds that element's
/// accounted size.
pub proof fn lemma_size_sum_take(es: Seq<ElemS>, i: int)
    requires
        0 <= i < es.len(),
    ensures
        size_sum(es.take(i + 1)) == size_sum(es.take(i)) + field_size(es[i]),
    decreases i,
{
    if i == 0 {
        assert(es.take(1).drop_first() =~= es.take(0));
    } else {
        assert(es.take(i + 1).drop_first() =~= es.drop_first().take(i));
        assert(es.take(i).drop_first() =~= es.drop_first().take(i - 1));
        lemma_size_sum_take(es.drop_first(), i - 1);
    }
}

/// The accountant's total stays within a small factor of the wire bytes.
pub proof fn lemma_size_sum_bound(es: Seq<ElemS>)
    requires
        all_decode(es),
    ensures
        0 <= size_sum(es) <= 5 * wire_sum(es),
    decreases es.len(),
{
    if es.len() > 0 {
        assert(decode_value(es[0].tag, es[0].value) is Some);
        lemma_value_size_bound(es[0].tag, es[0].value);
        assert(all_decode(es.drop_first())) by {
            assert(forall|i: int| 0 <= i < es.drop_first().len() ==> es.drop_first()[i] == es[i + 1]);
        }
        lemma_size_sum_bound(es.drop_first());
        crate::codec::lemma_wire_sum_nonneg(es.drop_first());
    }
}

/// Where every element is exactly accounted, the accountant's total over
/// the list equals the wire bytes of the list.
pub proof fn lemma_size_sum_exact(es: Seq<ElemS>)
    requires
        forall|i: int| 0 <= i < es.len() ==> #[trigger] elem_size_exact(es[i]),
    ensures
        size_sum(es) == wire_sum(es),
    decreases es.len(),
{
    if es.len() > 0 {
        assert(elem_size_exact(es[0]));
        lemma_elem_size_exact(es[0]);
        assert(forall|i: int| 0 <= i < es.drop_first().len() ==> #[trigger] elem_size_exact(
            es.drop_first()[i],
        )) by {
            assert(forall|i: int| 0 <= i < es.drop_first().len() ==> es.drop_first()[i] == es[i + 1]);
        }
        lemma_size_sum_exact(es.drop_first());
    }
}

/// Decodes a value span, as `decode_value` does.
pub fn decode(tag: u8, v: &Vec<u8>) -> (r: Option<BsonValue>)
    ensures
        r == decode_value(tag, v@),
{
    let n = v.len();
    if tag == 1 || tag == 9 || tag == 17 || tag == 18 {
        if n == 8 {
            Some(
                if tag == 1 {
                    BsonValue::Double
                } else if tag == 9 {
                    BsonValue::DateTime
                } else if tag == 17 {
                    BsonValue::Timestamp
                } else {
                    BsonValue::Int64
                },
            )
        } else {
            None
        }
    } else if tag == 2 || tag == 13 || tag == 14 {
        if n >= 5 {
            let len = n - 5;
            Some(
                if tag == 2 {
                    BsonValue::StringValue { len }
                } else if tag == 13 {
                    BsonValue::JavaScriptCode { len }
                } else {
                    BsonValue::Symbol { len }
                },
            )
        } else {
            None
        }
    } else if tag == 3 {
        if n >= 5 { Some(BsonValue::Document { total: n }) } else { None }
    } else if tag == 4 {
        if n >= 5 { Some(BsonValue::Array { total: n }) } else { None }
    } else if tag == 5 {
        if n < 5 {
            None
        } else if v[4] == 2 {
            if n >= 9 { Some(BsonValue::Binary { len: n - 9 }) } else { None }
        } else {
            Some(BsonValue::Binary { len: n - 5 })
        }
    } else if tag == 6 {
        if n == 0 { Some(BsonValue::Undefined) } else { None }
    } else if tag == 7 {
        if n == 12 { Some(BsonValue::ObjectId) } else { None }
    } else if tag == 8 {
        if n == 1 { Some(BsonValue::Boolean) } else { None }
    } else if tag == 10 {
        if n == 0 { Some(BsonValue::Null) } else { None }
    } else if tag == 11 {
        let mut j: usize = 0;
        while j < n && v[j] != 0
            invariant
                0 <= j <= n == v@.len(),
                forall|k: int| 0 <= k < j ==> v@[k] != 0,
            decreases n - j,
        {
            j = j + 1;
        }
        proof {
            lemma_first_zero(v@, j as int);
        }
        if j < n && n - j >= 2 {
            Some(BsonValue::Regex { pattern_len: j, options_len: n - j - 2 })
        } else {
            None
        }
    } else if tag == 12 {
        if n >= 17 { Some(BsonValue::DbPointer) } else { None }
    } else if tag == 15 {
        if n < 14 {
            None
        } else {
            let b0 = v[4];
            let b1 = v[5];
            let b2 = v[6];
            let b3 = v[7];
            let l: u32 = (b0 as u32) + 256 * (b1 as u32) + 65536 * (b2 as u32) + 16777216 * (b3 as u32);
            proof {
                let sub = v@.subrange(4, 8);
                assert(sub[0] == b0 && sub[1] == b1 && sub[2] == b2 && sub[3] == b3);
                assert(l as int == crate::reader::le32(sub));
            }
            if l >= 1 && (l as u64) + 13 <= (n as u64) {
                Some(BsonValue::JavaScriptCodeWithScope {
                    code_len: (l - 1) as usize,
                    scope_len: n - 8 - (l as usize),
                })
            } else {
                None
            }
        }
    } else if tag == 16 {
        if n == 4 { Some(BsonValue::Int32) } else { None }
    } else if tag == 19 {
        if n == 16 { Some(BsonValue::Decimal128) } else { None }
    } else if tag == 127 {
        if n == 0 { Some(BsonValue::MaxKey) } else { None }
    } else if tag == 255 {
        if n == 0 { Some(BsonValue::MinKey) } else { None }
    } else {
        None
    }
}

/// The accountant's total for one whole document: its 4-byte length
/// prefix, every field's tag, name and value, and the final null byte.
/// For a document whose top-level elements are all exactly accounted the
/// total equals the length of the document's own raw span.
pub fn count_document_bytes(doc: &Vec<u8>) -> (r: Result<usize, String>)
    requires
        doc@.len() <= crate::MAX_BSON_SIZE,
    ensures
        r is Ok <==> (crate::codec::parsed_elements(doc@) matches Some(es) && all_decode(es)),
        r matches Ok(n) ==> n == 5 + size_sum(crate::codec::parsed_elements(doc@).unwrap()),
        r matches Ok(n) ==> ((forall|i: int|
            0 <= i < crate::codec::parsed_elements(doc@).unwrap().len()
                ==> #[trigger] elem_size_exact(crate::codec::parsed_elements(doc@).unwrap()[i]))
            ==> n == doc@.len()),
{
    let elems = match crate::codec::elements_of(doc) {
        Ok(v) => v,
        Err(e) => {
            return Err(e);
        },
    };
    let ghost es = crate::codec::parsed_elements(doc@).unwrap();
    let mut total: usize = 5;
    let mut i: usize = 0;
    proof {
        assert(es.take(0) =~= Seq::<ElemS>::empty());
    }
    while i < elems.len()
        invariant
            doc@.len() <= crate::MAX_BSON_SIZE,
            i <= elems@.len() == es.len(),
            doc@.len() == 5 + wire_sum(es),
            crate::codec::parsed_elements(doc@) == Some(es),
            forall|j: int| #![trigger elems@[j]] 0 <= j < es.len() ==> elems@[j]@ == es[j],
            all_decode(es.take(i as int)),
            total == 5 + size_sum(es.take(i as int)),
        decreases elems@.len() - i,
    {
        let name_len = elems[i].name.len();
        let tag = elems[i].tag;
        let v = match decode(tag, &elems[i].value) {
            Some(v) => v,
            None => {
                proof {
                    assert(decode_value(es[i as int].tag, es[i as int].value) is None);
                }
                return Err("a value of the document cannot be decoded".to_owned());
            },
        };
        proof {
            lemma_value_size_bound(tag, es[i as int].value);
            crate::codec::lemma_wire_sum_elem(es, i as int);
            assert(all_decode(es.take(i as int + 1))) by {
                assert(forall|j: int| 0 <= j < i as int + 1 ==> es.take(i as int + 1)[j] == es[j]);
            }
            lemma_size_sum_bound(es.take(i as int + 1));
            assert(wire_sum(es.take(i as int + 1)) <= wire_sum(es)) by {
                crate::codec::lemma_wire_sum_split(es, i as int + 1);
                crate::codec::lemma_wire_sum_nonneg(es.skip(i as int + 1));
            }
            lemma_size_sum_take(es, i as int);
        }
        let vsize = count_bytes(&v);
        total = total + (1 + (name_len + 1) + vsize);
        i = i + 1;
    }
    proof {
        assert(es.take(i as int) =~= es);
        if forall|k: int| 0 <= k < es.len() ==> #[trigger] elem_size_exact(es[k]) {
            lemma_size_sum_exact(es);
        }
    }
    Ok(total)
}

/// The accountant's figure for one decoded value.
pub fn count_bytes(v: &BsonValue) -> (n: usize)
    requires
        value_size(*v) <= usize::MAX,
    ensures
        n as int == value_size(*v),
{
    match *v {
        BsonValue::Double => 8,
        BsonValue::StringValue { len } => 4 + len + 1,
        BsonValue::Document { total } => total,
        BsonValue::Array { total } => total,
        BsonValue::Binary { len } => 4 + 1 + len,
        BsonValue::Undefined => 0,
        BsonValue::ObjectId => 12,
        BsonValue::Boolean => 1,
        BsonValue::DateTime => 8,
        BsonValue::Null => 0,
        BsonValue::Regex { pattern_len, options_len } => 4 + pattern_len + 1 + 4 + options_len + 1,
        BsonValue::DbPointer => 4 + 0 + 1 + 12,
        BsonValue::JavaScriptCode { len } => 4 + len + 1,
        BsonValue::Symbol { len } => 4 + len + 1,
        BsonValue::JavaScriptCodeWithScope { code_len, scope_len } => 4 + code_len + 1 + scope_len,
        BsonValue::Int32 => 4,
        BsonValue::Timestamp => 8,
        BsonValue::Int64 => 8,
        BsonValue::Decimal128 => 16,
        BsonValue::MinKey => 0,
        BsonValue::MaxKey => 0,
    }
}

} // verus!
