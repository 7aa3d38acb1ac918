//! The boundary to the BSON codec and the JSON serializer. Everything the
//! library learns about a document's interior comes through the items here:
//! the element list of a document span, and the two extended-JSON
//! renderings of a document.

use vstd::prelude::*;

use serde::ser::Serialize;

use crate::reader::copy_range;

verus! {

/// One element of a document as the codec reports it: the field name
/// bytes, the element-type tag, and the raw byte span of the value.
pub struct ElemS {
    pub name: Seq<u8>,
    pub tag: u8,
    pub value: Seq<u8>,
}

/// The element list that the codec yields for a document span, or `None`
/// where the span does not validate.
pub uninterp spec fn parsed_elements(bytes: Seq<u8>) -> Option<Seq<ElemS>>;

/// The canonical extended-JSON text of a document span, or `None` where
/// the span does not decode.
pub uninterp spec fn extjson_of(bytes: Seq<u8>) -> Option<Seq<u8>>;

/// The pretty-printed extended-JSON text of a document span, with one tab
/// as the indentation unit, or `None` where the span does not decode.
pub uninterp spec fn pretty_extjson_of(bytes: Seq<u8>) -> Option<Seq<u8>>;

/// One element as handed across the codec boundary: the value itself
/// stays in the document span, located by the accumulated offsets.
pub(crate) struct RawElemMeta {
    pub name: Vec<u8>,
    pub tag: u8,
    pub size: usize,
}

/// One element with its value bytes sliced out of the document span.
pub struct RawElem {
    pub name: Vec<u8>,
    pub tag: u8,
    pub value: Vec<u8>,
}

impl View for RawElem {
    type V = ElemS;

    open spec fn view(&self) -> ElemS {
        ElemS { name: self.name@, tag: self.tag, value: self.value@ }
    }
}

/// The bytes every element of the list occupies on the wire: a type tag,
/// the name with its null terminator, and the value span.
pub open spec fn wire_sum(es: Seq<ElemS>) -> int
    decreases es.len(),
{
    if es.len() == 0 {
        0
    } else {
        2 + es[0].name.len() + es[0].value.len() + wire_sum(es.drop_first())
    }
}

pub proof fn lemma_wire_sum_nonneg(es: Seq<ElemS>)
    ensures
        wire_sum(es) >= 0,
    decreases es.len(),
{
    if es.len() > 0 {
        lemma_wire_sum_nonneg(es.drop_first());
    }
}

/// Extending a prefix of the list by one element adds that element's wire
/// bytes to the prefix's sum.
pub proof fn lemma_wire_sum_take(es: Seq<ElemS>, i: int)
    requires
        0 <= i < es.len(),
    ensures
        wire_sum(es.take(i + 1)) == wire_sum(es.take(i)) + 2 + es[i].name.len() + es[i].value.len(),
    decreases i,
{
    if i == 0 {
        assert(es.take(1).drop_first() =~= es.take(0));
    } else {
        assert(es.take(i + 1).drop_first() =~= es.drop_first().take(i));
        assert(es.take(i).drop_first() =~= es.drop_first().take(i - 1));
        lemma_wire_sum_take(es.drop_first(), i - 1);
    }
}

/// The whole list's wire bytes are the sum over any prefix and the rest.
pub proof fn lemma_wire_sum_split(es: Seq<ElemS>, i: int)
    requires
        0 <= i <= es.len(),
    ensures
        wire_sum(es) == wire_sum(es.take(i)) + wire_sum(es.skip(i)),
    decreases i,
{
    if i == 0 {
        assert(es.take(0) =~= Seq::<ElemS>::empty());
        assert(es.skip(0) =~= es);
    } else {
        lemma_wire_sum_split(es, i - 1);
        lemma_wire_sum_take(es, i - 1);
        assert(es.skip(i - 1).drop_first() =~= es.skip(i));
        assert(es.skip(i - 1)[0] == es[i - 1]);
    }
}

/// Each element's wire bytes are no more than the whole sum.
pub proof fn lemma_wire_sum_elem(es: Seq<ElemS>, i: int)
    requires
        0 <= i < es.len(),
    ensures
        2 + es[i].name.len() + es[i].value.len() <= wire_sum(es),
{
    lemma_wire_sum_split(es, i);
    lemma_wire_sum_take(es, i);
    lemma_wire_sum_nonneg(es.take(i));
    lemma_wire_sum_nonneg(es.skip(i));
    assert(wire_sum(es.take(i + 1)) <= wire_sum(es)) by {
        lemma_wire_sum_split(es, i + 1);
        lemma_wire_sum_nonneg(es.skip(i + 1));
    }
}

/// Where the value span of element `i` starts inside its document: past
/// the 4-byte length prefix, the wire bytes of the elements before it,
/// its own tag byte, and its name with the null terminator.
pub open spec fn elem_value_start(es: Seq<ElemS>, i: int) -> int {
    4 + wire_sum(es.take(i)) + 2 + es[i].name.len()
}

/// Relies on `bson::RawDocument::from_bytes` and `RawIter`: `from_bytes`
/// accepts a span iff it is at least five bytes, its length prefix equals
/// the span length, and it ends in a null byte; the iterator then walks
/// the span from offset 4 to the final null byte, yielding per element
/// its name, its tag byte, and its size, the length of its value span,
/// after the element is validated by `RawElement::value`. Each element
/// advances the cursor by exactly `1 + name.len() + 1 + size` bytes and
/// its value spans the last `size` of them, so a fully iterated document
/// satisfies the wire-sum equation and the location fact below.
#[verifier::external_body]
pub(crate) fn parse_elements(bytes: &[u8]) -> (r: Result<Vec<RawElemMeta>, String>)
    ensures
        r is Ok <==> parsed_elements(bytes@) is Some,
        r matches Ok(v) ==> {
            let es = parsed_elements(bytes@).unwrap();
            &&& v@.len() == es.len()
            &&& (forall|i: int| #![trigger es[i]] #![trigger v@[i]] 0 <= i < es.len() ==> {
                &&& v@[i].name@ == es[i].name
                &&& v@[i].tag == es[i].tag
                &&& v@[i].size == es[i].value.len()
                &&& es[i].value == bytes@.subrange(
                    elem_value_start(es, i),
                    elem_value_start(es, i) + es[i].value.len(),
                )
            })
            &&& bytes@.len() == 5 + wire_sum(es)
        },
{
    let doc = bson::RawDocument::from_bytes(bytes).map_err(|e| e.to_string())?;
    let mut out = Vec::new();
    for item in doc.iter_elements() {
        let elem = item.map_err(|e| e.to_string())?;
        elem.value().map_err(|e| e.to_string())?;
        let name = elem.key().as_str().as_bytes().to_vec();
        out.push(RawElemMeta { name, tag: elem.element_type() as u8, size: elem.size() });
    }
    Ok(out)
}

/// Splits a document span into its elements, each with its name, its tag,
/// and its value bytes copied out of the span.
pub(crate) fn elements_of(doc: &Vec<u8>) -> (r: Result<Vec<RawElem>, String>)
    ensures
        r is Ok <==> parsed_elements(doc@) is Some,
        r matches Ok(v) ==> {
            let es = parsed_elements(doc@).unwrap();
            &&& v@.len() == es.len()
            &&& (forall|i: int| #![trigger v@[i]] 0 <= i < es.len() ==> v@[i]@ == es[i])
            &&& doc@.len() == 5 + wire_sum(es)
        },
{
    let metas = match parse_elements(doc.as_slice()) {
        Ok(m) => m,
        Err(e) => {
            return Err(e);
        },
    };
    let ghost es = parsed_elements(doc@).unwrap();
    let mut out: Vec<RawElem> = Vec::new();
    let mut pos: usize = 4;
    let mut i: usize = 0;
    proof {
        assert(es.take(0) =~= Seq::<ElemS>::empty());
    }
    while i < metas.len()
        invariant
            i <= metas@.len() == es.len(),
            doc@.len() == 5 + wire_sum(es),
            forall|j: int| #![trigger es[j]] #![trigger metas@[j]] 0 <= j < es.len() ==> {
                &&& metas@[j].name@ == es[j].name
                &&& metas@[j].tag == es[j].tag
                &&& metas@[j].size == es[j].value.len()
                &&& es[j].value == doc@.subrange(
                    elem_value_start(es, j),
                    elem_value_start(es, j) + es[j].value.len(),
                )
            },
            pos == 4 + wire_sum(es.take(i as int)),
            out@.len() == i,
            forall|j: int| #![trigger out@[j]] 0 <= j < i ==> out@[j]@ == es[j],
        decreases metas@.len() - i,
    {
        let name_len = metas[i].name.len();
        let size = metas[i].size;
        proof {
            assert(name_len == es[i as int].name.len());
            assert(size == es[i as int].value.len());
            lemma_wire_sum_nonneg(es.take(i as int));
            lemma_wire_sum_take(es, i as int);
            assert(wire_sum(es.take(i as int + 1)) <= wire_sum(es)) by {
                lemma_wire_sum_split(es, i as int + 1);
                lemma_wire_sum_nonneg(es.skip(i as int + 1));
            }
            assert(pos + 2 + name_len + size == 4 + wire_sum(es.take(i as int + 1)));
            assert(doc.len() == doc@.len());
            assert(pos + 2 + name_len + size <= doc@.len() - 1);
        }
        let vstart = pos + 2 + name_len;
        let value = copy_range(doc, vstart, vstart + size);
        proof {
            assert(value@ == es[i as int].value);
        }
        let name = copy_range(&metas[i].name, 0, name_len);
        proof {
            assert(name@ =~= es[i as int].name);
        }
        out.push(RawElem { name, tag: metas[i].tag, value });
        pos = vstart + size;
        proof {
            assert(out@[i as int]@ == es[i as int]);
        }
        i = i + 1;
    }
    proof {
        assert(es.take(es.len() as int) =~= es);
    }
    Ok(out)
}

/// Relies on `bson::RawDocument::from_bytes`, `bson::Document::try_from`,
/// `Bson::into_canonical_extjson` and serde_json's compact rendering of a
/// `Value`: the text depends on the document bytes alone, and compact
/// JSON never holds a raw newline byte, since control characters inside
/// strings are escaped.
#[verifier::external_body]
pub(crate) fn doc_to_extjson(bytes: &[u8]) -> (r: Result<Vec<u8>, String>)
    ensures
        r is Ok <==> extjson_of(bytes@) is Some,
        r matches Ok(v) ==> v@ == extjson_of(bytes@).unwrap(),
        r matches Ok(v) ==> forall|i: int| 0 <= i < v@.len() ==> #[trigger] v@[i] != 10u8,
{
    let doc = bson::RawDocument::from_bytes(bytes).map_err(|e| e.to_string())?;
    let owned = bson::Document::try_from(doc).map_err(|e| e.to_string())?;
    Ok(bson::Bson::Document(owned).into_canonical_extjson().to_string().into_bytes())
}

/// Relies on the same conversion as `doc_to_extjson`, rendered through
/// serde_json's `PrettyFormatter` with one tab as the indentation unit:
/// the text depends on the document bytes alone.
#[verifier::external_body]
pub(crate) fn doc_to_pretty_extjson(bytes: &[u8]) -> (r: Result<Vec<u8>, String>)
    ensures
        r is Ok <==> pretty_extjson_of(bytes@) is Some,
        r matches Ok(v) ==> v@ == pretty_extjson_of(bytes@).unwrap(),
{
    let doc = bson::RawDocument::from_bytes(bytes).map_err(|e| e.to_string())?;
    let owned = bson::Document::try_from(doc).map_err(|e| e.to_string())?;
    let value = bson::Bson::Document(owned).into_canonical_extjson();
    let mut buf = Vec::new();
    let formatter = serde_json::ser::PrettyFormatter::with_indent(b"\t");
    let mut ser = serde_json::Serializer::with_formatter(&mut buf, formatter);
    value.serialize(&mut ser).map_err(|e| e.to_string())?;
    Ok(buf)
}

} // verus!
