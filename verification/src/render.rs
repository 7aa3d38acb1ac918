//! The structural debug renderer: walks a document span and emits an
//! indented trace, one block per container and two lines per field, with
//! every size figure taken from the size accountant. A document is
//! rendered all-or-nothing: a span that fails to decode yields no text.

use vstd::prelude::*;

use crate::codec::elements_of;
use crate::codec::parsed_elements;
use crate::codec::wire_sum;
use crate::codec::ElemS;
use crate::numfmt::dec_bytes;
use crate::numfmt::dec_bytes_pad4;
use crate::numfmt::push_dec;
use crate::numfmt::push_dec_pad4;
use crate::numfmt::push_tabs;
use crate::numfmt::tabs;
use crate::sizes::decode;
use crate::sizes::decode_value;
use crate::sizes::value_size;
use crate::sizes::BsonValue;

verus! {

/// The bytes of the line `--- new object ---` with its newline.
pub open spec fn obj_line() -> Seq<u8> {
    seq![
        45u8, 45, 45, 32, 110, 101, 119, 32, 111, 98, 106, 101, 99, 116, 32, 45, 45, 45, 10,
    ]
}

/// The bytes of the label `size : `.
pub open spec fn size_label() -> Seq<u8> {
    seq![115u8, 105, 122, 101, 32, 58, 32]
}

/// The bytes of the label `type: `.
pub open spec fn type_label() -> Seq<u8> {
    seq![116u8, 121, 112, 101, 58, 32]
}

/// The bytes of the separator ` size: `.
pub open spec fn size_sep() -> Seq<u8> {
    seq![32u8, 115, 105, 122, 101, 58, 32]
}

/// The header of one container block: the `new object` line at the block's
/// indent, then the container's byte size one level deeper.
pub open spec fn obj_header(indent: nat, total: nat) -> Seq<u8> {
    tabs(indent) + obj_line() + tabs(indent + 1) + size_label() + dec_bytes(total) + seq![10u8]
}

/// The two lines of one field: its name two levels below the block's
/// indent, then its type code and total encoded size one level deeper.
pub open spec fn field_head(e: ElemS, v: BsonValue, indent: nat) -> Seq<u8> {
    tabs(indent + 2) + e.name + seq![10u8] + tabs(indent + 3) + type_label() + dec_bytes_pad4(
        e.tag as nat,
    ) + size_sep() + dec_bytes((2 + e.name.len() + value_size(v)) as nat) + seq![10u8]
}

/// The debug trace of one document span, or `None` where the span does
/// not decode. `fuel` bounds the nesting depth the recursion may follow;
/// any fuel at least the span's actual nesting depth yields the same
/// text.
pub open spec fn doc_text(bytes: Seq<u8>, indent: nat, fuel: nat) -> Option<Seq<u8>>
    decreases fuel, 1int, 0int,
{
    match parsed_elements(bytes) {
        Option::None => None,
        Option::Some(es) => match elems_text(es, indent, fuel) {
            Option::None => None,
            Option::Some(body) => Some(obj_header(indent, bytes.len()) + body),
        },
    }
}

/// The concatenated field texts of an element list.
pub open spec fn elems_text(es: Seq<ElemS>, indent: nat, fuel: nat) -> Option<Seq<u8>>
    decreases fuel, 0int, es.len() + 1,
{
    if es.len() == 0 {
        Some(Seq::empty())
    } else {
        match field_text_first(es, indent, fuel) {
            Option::None => None,
            Option::Some(t) => match elems_text(es.drop_first(), indent, fuel) {
                Option::None => None,
                Option::Some(rest) => Some(t + rest),
            },
        }
    }
}

/// The text of the first element of a non-empty list: its two head lines
/// and, for a container, the nested block below them.
pub open spec fn field_text_first(es: Seq<ElemS>, indent: nat, fuel: nat) -> Option<Seq<u8>>
    decreases fuel, 0int, 0int,
{
    let e = es[0];
    match decode_value(e.tag, e.value) {
        Option::None => None,
        Option::Some(v) => {
            let head = field_head(e, v, indent);
            match v {
                BsonValue::Document { .. } | BsonValue::Array { .. } => {
                    if fuel == 0 {
                        None
                    } else {
                        match doc_text(e.value, indent + 3, (fuel - 1) as nat) {
                            Option::None => None,
                            Option::Some(sub) => Some(head + sub),
                        }
                    }
                },
                _ => Some(head),
            }
        },
    }
}

/// The text of one element, indifferent to the rest of its list.
pub open spec fn field_text(e: ElemS, indent: nat, fuel: nat) -> Option<Seq<u8>> {
    field_text_first(seq![e], indent, fuel)
}

/// `field_text_first` reads only the first element.
pub proof fn lemma_field_text_first(es: Seq<ElemS>, indent: nat, fuel: nat)
    requires
        es.len() > 0,
    ensures
        field_text_first(es, indent, fuel) == field_text(es[0], indent, fuel),
{
    assert(seq![es[0]][0] == es[0]);
}

/// More fuel never changes a text that some fuel already yields.
pub proof fn lemma_doc_text_mono(bytes: Seq<u8>, indent: nat, f1: nat, f2: nat)
    requires
        f1 <= f2,
        doc_text(bytes, indent, f1) is Some,
    ensures
        doc_text(bytes, indent, f2) == doc_text(bytes, indent, f1),
    decreases f1, 1int, 0int,
{
    let es = parsed_elements(bytes).unwrap();
    lemma_elems_text_mono(es, indent, f1, f2);
}

/// More fuel never changes an element list's text.
pub proof fn lemma_elems_text_mono(es: Seq<ElemS>, indent: nat, f1: nat, f2: nat)
    requires
        f1 <= f2,
        elems_text(es, indent, f1) is Some,
    ensures
        elems_text(es, indent, f2) == elems_text(es, indent, f1),
    decreases f1, 0int, es.len() + 1,
{
    if es.len() > 0 {
        lemma_field_text_first_mono(es, indent, f1, f2);
        lemma_elems_text_mono(es.drop_first(), indent, f1, f2);
    }
}

/// More fuel never changes one element's text.
pub proof fn lemma_field_text_first_mono(es: Seq<ElemS>, indent: nat, f1: nat, f2: nat)
    requires
        f1 <= f2,
        field_text_first(es, indent, f1) is Some,
    ensures
        field_text_first(es, indent, f2) == field_text_first(es, indent, f1),
    decreases f1, 0int, 0int,
{
    let e = es[0];
    match decode_value(e.tag, e.value) {
        Option::None => {},
        Option::Some(v) => match v {
            BsonValue::Document { .. } | BsonValue::Array { .. } => {
                lemma_doc_text_mono(e.value, indent + 3, (f1 - 1) as nat, (f2 - 1) as nat);
            },
            _ => {},
        },
    }
}

/// Appending one element to a rendered prefix appends its text.
pub proof fn lemma_elems_text_snoc(es: Seq<ElemS>, i: int, indent: nat, fuel: nat)
    requires
        0 <= i < es.len(),
        elems_text(es.take(i), indent, fuel) is Some,
        field_text(es[i], indent, fuel) is Some,
    ensures
        elems_text(es.take(i + 1), indent, fuel) == Some(
            elems_text(es.take(i), indent, fuel).unwrap() + field_text(es[i], indent, fuel).unwrap(),
        ),
    decreases i,
{
    if i == 0 {
        assert(es.take(1)[0] == es[0]);
        lemma_field_text_first(es.take(1), indent, fuel);
        assert(es.take(1).drop_first() =~= es.take(0));
        assert(elems_text(es.take(0), indent, fuel).unwrap() + field_text(es[0], indent, fuel).unwrap()
            =~= field_text(es[0], indent, fuel).unwrap());
    } else {
        assert(es.take(i)[0] == es[0]);
        assert(es.take(i + 1)[0] == es[0]);
        lemma_field_text_first(es.take(i), indent, fuel);
        lemma_field_text_first(es.take(i + 1), indent, fuel);
        lemma_field_text_first(es, indent, fuel);
        assert(es.take(i + 1).drop_first() =~= es.drop_first().take(i));
        assert(es.take(i).drop_first() =~= es.drop_first().take(i - 1));
        assert(es.drop_first()[i - 1] == es[i]);
        lemma_elems_text_snoc(es.drop_first(), i - 1, indent, fuel);
        assert(field_text(es[0], indent, fuel) is Some);
    }
}

/// One failing element fails its whole list, whatever the fuel.
pub proof fn lemma_elems_text_fail(es: Seq<ElemS>, i: int, indent: nat, fuel: nat)
    requires
        0 <= i < es.len(),
        field_text(es[i], indent, fuel) is None,
    ensures
        elems_text(es, indent, fuel) is None,
    decreases i,
{
    lemma_field_text_first(es, indent, fuel);
    if i > 0 {
        if field_text_first(es, indent, fuel) is Some {
            assert(es.drop_first()[i - 1] == es[i]);
            lemma_elems_text_fail(es.drop_first(), i - 1, indent, fuel);
        }
    }
}

/// Whether some fuel suffices to render this document span.
pub open spec fn doc_renders(bytes: Seq<u8>) -> bool {
    exists|f: nat| doc_text(bytes, 0, f) is Some
}

/// The debug trace of a renderable document span. By fuel monotonicity
/// this does not depend on which sufficient fuel is picked.
pub open spec fn debug_text_of(bytes: Seq<u8>) -> Seq<u8> {
    doc_text(bytes, 0, choose|f: nat| doc_text(bytes, 0, f) is Some).unwrap()
}

/// Every sufficient fuel yields exactly `debug_text_of`.
pub proof fn lemma_debug_text_of(bytes: Seq<u8>, f: nat)
    requires
        doc_text(bytes, 0, f) is Some,
    ensures
        doc_text(bytes, 0, f) == Some(debug_text_of(bytes)),
{
    let fc = choose|g: nat| doc_text(bytes, 0, g) is Some;
    if f <= fc {
        lemma_doc_text_mono(bytes, 0, f, fc);
    } else {
        lemma_doc_text_mono(bytes, 0, fc, f);
    }
}

/// Appends one container-block header to `out`.
fn push_obj_header(out: &mut Vec<u8>, indent: usize, total: u64)
    requires
        indent + 1 <= usize::MAX,
    ensures
        final(out)@ == old(out)@ + obj_header(indent as nat, total as nat),
{
    push_tabs(out, indent);
    let mut line: Vec<u8> = vec![
        45u8, 45, 45, 32, 110, 101, 119, 32, 111, 98, 106, 101, 99, 116, 32, 45, 45, 45, 10,
    ];
    out.append(&mut line);
    push_tabs(out, indent + 1);
    let mut label: Vec<u8> = vec![115u8, 105, 122, 101, 32, 58, 32];
    out.append(&mut label);
    push_dec(out, total);
    out.push(10);
    assert(out@ =~= old(out)@ + obj_header(indent as nat, total as nat));
}

/// A field whose value span does not decode yields no text at any fuel.
pub proof fn lemma_field_text_fail_decode(e: ElemS, indent: nat)
    requires
        decode_value(e.tag, e.value) is None,
    ensures
        forall|f: nat| #[trigger] field_text(e, indent, f) is None,
{
    assert forall|f: nat| field_text(e, indent, f) is None by {
        assert(seq![e][0] == e);
    }
}

/// A container field whose nested span yields no text at any fuel itself
/// yields no text at any fuel.
pub proof fn lemma_field_text_fail_sub(e: ElemS, indent: nat)
    requires
        decode_value(e.tag, e.value) is Some,
        decode_value(e.tag, e.value).unwrap() is Document || decode_value(e.tag, e.value).unwrap()
            is Array,
        forall|f: nat| #[trigger] doc_text(e.value, indent + 3, f) is None,
    ensures
        forall|f: nat| #[trigger] field_text(e, indent, f) is None,
{
    assert forall|f: nat| field_text(e, indent, f) is None by {
        assert(seq![e][0] == e);
        if f > 0 {
            assert(doc_text(e.value, indent + 3, (f - 1) as nat) is None);
        }
    }
}

/// A document one of whose elements yields no text at any fuel yields no
/// text at any fuel.
pub proof fn lemma_doc_text_fail(bytes: Seq<u8>, es: Seq<ElemS>, i: int, indent: nat)
    requires
        parsed_elements(bytes) == Some(es),
        0 <= i < es.len(),
        forall|f: nat| #[trigger] field_text(es[i], indent, f) is None,
    ensures
        forall|f: nat| #[trigger] doc_text(bytes, indent, f) is None,
{
    assert forall|f: nat| doc_text(bytes, indent, f) is None by {
        lemma_elems_text_fail(es, i, indent, f);
    }
}

/// Extending a rendered prefix by one rendered element, each at its own
/// fuel, renders the longer prefix at the larger of the two fuels.
pub proof fn lemma_elems_text_extend(es: Seq<ElemS>, i: int, indent: nat, f1: nat, f2: nat)
    requires
        0 <= i < es.len(),
        elems_text(es.take(i), indent, f1) is Some,
        field_text(es[i], indent, f2) is Some,
    ensures
        ({
            let f: nat = if f1 >= f2 { f1 } else { f2 };
            elems_text(es.take(i + 1), indent, f) == Some(
                elems_text(es.take(i), indent, f1).unwrap() + field_text(es[i], indent, f2).unwrap(),
            )
        }),
{
    let f: nat = if f1 >= f2 { f1 } else { f2 };
    lemma_elems_text_mono(es.take(i), indent, f1, f);
    assert(seq![es[i]][0] == es[i]);
    lemma_field_text_first_mono(seq![es[i]], indent, f2, f);
    lemma_elems_text_snoc(es, i, indent, f);
}

/// Appends one field's two head lines to `out`.
fn push_field_head(
    out: &mut Vec<u8>,
    name: &Vec<u8>,
    tag: u8,
    fsize: u64,
    indent: usize,
    Ghost(e): Ghost<ElemS>,
    Ghost(v): Ghost<BsonValue>,
)
    requires
        indent + 3 <= usize::MAX,
        e.name == name@,
        e.tag == tag,
        fsize as int == 2 + e.name.len() + value_size(v),
    ensures
        final(out)@ == old(out)@ + field_head(e, v, indent as nat),
{
    push_tabs(out, indent + 2);
    out.extend_from_slice(name.as_slice());
    out.push(10);
    push_tabs(out, indent + 3);
    let mut label: Vec<u8> = vec![116u8, 121, 112, 101, 58, 32];
    out.append(&mut label);
    push_dec_pad4(out, tag as u64);
    let mut sep: Vec<u8> = vec![32u8, 115, 105, 122, 101, 58, 32];
    out.append(&mut sep);
    push_dec(out, fsize);
    out.push(10);
    assert(out@ =~= old(out)@ + field_head(e, v, indent as nat));
}

/// Renders one document span as a debug trace, or reports why it does not
/// decode. The trace is produced whole: a span that fails anywhere yields
/// text for none of its elements.
pub(crate) fn render_document(doc: &Vec<u8>, indent: usize) -> (r: Result<Vec<u8>, String>)
    requires
        indent + 3 * doc@.len() <= usize::MAX,
        doc@.len() >= 5,
    ensures
        r matches Ok(t) ==> exists|f: nat| #[trigger] doc_text(doc@, indent as nat, f) == Some(t@),
        r is Err ==> forall|f: nat| #[trigger] doc_text(doc@, indent as nat, f) is None,
    decreases doc@.len(),
{
    let elems = match elements_of(doc) {
        Ok(v) => v,
        Err(e) => {
            assert(forall|f: nat| #[trigger] doc_text(doc@, indent as nat, f) is None);
            return Err(e);
        },
    };
    let ghost es = parsed_elements(doc@).unwrap();
    let mut out: Vec<u8> = Vec::new();
    push_obj_header(&mut out, indent, doc.len() as u64);
    let ghost hdr = obj_header(indent as nat, doc@.len());
    let ghost mut body: Seq<u8> = Seq::empty();
    proof {
        assert(out@ =~= hdr + body);
        assert(es.take(0) =~= Seq::<ElemS>::empty());
        assert(elems_text(es.take(0), indent as nat, 0) == Some(body));
    }
    let mut i: usize = 0;
    while i < elems.len()
        invariant
            indent + 3 * doc@.len() <= usize::MAX,
            doc@.len() >= 5,
            i <= elems@.len() == es.len(),
            doc@.len() == 5 + wire_sum(es),
            parsed_elements(doc@) == Some(es),
            forall|j: int| #![trigger elems@[j]] 0 <= j < es.len() ==> elems@[j]@ == es[j],
            hdr == obj_header(indent as nat, doc@.len()),
            out@ == hdr + body,
            exists|f: nat| #[trigger] elems_text(es.take(i as int), indent as nat, f) == Some(body),
        decreases elems@.len() - i,
    {
        proof {
            crate::codec::lemma_wire_sum_elem(es, i as int);
            assert(doc.len() == doc@.len());
        }
        let name_len = elems[i].name.len();
        let tag = elems[i].tag;
        let v = match decode(tag, &elems[i].value) {
            Some(v) => v,
            None => {
                proof {
                    lemma_field_text_fail_decode(es[i as int], indent as nat);
                    lemma_doc_text_fail(doc@, es, i as int, indent as nat);
                }
                return Err("a value of the document cannot be decoded".to_owned());
            },
        };
        proof {
            crate::sizes::lemma_value_size_bound(tag, es[i as int].value);
        }
        let vsize = crate::sizes::count_bytes(&v);
        let fsize = 1 + (name_len + 1) + vsize;
        push_field_head(&mut out, &elems[i].name, tag, fsize as u64, indent, Ghost(es[i as int]), Ghost(v));
        let ghost fhead = field_head(es[i as int], v, indent as nat);
        let is_container = match v {
            BsonValue::Document { .. } | BsonValue::Array { .. } => true,
            _ => false,
        };
        let ghost body0 = body;
        let ghost fp = choose|f: nat|
            #[trigger] elems_text(es.take(i as int), indent as nat, f) == Some(body0);
        let ghost mut ffield: nat = 0;
        let ghost mut ftext = fhead;
        if is_container {
            proof {
                assert(es[i as int].value.len() <= doc@.len() - 7);
            }
            let mut sub = match render_document(&elems[i].value, indent + 3) {
                Ok(s) => s,
                Err(e) => {
                    proof {
                        lemma_field_text_fail_sub(es[i as int], indent as nat);
                        lemma_doc_text_fail(doc@, es, i as int, indent as nat);
                    }
                    return Err(e);
                },
            };
            let ghost subtext = sub@;
            let ghost fsub = choose|f: nat|
                #[trigger] doc_text(es[i as int].value, indent as nat + 3, f) == Some(subtext);
            proof {
                ffield = fsub + 1;
                ftext = fhead + subtext;
                assert(seq![es[i as int]][0] == es[i as int]);
                assert(field_text(es[i as int], indent as nat, ffield) == Some(ftext));
            }
            out.append(&mut sub);
        } else {
            proof {
                assert(seq![es[i as int]][0] == es[i as int]);
                assert(field_text(es[i as int], indent as nat, ffield) == Some(ftext));
            }
        }
        proof {
            lemma_elems_text_extend(es, i as int, indent as nat, fp, ffield);
            body = body0 + ftext;
            assert(out@ =~= hdr + body);
            let fmax: nat = if fp >= ffield { fp } else { ffield };
            assert(elems_text(es.take(i as int + 1), indent as nat, fmax) == Some(body));
        }
        i = i + 1;
    }
    proof {
        assert(es.take(i as int) =~= es);
        let f = choose|f: nat| #[trigger] elems_text(es.take(i as int), indent as nat, f) == Some(
            body,
        );
        assert(elems_text(es, indent as nat, f) == Some(body));
        assert(doc_text(doc@, indent as nat, f) == Some(hdr + body));
        assert(hdr + body =~= out@);
        assert(doc_text(doc@, indent as nat, f) == Some(out@));
    }
    Ok(out)
}

} // verus!
