//! The wire shapes of the protocol and the pure conversions between them and
//! the model types.
//!
//! A wire key is a flat path of elements with optional parts; a wire value
//! carries one of several optional payload fields together with per-value
//! indexing and meaning flags. The transport boundary converts these shapes
//! one-for-one into the request and response structures of the store's
//! protocol; everything that decides anything stands here and is verified.

use vstd::prelude::*;

use crate::ds::entity::assoc_map;
use crate::ds::entity::assoc_unique;
use crate::ds::entity::lemma_assoc_map_push;
use crate::ds::entity::Entity;
use crate::ds::entity::EntityView;
use crate::ds::entity::Key;
use crate::ds::entity::KeyVariantView;
use crate::ds::entity::PathElemView;
use crate::ds::entity::PropView;
use crate::ds::entity::PropertyValue;
use crate::ds::entity::Value;
use crate::ds::entity::ValueView;

verus! {

/// Why a wire shape could not be decoded into the model.
#[derive(Debug, Clone, Copy, PartialEq, Eq, Structural)]
pub enum WireDecodeError {
    /// A wire key held no path elements.
    EmptyKeyPath,
    /// A path element of a wire key held no kind.
    KindlessPathElement,
    /// A wire value carried an entity, geo-point or timestamp payload, which
    /// the model does not support; decoding fails loudly rather than
    /// dropping the data.
    UnsupportedValueType,
    /// A wire entity held no key.
    MissingKey,
}

/// The mathematical shape of a [`WirePathElement`].
pub struct WirePathElemView {
    pub kind: Option<Seq<char>>,
    pub id: Option<i64>,
    pub name: Option<Seq<char>>,
}

/// One element of a wire key path.
#[derive(Debug, Clone, PartialEq, Eq)]
pub struct WirePathElement {
    pub kind: Option<String>,
    pub id: Option<i64>,
    pub name: Option<String>,
}

impl View for WirePathElement {
    type V = WirePathElemView;

    open spec fn view(&self) -> WirePathElemView {
        WirePathElemView {
            kind: match self.kind {
                Some(ref s) => Some(s@),
                None => None,
            },
            id: self.id,
            name: match self.name {
                Some(ref s) => Some(s@),
                None => None,
            },
        }
    }
}

/// A key in wire form: a flat path of elements, root first.
#[derive(Debug, Clone, PartialEq, Eq)]
pub struct WireKey {
    pub path: Vec<WirePathElement>,
}

/// The views of a sequence of wire path elements.
pub open spec fn wire_elems_view(s: Seq<WirePathElement>) -> Seq<WirePathElemView> {
    s.map_values(|e: WirePathElement| e@)
}

impl View for WireKey {
    type V = Seq<WirePathElemView>;

    open spec fn view(&self) -> Seq<WirePathElemView> {
        wire_elems_view(self.path@)
    }
}

/// The wire form of one key path element.
pub open spec fn wire_elem_of(e: PathElemView) -> WirePathElemView {
    match e.variant {
        KeyVariantView::Id(i) => WirePathElemView { kind: Some(e.kind), id: Some(i), name: None },
        KeyVariantView::Name(s) => WirePathElemView {
            kind: Some(e.kind),
            id: None,
            name: Some(s),
        },
        KeyVariantView::Incomplete => WirePathElemView {
            kind: Some(e.kind),
            id: None,
            name: None,
        },
    }
}

/// The wire form of a key path.
pub open spec fn wire_path_of(p: Seq<PathElemView>) -> Seq<WirePathElemView> {
    p.map_values(|e: PathElemView| wire_elem_of(e))
}

/// The key path element a wire path element denotes; an id outweighs a name
/// when the element carries both.
pub open spec fn elem_of_wire(w: WirePathElemView) -> Option<PathElemView> {
    match w.kind {
        None => None,
        Some(kind) => Some(
            PathElemView {
                kind,
                variant: if w.id is Some {
                    KeyVariantView::Id(w.id->Some_0)
                } else if w.name is Some {
                    KeyVariantView::Name(w.name->Some_0)
                } else {
                    KeyVariantView::Incomplete
                },
            },
        ),
    }
}

/// The key path a wire key denotes: defined exactly when the path is
/// non-empty and every element has a kind.
pub open spec fn key_of_wire(p: Seq<WirePathElemView>) -> Option<Seq<PathElemView>> {
    if p.len() == 0 || (exists|i: int| 0 <= i < p.len() && (#[trigger] p[i]).kind is None) {
        None
    } else {
        Some(p.map_values(|w: WirePathElemView| elem_of_wire(w)->Some_0))
    }
}

/// Converting a key to its wire form and back yields the identical key path:
/// every well-formed key survives the wire round trip, whatever the depth of
/// its ancestor chain.
pub proof fn lemma_key_wire_round_trip(path: Seq<PathElemView>)
    requires
        path.len() >= 1,
    ensures
        key_of_wire(wire_path_of(path)) == Some(path),
{
    let w = wire_path_of(path);
    assert(forall|i: int| 0 <= i < w.len() ==> (#[trigger] w[i]) == wire_elem_of(path[i]));
    assert(forall|i: int| 0 <= i < w.len() ==> !((#[trigger] w[i]).kind is None));
    assert(key_of_wire(w)->Some_0 =~= path);
}

/// Every key survives the wire round trip: its path is never empty, so
/// the general round-trip law applies to it.
pub proof fn lemma_key_round_trip(k: Key)
    ensures
        key_of_wire(wire_path_of(k@)) == Some(k@),
{
    crate::ds::entity::lemma_key_path_nonempty(k);
    lemma_key_wire_round_trip(k@);
}

/// Appends the wire form of the key's path, root first.
fn push_path_elements(k: &Key, out: &mut Vec<WirePathElement>)
    ensures
        wire_elems_view(final(out)@) == wire_elems_view(old(out)@) + wire_path_of(k@),
    decreases k@.len(),
{
    let ghost base = wire_elems_view(old(out)@);
    match k.parent() {
        Some(p) => push_path_elements(p, out),
        None => {},
    }
    proof {
        crate::ds::entity::lemma_key_path_nonempty(*k);
        assert(wire_elems_view(out@) =~= base + wire_path_of(k@.drop_last()));
    }
    let elem = if let Some(i) = k.id() {
        WirePathElement { kind: Some(k.kind().to_owned()), id: Some(i), name: None }
    } else if let Some(n) = k.name() {
        WirePathElement { kind: Some(k.kind().to_owned()), id: None, name: Some(n.to_owned()) }
    } else {
        WirePathElement { kind: Some(k.kind().to_owned()), id: None, name: None }
    };
    proof {
        assert(elem@ == wire_elem_of(k@.last()));
    }
    let ghost pre = out@;
    out.push(elem);
    proof {
        assert(out@ == pre.push(elem));
        assert(wire_elems_view(out@) =~= wire_elems_view(pre).push(elem@));
        assert(wire_path_of(k@.drop_last()).push(wire_elem_of(k@.last())) =~= wire_path_of(k@));
        assert(wire_elems_view(out@) =~= base + wire_path_of(k@));
    }
}

/// Converts a key to its wire form.
pub fn key_to_wire(k: &Key) -> (r: WireKey)
    ensures
        r@ == wire_path_of(k@),
{
    let mut path: Vec<WirePathElement> = Vec::new();
    proof {
        assert(wire_elems_view(path@) =~= Seq::<WirePathElemView>::empty());
    }
    push_path_elements(k, &mut path);
    let r = WireKey { path };
    proof {
        assert(r@ =~= wire_path_of(k@));
    }
    r
}

/// Decodes a wire key into a key, reconstructing the parent chain from the
/// flat path; fails when the path is empty or an element has no kind.
#[verifier::loop_isolation(false)]
pub fn key_from_wire(w: &WireKey) -> (r: Result<Key, WireDecodeError>)
    ensures
        match r {
            Ok(k) => key_of_wire(w@) == Some(k@),
            Err(e) => key_of_wire(w@) is None && (e == WireDecodeError::EmptyKeyPath || e
                == WireDecodeError::KindlessPathElement),
        },
{
    let n = w.path.len();
    if n == 0 {
        return Err(WireDecodeError::EmptyKeyPath);
    }
    let mut key_opt: Option<Key> = None;
    let mut i: usize = 0;
    while i < n
        invariant
            i <= n,
            forall|j: int| 0 <= j < i ==> !((#[trigger] w@[j]).kind is None),
            i > 0 ==> key_opt is Some,
            i == 0 ==> key_opt is None,
            key_opt matches Some(k) ==> k@ =~= w@.subrange(0, i as int).map_values(
                |e: WirePathElemView| elem_of_wire(e)->Some_0,
            ),
        decreases n - i,
    {
        let elem = &w.path[i];
        let kind = match &elem.kind {
            Some(s) => s.clone(),
            None => {
                return Err(WireDecodeError::KindlessPathElement);
            },
        };
        let mut key = Key::new(kind);
        if let Some(id) = elem.id {
            key = key.with_id(id);
        } else if let Some(name) = &elem.name {
            key = key.with_name(name.clone());
        }
        proof {
            assert(key@ =~= seq![elem_of_wire(w@[i as int])->Some_0]);
        }
        key = match key_opt {
            Some(prev) => key.with_boxed_parent(Some(Box::new(prev))),
            None => key,
        };
        proof {
            assert(key@ =~= w@.subrange(0, i as int + 1).map_values(
                |e: WirePathElemView| elem_of_wire(e)->Some_0,
            ));
        }
        key_opt = Some(key);
        i = i + 1;
    }
    let k = match key_opt {
        Some(k) => k,
        None => {
            return Err(WireDecodeError::EmptyKeyPath);
        },
    };
    proof {
        assert(w@.subrange(0, n as int) =~= w@);
        assert(key_of_wire(w@) == Some(k@));
    }
    Ok(k)
}

/// The mathematical shape of a [`WireValue`].
pub struct WireValueView {
    pub meaning: Option<i32>,
    pub exclude: Option<bool>,
    pub payload: WirePayloadView,
}

/// The mathematical shape of a [`WirePayload`].
pub enum WirePayloadView {
    Missing,
    Null,
    Integer(i64),
    Boolean(bool),
    Blob(Seq<u8>),
    Str(Seq<char>),
    Double(u64),
    Array(Seq<WireValueView>),
    KeyRef(Seq<WirePathElemView>),
    Entity,
    GeoPoint,
    Timestamp,
}

/// A property value in wire form: at most one payload field, together with
/// the per-value indexing exclusion flag and meaning hint.
#[derive(Debug, PartialEq)]
pub struct WireValue {
    pub meaning: Option<i32>,
    pub exclude_from_indexes: Option<bool>,
    pub payload: WirePayload,
}

/// The payload of a wire value.
///
/// `Missing` stands for a wire value none of whose payload fields is set
/// (the store sometimes sends an empty object in place of an explicit null);
/// decoding tolerates both and yields null. `Entity`, `GeoPoint` and
/// `Timestamp` stand for payloads the model does not support; decoding them
/// fails loudly.
#[derive(Debug, PartialEq)]
pub enum WirePayload {
    Missing,
    Null,
    Integer(i64),
    Boolean(bool),
    Blob(Vec<u8>),
    Str(String),
    Double(u64),
    Array(Vec<WireValue>),
    KeyRef(WireKey),
    Entity,
    GeoPoint,
    Timestamp,
}

/// The view of a [`WireValue`].
pub open spec fn wire_value_view(w: WireValue) -> WireValueView
    decreases w,
{
    WireValueView {
        meaning: w.meaning,
        exclude: w.exclude_from_indexes,
        payload: wire_payload_view(w.payload),
    }
}

/// The view of a [`WirePayload`].
pub open spec fn wire_payload_view(p: WirePayload) -> WirePayloadView
    decreases p,
{
    match p {
        WirePayload::Missing => WirePayloadView::Missing,
        WirePayload::Null => WirePayloadView::Null,
        WirePayload::Integer(i) => WirePayloadView::Integer(i),
        WirePayload::Boolean(b) => WirePayloadView::Boolean(b),
        WirePayload::Blob(b) => WirePayloadView::Blob(b@),
        WirePayload::Str(s) => WirePayloadView::Str(s@),
        WirePayload::Double(d) => WirePayloadView::Double(d),
        WirePayload::Array(vs) => WirePayloadView::Array(
            Seq::new(vs.len() as nat, |i: int| if 0 <= i < vs.len() {
                wire_value_view(vs[i])
            } else {
                WireValueView { meaning: None, exclude: None, payload: WirePayloadView::Missing }
            }),
        ),
        WirePayload::KeyRef(k) => WirePayloadView::KeyRef(k@),
        WirePayload::Entity => WirePayloadView::Entity,
        WirePayload::GeoPoint => WirePayloadView::GeoPoint,
        WirePayload::Timestamp => WirePayloadView::Timestamp,
    }
}

impl View for WireValue {
    type V = WireValueView;

    open spec fn view(&self) -> WireValueView {
        wire_value_view(*self)
    }
}

impl View for WirePayload {
    type V = WirePayloadView;

    open spec fn view(&self) -> WirePayloadView {
        wire_payload_view(*self)
    }
}

/// The wire payload a value is encoded as. Elements of an array are wrapped
/// in wire values that carry no flags of their own; the property-level
/// conversion is what broadcasts the property's flags over them.
pub open spec fn payload_of_value(v: ValueView) -> WirePayloadView
    decreases v,
{
    match v {
        ValueView::Null => WirePayloadView::Null,
        ValueView::Integer(i) => WirePayloadView::Integer(i),
        ValueView::Boolean(b) => WirePayloadView::Boolean(b),
        ValueView::Blob(b) => WirePayloadView::Blob(b),
        ValueView::Str(s) => WirePayloadView::Str(s),
        ValueView::Double(d) => WirePayloadView::Double(d),
        ValueView::Array(es) => WirePayloadView::Array(
            Seq::new(es.len(), |i: int| if 0 <= i < es.len() {
                WireValueView { meaning: None, exclude: None, payload: payload_of_value(es[i]) }
            } else {
                WireValueView { meaning: None, exclude: None, payload: WirePayloadView::Missing }
            }),
        ),
        ValueView::KeyRef(p) => WirePayloadView::KeyRef(wire_path_of(p)),
    }
}

/// The value a wire payload decodes to: an absent payload and an explicit
/// null both yield null; entity, geo-point and timestamp payloads decode to
/// nothing.
pub open spec fn value_of_payload(p: WirePayloadView) -> Option<ValueView>
    decreases p,
{
    match p {
        WirePayloadView::Missing => Some(ValueView::Null),
        WirePayloadView::Null => Some(ValueView::Null),
        WirePayloadView::Integer(i) => Some(ValueView::Integer(i)),
        WirePayloadView::Boolean(b) => Some(ValueView::Boolean(b)),
        WirePayloadView::Blob(b) => Some(ValueView::Blob(b)),
        WirePayloadView::Str(s) => Some(ValueView::Str(s)),
        WirePayloadView::Double(d) => Some(ValueView::Double(d)),
        WirePayloadView::Array(ws) => match values_of_wires(ws) {
            Some(es) => Some(ValueView::Array(es)),
            None => None,
        },
        WirePayloadView::KeyRef(wp) => match key_of_wire(wp) {
            Some(path) => Some(ValueView::KeyRef(path)),
            None => None,
        },
        WirePayloadView::Entity => None,
        WirePayloadView::GeoPoint => None,
        WirePayloadView::Timestamp => None,
    }
}

/// The values the payloads of a sequence of wire values decode to, when
/// every one of them decodes.
pub open spec fn values_of_wires(ws: Seq<WireValueView>) -> Option<Seq<ValueView>>
    decreases ws,
{
    if ws.len() == 0 {
        Some(Seq::<ValueView>::empty())
    } else {
        let init = values_of_wires(ws.drop_last());
        let last = value_of_payload(ws.last().payload);
        if init is Some && last is Some {
            Some(init->Some_0.push(last->Some_0))
        } else {
            None
        }
    }
}

/// A value view is well formed when every key it holds has a non-empty path.
/// The view of every executable [`Value`] is well formed.
pub open spec fn value_wf(v: ValueView) -> bool
    decreases v,
{
    match v {
        ValueView::KeyRef(p) => p.len() >= 1,
        ValueView::Array(es) => values_wf(es),
        _ => true,
    }
}

/// Well-formedness of a sequence of value views.
pub open spec fn values_wf(es: Seq<ValueView>) -> bool
    decreases es,
{
    if es.len() == 0 {
        true
    } else {
        values_wf(es.drop_last()) && value_wf(es.last())
    }
}

/// Every element of a well-formed sequence of value views is well formed,
/// and conversely.
pub proof fn lemma_values_wf_elements(es: Seq<ValueView>)
    ensures
        values_wf(es) <==> (forall|i: int| 0 <= i < es.len() ==> value_wf(#[trigger] es[i])),
    decreases es.len(),
{
    if es.len() > 0 {
        lemma_values_wf_elements(es.drop_last());
        assert(forall|i: int| 0 <= i < es.len() - 1 ==> #[trigger] es[i] == es.drop_last()[i]);
        assert(es.last() == es[es.len() - 1]);
    }
}

/// The view of an executable value is well formed.
pub proof fn lemma_value_view_wf(v: Value)
    ensures
        value_wf(v@),
    decreases v,
{
    match v {
        Value::Key(k) => {
            crate::ds::entity::lemma_key_path_nonempty(k);
        },
        Value::Array(vs) => {
            assert forall|i: int| 0 <= i < vs@.len() implies value_wf(
                #[trigger] (v@->Array_0)[i],
            ) by {
                vstd::std_specs::vec::axiom_vec_index_decreases(vs, i);
                lemma_value_view_wf(vs[i]);
            }
            lemma_values_wf_elements(v@->Array_0);
        },
        _ => {},
    }
}

/// Every value the model can hold survives the wire round trip: its view
/// is well formed, so the general round-trip law applies to it.
pub proof fn lemma_value_round_trip(v: Value)
    ensures
        value_of_payload(payload_of_value(v@)) == Some(v@),
{
    lemma_value_view_wf(v);
    lemma_value_wire_round_trip(v@);
}

/// Encoding a well-formed value as a wire payload and decoding it again
/// yields the identical value: the wire round trip is lossless for every
/// value the model can hold.
pub proof fn lemma_value_wire_round_trip(v: ValueView)
    requires
        value_wf(v),
    ensures
        value_of_payload(payload_of_value(v)) == Some(v),
    decreases v,
{
    match v {
        ValueView::KeyRef(p) => {
            lemma_key_wire_round_trip(p);
        },
        ValueView::Array(es) => {
            let ws = payload_of_value(v)->Array_0;
            lemma_values_wf_elements(es);
            lemma_values_round_trip(es, ws);
        },
        _ => {},
    }
}

/// Encodes a value as a wire payload.
#[verifier::loop_isolation(false)]
pub fn value_to_payload(v: &Value) -> (r: WirePayload)
    ensures
        r@ == payload_of_value(v@),
    decreases *v,
{
    match v {
        Value::Null => WirePayload::Null,
        Value::Integer(i) => WirePayload::Integer(*i),
        Value::Boolean(b) => WirePayload::Boolean(*b),
        Value::Blob(b) => WirePayload::Blob(b.clone()),
        Value::UnicodeString(s) => WirePayload::Str(s.clone()),
        Value::FloatingPoint(bits) => WirePayload::Double(*bits),
        Value::Array(vs) => {
            proof {
                assert(decreases_to!(*v => *vs));
            }
            let mut out: Vec<WireValue> = Vec::new();
            let mut i: usize = 0;
            while i < vs.len()
                invariant
                    *v == Value::Array(*vs),
                    i <= vs.len(),
                    out@.len() == i,
                    forall|j: int|
                        0 <= j < i ==> (#[trigger] out@[j])@ == (WireValueView {
                            meaning: None,
                            exclude: None,
                            payload: payload_of_value(crate::ds::entity::value_view(vs@[j])),
                        }),
                decreases vs.len() - i,
            {
                proof {
                    vstd::std_specs::vec::axiom_vec_index_decreases(*vs, i as int);
                    assert(decreases_to!(*v => vs@[i as int]));
                }
                let payload = value_to_payload(&vs[i]);
                out.push(WireValue { meaning: None, exclude_from_indexes: None, payload });
                i = i + 1;
            }
            let r = WirePayload::Array(out);
            proof {
                assert(r@ is Array);
                assert(r@->Array_0 =~= payload_of_value(v@)->Array_0);
            }
            r
        },
        Value::Key(k) => WirePayload::KeyRef(key_to_wire(k)),
    }
}

/// Decodes a wire payload into a value; fails loudly on entity, geo-point
/// and timestamp payloads and on malformed keys, and never drops data
/// silently.
#[verifier::loop_isolation(false)]
pub fn value_from_payload(p: &WirePayload) -> (r: Result<Value, WireDecodeError>)
    ensures
        match r {
            Ok(v) => value_of_payload(p@) == Some(v@),
            Err(e) => value_of_payload(p@) is None && e != WireDecodeError::MissingKey,
        },
    decreases *p,
{
    match p {
        WirePayload::Missing => Ok(Value::Null),
        WirePayload::Null => Ok(Value::Null),
        WirePayload::Integer(i) => Ok(Value::Integer(*i)),
        WirePayload::Boolean(b) => Ok(Value::Boolean(*b)),
        WirePayload::Blob(b) => Ok(Value::Blob(b.clone())),
        WirePayload::Str(s) => Ok(Value::UnicodeString(s.clone())),
        WirePayload::Double(d) => Ok(Value::FloatingPoint(*d)),
        WirePayload::Array(ws) => {
            proof {
                assert(decreases_to!(*p => *ws));
            }
            let mut out: Vec<Value> = Vec::new();
            let mut i: usize = 0;
            let ghost wviews = wire_payload_view(*p)->Array_0;
            while i < ws.len()
                invariant
                    *p == WirePayload::Array(*ws),
                    i <= ws.len(),
                    out@.len() == i,
                    wviews == wire_payload_view(*p)->Array_0,
                    values_of_wires(wviews.subrange(0, i as int)) matches Some(es) && es
                        =~= out@.map_values(|e: Value| e@),
                decreases ws.len() - i,
            {
                proof {
                    vstd::std_specs::vec::axiom_vec_index_decreases(*ws, i as int);
                    assert(decreases_to!(*p => ws@[i as int]));
                    assert(decreases_to!(ws@[i as int] => ws@[i as int].payload));
                }
                let v = match value_from_payload(&ws[i].payload) {
                    Ok(v) => v,
                    Err(e) => {
                        proof {
                            assert(wviews[i as int].payload == ws@[i as int].payload@);
                            lemma_values_of_wires_failure(wviews, i as int);
                        }
                        return Err(e);
                    },
                };
                proof {
                    let pre = wviews.subrange(0, i as int);
                    let post = wviews.subrange(0, i as int + 1);
                    assert(post.drop_last() =~= pre);
                    assert(post.last() == wviews[i as int]);
                    assert(wviews[i as int].payload == ws@[i as int].payload@);
                }
                out.push(v);
                proof {
                    assert(values_of_wires(wviews.subrange(0, i as int + 1))->Some_0 =~= out@.map_values(
                        |e: Value| e@,
                    ));
                }
                i = i + 1;
            }
            proof {
                assert(wviews.subrange(0, ws@.len() as int) =~= wviews);
            }
            let r = Value::Array(out);
            proof {
                assert(value_of_payload(p@)->Some_0->Array_0 =~= r@->Array_0);
            }
            Ok(r)
        },
        WirePayload::KeyRef(wk) => match key_from_wire(wk) {
            Ok(k) => Ok(Value::Key(k)),
            Err(e) => Err(e),
        },
        WirePayload::Entity => Err(WireDecodeError::UnsupportedValueType),
        WirePayload::GeoPoint => Err(WireDecodeError::UnsupportedValueType),
        WirePayload::Timestamp => Err(WireDecodeError::UnsupportedValueType),
    }
}

/// When one payload of a sequence of wire values decodes to nothing, the
/// whole sequence decodes to nothing.
proof fn lemma_values_of_wires_failure(ws: Seq<WireValueView>, i: int)
    requires
        0 <= i < ws.len(),
        value_of_payload(ws[i].payload) is None,
    ensures
        values_of_wires(ws) is None,
    decreases ws,
{
    if ws.len() > 0 {
        if i == ws.len() - 1 {
            assert(ws.last() == ws[i]);
        } else {
            assert(ws.drop_last()[i] == ws[i]);
            lemma_values_of_wires_failure(ws.drop_last(), i);
        }
    }
}

/// The wire form of a property payload.
///
/// Indexing and meaning are per-value on the wire but per-property in the
/// model: for an array property the property's flags are broadcast to every
/// element and the array container itself carries none, while any other
/// value carries the flags itself. The indexing flag is written as its
/// negation, an exclusion flag.
pub open spec fn wire_of_prop(p: PropView) -> WireValueView {
    match p.value {
        ValueView::Array(es) => WireValueView {
            meaning: None,
            exclude: None,
            payload: WirePayloadView::Array(
                Seq::new(es.len(), |i: int|
                    WireValueView {
                        meaning: p.meaning,
                        exclude: Some(!p.indexed),
                        payload: payload_of_value(es[i]),
                    }),
            ),
        },
        _ => WireValueView {
            meaning: p.meaning,
            exclude: Some(!p.indexed),
            payload: payload_of_value(p.value),
        },
    }
}

/// The property payload a wire value decodes to: the value from the
/// payload, the indexing flag read back from the container's exclusion flag
/// (absent means indexed), and the container's meaning.
pub open spec fn prop_of_wire(w: WireValueView) -> Option<PropView> {
    match value_of_payload(w.payload) {
        None => None,
        Some(v) => Some(
            PropView { value: v, indexed: !(w.exclude == Some(true)), meaning: w.meaning },
        ),
    }
}

/// Encodes a property payload as a wire value, broadcasting the property's
/// flags over the elements of an array value.
#[verifier::loop_isolation(false)]
pub fn prop_to_wire(pv: &PropertyValue) -> (r: WireValue)
    ensures
        r@ == wire_of_prop(pv@),
{
    let indexed = pv.is_indexed();
    let meaning = pv.meaning();
    match pv.value() {
        Value::Array(vs) => {
            let mut out: Vec<WireValue> = Vec::new();
            let mut i: usize = 0;
            while i < vs.len()
                invariant
                    i <= vs.len(),
                    out@.len() == i,
                    forall|j: int|
                        0 <= j < i ==> (#[trigger] out@[j])@ == (WireValueView {
                            meaning: meaning,
                            exclude: Some(!indexed),
                            payload: payload_of_value(crate::ds::entity::value_view(vs@[j])),
                        }),
                decreases vs.len() - i,
            {
                let payload = value_to_payload(&vs[i]);
                out.push(
                    WireValue { meaning, exclude_from_indexes: Some(!indexed), payload },
                );
                i = i + 1;
            }
            let r = WireValue {
                meaning: None,
                exclude_from_indexes: None,
                payload: WirePayload::Array(out),
            };
            proof {
                assert(r@.payload->Array_0 =~= wire_of_prop(pv@).payload->Array_0);
            }
            r
        },
        other => WireValue {
            meaning,
            exclude_from_indexes: Some(!indexed),
            payload: value_to_payload(other),
        },
    }
}

/// Decodes a wire value into a property payload.
pub fn prop_from_wire(w: &WireValue) -> (r: Result<PropertyValue, WireDecodeError>)
    ensures
        match r {
            Ok(pv) => prop_of_wire(w@) == Some(pv@),
            Err(e) => prop_of_wire(w@) is None && e != WireDecodeError::MissingKey,
        },
{
    let value = match value_from_payload(&w.payload) {
        Ok(v) => v,
        Err(e) => {
            return Err(e);
        },
    };
    let indexed = match w.exclude_from_indexes {
        Some(true) => false,
        _ => true,
    };
    Ok(PropertyValue::new(value, indexed, w.meaning))
}

/// Two association lists whose entries correspond pointwise through a
/// function denote mappings that correspond through `map_values`.
pub proof fn lemma_assoc_map_map<T: View, U: View>(
    a: Seq<(String, T)>,
    b: Seq<(String, U)>,
    f: spec_fn(<T as View>::V) -> <U as View>::V,
)
    requires
        a.len() == b.len(),
        forall|i: int|
            0 <= i < a.len() ==> (#[trigger] b[i]).0@ == a[i].0@ && b[i].1@ == f(a[i].1@),
    ensures
        assoc_map(b) == assoc_map(a).map_values(f),
        assoc_unique(b) == assoc_unique(a),
    decreases a.len(),
{
    if a.len() > 0 {
        assert(forall|i: int|
            0 <= i < a.len() - 1 ==> (#[trigger] a.drop_last()[i]) == a[i] && b.drop_last()[i]
                == b[i]);
        lemma_assoc_map_map(a.drop_last(), b.drop_last(), f);
        assert(a.last() == a[a.len() - 1] && b.last() == b[a.len() - 1]);
        assert(assoc_map(b) =~= assoc_map(a).map_values(f));
    } else {
        assert(assoc_map(b) =~= assoc_map(a).map_values(f));
    }
    if assoc_unique(a) {
        assert forall|i: int, j: int| 0 <= i < j < b.len() implies (#[trigger] b[i]).0@ != (
        #[trigger] b[j]).0@ by {
            assert(a[i].0@ != a[j].0@);
        }
    }
    if assoc_unique(b) {
        assert forall|i: int, j: int| 0 <= i < j < a.len() implies (#[trigger] a[i]).0@ != (
        #[trigger] a[j]).0@ by {
            assert(b[i].0@ != b[j].0@);
        }
    }
}

/// The mathematical shape of a [`WireEntity`].
pub struct WireEntityView {
    pub key: Option<Seq<WirePathElemView>>,
    pub props: Map<Seq<char>, WireValueView>,
}

/// An entity in wire form: an optional wire key and named wire values.
#[derive(Debug)]
pub struct WireEntity {
    pub key: Option<WireKey>,
    pub properties: Vec<(String, WireValue)>,
}

impl View for WireEntity {
    type V = WireEntityView;

    open spec fn view(&self) -> WireEntityView {
        WireEntityView {
            key: match self.key {
                Some(ref k) => Some(k@),
                None => None,
            },
            props: assoc_map(self.properties@),
        }
    }
}

impl WireEntity {
    /// The wire entity's internal consistency: property names are unique.
    pub open spec fn wf(&self) -> bool {
        assoc_unique(self.properties@)
    }
}

/// The decoded form of a mapping of wire values, meaningful when every one
/// of them decodes.
pub open spec fn decoded_props(m: Map<Seq<char>, WireValueView>) -> Map<Seq<char>, PropView> {
    m.map_values(|wv: WireValueView| prop_of_wire(wv)->Some_0)
}

/// Whether a wire entity decodes into the model: it has a key, the key's
/// path decodes, and every property decodes.
pub open spec fn entity_decodes(w: WireEntityView) -> bool {
    &&& w.key is Some
    &&& key_of_wire(w.key->Some_0) is Some
    &&& forall|n: Seq<char>|
        #[trigger] w.props.contains_key(n) ==> prop_of_wire(w.props[n]) is Some
}

/// The wire form of an entity: its key's wire path and each property's
/// wire value.
pub open spec fn wire_of_entity(e: EntityView) -> WireEntityView {
    WireEntityView {
        key: Some(wire_path_of(e.key)),
        props: e.props.map_values(|p: PropView| wire_of_prop(p)),
    }
}

/// Encodes an entity in wire form.
#[verifier::loop_isolation(false)]
pub fn entity_to_wire(e: &Entity) -> (r: WireEntity)
    requires
        e.wf(),
    ensures
        r@ == wire_of_entity(e@),
        r.wf(),
{
    let key = key_to_wire(e.key());
    let props = e.properties();
    let mut out: Vec<(String, WireValue)> = Vec::new();
    let mut i: usize = 0;
    while i < props.len()
        invariant
            i <= props.len(),
            out@.len() == i,
            forall|j: int|
                0 <= j < i ==> (#[trigger] out@[j]).0@ == props@[j].0@ && out@[j].1@
                    == wire_of_prop(props@[j].1@),
        decreases props.len() - i,
    {
        let name = props[i].0.clone();
        let wv = prop_to_wire(&props[i].1);
        out.push((name, wv));
        i = i + 1;
    }
    proof {
        lemma_assoc_map_map(props@, out@, |p: PropView| wire_of_prop(p));
    }
    let r = WireEntity { key: Some(key), properties: out };
    proof {
        assert(r@.props =~= wire_of_entity(e@).props);
    }
    r
}

/// Decodes a wire entity into an entity; fails when the key is missing or
/// malformed or when a property does not decode.
#[verifier::loop_isolation(false)]
pub fn entity_from_wire(w: &WireEntity) -> (r: Result<Entity, WireDecodeError>)
    requires
        w.wf(),
    ensures
        r is Ok <==> entity_decodes(w@),
        match r {
            Ok(e) => {
                &&& e.wf()
                &&& e@.key == key_of_wire(w@.key->Some_0)->Some_0
                &&& e@.props == decoded_props(w@.props)
            },
            Err(err) => err == WireDecodeError::MissingKey <==> w@.key is None,
        },
{
    let wk = match &w.key {
        Some(k) => k,
        None => {
            return Err(WireDecodeError::MissingKey);
        },
    };
    let key = match key_from_wire(wk) {
        Ok(k) => k,
        Err(err) => {
            proof {
                assert(w@.key == Some(wk@));
                assert(key_of_wire(w@.key->Some_0) is None);
                assert(err != WireDecodeError::MissingKey);
            }
            return Err(err);
        },
    };
    let mut e = Entity::new(key);
    let n = w.properties.len();
    let mut i: usize = 0;
    proof {
        assert(w.properties@.subrange(0, 0) =~= Seq::<(String, WireValue)>::empty());
        assert(e@.props =~= decoded_props(assoc_map(w.properties@.subrange(0, 0))));
    }
    while i < n
        invariant
            i <= n,
            n == w.properties@.len(),
            e.wf(),
            e@.key == key_of_wire(w@.key->Some_0)->Some_0,
            forall|j: int|
                0 <= j < i ==> prop_of_wire((#[trigger] w.properties@[j]).1@) is Some,
            e@.props == decoded_props(assoc_map(w.properties@.subrange(0, i as int))),
        decreases n - i,
    {
        let name = w.properties[i].0.clone();
        let pv = match prop_from_wire(&w.properties[i].1) {
            Ok(pv) => pv,
            Err(err) => {
                proof {
                    crate::ds::entity::lemma_assoc_map_get(w.properties@, name@);
                    assert(w@.props.contains_key(name@));
                    assert(w@.props[name@] == w.properties@[i as int].1@);
                    assert(!entity_decodes(w@));
                }
                return Err(err);
            },
        };
        proof {
            let pre = w.properties@.subrange(0, i as int);
            let post = w.properties@.subrange(0, i as int + 1);
            assert(post =~= pre.push(w.properties@[i as int]));
            lemma_assoc_map_push(pre, w.properties@[i as int]);
            assert(decoded_props(assoc_map(pre)).insert(name@, pv@) =~= decoded_props(
                assoc_map(post),
            ));
        }
        e.set_property(name, pv);
        i = i + 1;
    }
    proof {
        assert(w.properties@.subrange(0, n as int) =~= w.properties@);
        assert forall|nm: Seq<char>| #[trigger]
            w@.props.contains_key(nm) implies prop_of_wire(w@.props[nm]) is Some by {
            crate::ds::entity::lemma_assoc_map_get(w.properties@, nm);
            let j = choose|j: int|
                0 <= j < w.properties@.len() && (#[trigger] w.properties@[j]).0@ == nm;
            assert(w@.props[nm] == w.properties@[j].1@);
        }
        assert(entity_decodes(w@));
    }
    Ok(e)
}

/// The elementwise form of the round trip for the elements of an array.
proof fn lemma_values_round_trip(es: Seq<ValueView>, ws: Seq<WireValueView>)
    requires
        ws.len() == es.len(),
        forall|i: int|
            0 <= i < es.len() ==> (#[trigger] ws[i]).payload == payload_of_value(es[i]),
        forall|i: int| 0 <= i < es.len() ==> value_wf(#[trigger] es[i]),
    ensures
        values_of_wires(ws) == Some(es),
    decreases es,
{
    if es.len() > 0 {
        assert(forall|i: int| 0 <= i < es.len() - 1 ==> #[trigger] es[i] == es.drop_last()[i]);
        assert(forall|i: int| 0 <= i < ws.len() - 1 ==> #[trigger] ws[i] == ws.drop_last()[i]);
        lemma_values_round_trip(es.drop_last(), ws.drop_last());
        assert(es[es.len() - 1] == es.last());
        lemma_value_wire_round_trip(es.last());
        assert(ws.last().payload == payload_of_value(es.last()));
        assert(values_of_wires(ws)->Some_0 =~= es);
    }
}

} // verus!
