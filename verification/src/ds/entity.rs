//! Keys, property values and entities: the canonical in-memory representation
//! of a record in the store.

use vstd::prelude::*;

verus! {

/// Relies on `str`'s `==` (its `PartialEq` implementation): true exactly when
/// the two slices hold the same characters.
#[verifier::external_body]
pub(crate) fn str_eq(a: &str, b: &str) -> (r: bool)
    ensures
        r == (a@ == b@),
{
    a == b
}

/// The identifying component of the last path element of a [`Key`].
#[derive(Debug, PartialEq, Eq, Hash)]
pub enum KeyVariant {
    /// A string name component.
    Name(String),
    /// An integer id component.
    Id(i64),
    /// Neither an id nor a name: the key is incomplete.
    Incomplete,
}

/// The mathematical shape of a [`KeyVariant`].
pub enum KeyVariantView {
    Name(Seq<char>),
    Id(i64),
    Incomplete,
}

impl View for KeyVariant {
    type V = KeyVariantView;

    open spec fn view(&self) -> KeyVariantView {
        match self {
            KeyVariant::Name(s) => KeyVariantView::Name(s@),
            KeyVariant::Id(i) => KeyVariantView::Id(*i),
            KeyVariant::Incomplete => KeyVariantView::Incomplete,
        }
    }
}

/// One element of a key path: a kind together with its identifying component.
pub struct PathElemView {
    pub kind: Seq<char>,
    pub variant: KeyVariantView,
}

/// A hierarchical key: a kind, an identifying component, and an optional
/// parent key.
///
/// A key denotes a non-empty path of (kind, variant) pairs, read root to
/// leaf; the struct itself holds the leaf element and the parent chain holds
/// the rest. A key is *complete* when its leaf variant is a name or an id;
/// only complete keys identify a persisted entity. Keys are immutable value
/// objects: the `with_*` methods consume a key and return a new one.
#[derive(Debug, PartialEq, Eq, Hash)]
pub struct Key {
    kind: String,
    variant: KeyVariant,
    parent: Option<Box<Key>>,
}

/// The path a [`Key`] denotes, root first, leaf last.
pub closed spec fn key_path(k: Key) -> Seq<PathElemView>
    decreases k,
{
    let elem = PathElemView { kind: k.kind@, variant: k.variant@ };
    match k.parent {
        None => seq![elem],
        Some(p) => key_path(*p).push(elem),
    }
}

impl View for Key {
    type V = Seq<PathElemView>;

    open spec fn view(&self) -> Seq<PathElemView> {
        key_path(*self)
    }
}

/// A key path is never empty.
pub proof fn lemma_key_path_nonempty(k: Key)
    ensures
        k@.len() >= 1,
{
    lemma_key_leaf(k);
}

/// The last element of a key's path is the element the struct itself holds.
proof fn lemma_key_leaf(k: Key)
    ensures
        k@.len() >= 1,
        k@.last() == (PathElemView { kind: k.kind@, variant: k.variant@ }),
    decreases k,
{
    match k.parent {
        None => {},
        Some(p) => lemma_key_leaf(*p),
    }
}

impl Clone for KeyVariant {
    fn clone(&self) -> (r: Self)
        ensures
            r == *self,
    {
        match self {
            KeyVariant::Name(s) => KeyVariant::Name(s.clone()),
            KeyVariant::Id(i) => KeyVariant::Id(*i),
            KeyVariant::Incomplete => KeyVariant::Incomplete,
        }
    }
}

impl Clone for Key {
    fn clone(&self) -> (r: Self)
        ensures
            r == *self,
        decreases *self,
    {
        Key {
            kind: self.kind.clone(),
            variant: self.variant.clone(),
            parent: match &self.parent {
                Some(p) => Some(Box::new((**p).clone())),
                None => None,
            },
        }
    }
}

impl Key {
    /// Creates a new incomplete key with only the given kind.
    pub fn new(kind: String) -> (r: Key)
        ensures
            r@ == seq![PathElemView { kind: kind@, variant: KeyVariantView::Incomplete }],
    {
        Key { kind, variant: KeyVariant::Incomplete, parent: None }
    }

    /// The kind of the entity this key identifies.
    pub fn kind(&self) -> (r: &str)
        ensures
            r@ == self@.last().kind,
    {
        proof {
            lemma_key_leaf(*self);
        }
        self.kind.as_str()
    }

    /// The string name component of the key, if it has one.
    pub fn name(&self) -> (r: Option<&str>)
        ensures
            match self@.last().variant {
                KeyVariantView::Name(s) => r is Some && r->Some_0@ == s,
                _ => r is None,
            },
    {
        proof {
            lemma_key_leaf(*self);
        }
        match &self.variant {
            KeyVariant::Name(name) => Some(name.as_str()),
            _ => None,
        }
    }

    /// The integer id component of the key, if it has one.
    pub fn id(&self) -> (r: Option<i64>)
        ensures
            match self@.last().variant {
                KeyVariantView::Id(i) => r == Some(i),
                _ => r is None,
            },
    {
        proof {
            lemma_key_leaf(*self);
        }
        match &self.variant {
            KeyVariant::Id(id) => Some(*id),
            _ => None,
        }
    }

    /// The parent key, if this key has a path of more than one element.
    pub fn parent(&self) -> (r: Option<&Key>)
        ensures
            match r {
                Some(p) => self@.len() > 1 && p@ == self@.drop_last(),
                None => self@.len() == 1,
            },
    {
        proof {
            lemma_key_leaf(*self);
            if let Some(p) = &self.parent {
                lemma_key_leaf(**p);
            }
        }
        match &self.parent {
            Some(p) => Some(&**p),
            None => None,
        }
    }

    /// True when the key has a name or an id, so that it can identify a
    /// persisted entity.
    pub fn is_complete(&self) -> (r: bool)
        ensures
            r == !(self@.last().variant is Incomplete),
    {
        proof {
            lemma_key_leaf(*self);
        }
        !matches!(self.variant, KeyVariant::Incomplete)
    }

    /// Consumes the key and returns one whose leaf element carries the given
    /// string name in place of any previous id or name.
    pub fn with_name(self, name: String) -> (r: Key)
        ensures
            r@ == self@.drop_last().push(
                PathElemView { kind: self@.last().kind, variant: KeyVariantView::Name(name@) },
            ),
    {
        proof {
            lemma_key_leaf(self);
        }
        let r = Key { variant: KeyVariant::Name(name), ..self };
        proof {
            lemma_key_leaf(r);
            assert(r@.drop_last() =~= self@.drop_last());
            assert(r@ =~= r@.drop_last().push(r@.last()));
        }
        r
    }

    /// Consumes the key and returns one whose leaf element carries the given
    /// integer id in place of any previous id or name.
    pub fn with_id(self, id: i64) -> (r: Key)
        ensures
            r@ == self@.drop_last().push(
                PathElemView { kind: self@.last().kind, variant: KeyVariantView::Id(id) },
            ),
    {
        proof {
            lemma_key_leaf(self);
        }
        let r = Key { variant: KeyVariant::Id(id), ..self };
        proof {
            lemma_key_leaf(r);
            assert(r@.drop_last() =~= self@.drop_last());
            assert(r@ =~= r@.drop_last().push(r@.last()));
        }
        r
    }

    /// Consumes the key and returns one whose parent chain is exactly the
    /// given key.
    pub fn with_parent(self, parent: Key) -> (r: Key)
        ensures
            r@ == parent@.push(self@.last()),
    {
        proof {
            lemma_key_leaf(self);
        }
        Key { parent: Some(Box::new(parent)), ..self }
    }

    /// Consumes the key and returns one with no parent.
    pub fn with_no_parent(self) -> (r: Key)
        ensures
            r@ == seq![self@.last()],
    {
        proof {
            lemma_key_leaf(self);
        }
        Key { parent: None, ..self }
    }

    /// The canonical text of the key, root first, one parenthesized
    /// element per path step: for example a parent named `"p"` of kind `A`
    /// with a child of kind `B` and id 7 reads `A(name:"p")/B(id:7)`.
    pub fn to_text(&self) -> (r: String)
        ensures
            r@ == key_text_of(self@),
        decreases *self,
    {
        proof {
            lemma_key_leaf(*self);
        }
        let prefix = match &self.parent {
            Some(p) => {
                proof {
                    lemma_key_path_nonempty(**p);
                }
                p.to_text().concat("/")
            },
            None => String::new(),
        };
        let opened = prefix.concat(self.kind.as_str()).concat("(");
        let r = match &self.variant {
            KeyVariant::Name(n) => {
                let lit = json_quote(n.as_str());
                opened.concat("name:").concat(lit.as_str()).concat(")")
            },
            KeyVariant::Id(i) => {
                let digits = i64_to_text(*i);
                opened.concat("id:").concat(digits.as_str()).concat(")")
            },
            KeyVariant::Incomplete => opened.concat(")"),
        };
        proof {
            match &self.parent {
                Some(p) => {
                    assert(self@ == p@.push(self@.last()));
                    assert(p@ =~= self@.drop_last());
                    assert(prefix@ == key_text_of(self@.drop_last()) + "/"@);
                    assert(r@ =~= key_text_of(self@));
                },
                None => {
                    assert(self@ =~= seq![self@.last()]);
                    assert(r@ =~= key_text_of(self@));
                },
            }
        }
        r
    }

    /// Consumes the key and returns one with the given optional boxed parent.
    pub fn with_boxed_parent(self, parent: Option<Box<Key>>) -> (r: Key)
        ensures
            match parent {
                Some(p) => r@ == p@.push(self@.last()),
                None => r@ == seq![self@.last()],
            },
    {
        proof {
            lemma_key_leaf(self);
        }
        Key { parent, ..self }
    }
}

/// The JSON string literal that quotes a sequence of characters; it
/// depends on the characters alone.
pub uninterp spec fn json_string_literal(s: Seq<char>) -> Seq<char>;

/// Relies on `serde_json::to_string` on a string slice: the canonical JSON
/// string literal of the characters, a function of them alone. Writing a
/// string slice cannot fail.
#[verifier::external_body]
fn json_quote(s: &str) -> (r: String)
    ensures
        r@ == json_string_literal(s@),
{
    serde_json::to_string(s).unwrap_or_default()
}

/// The character of one decimal digit.
pub open spec fn digit_char(d: int) -> char {
    if d == 0 {
        '0'
    } else if d == 1 {
        '1'
    } else if d == 2 {
        '2'
    } else if d == 3 {
        '3'
    } else if d == 4 {
        '4'
    } else if d == 5 {
        '5'
    } else if d == 6 {
        '6'
    } else if d == 7 {
        '7'
    } else if d == 8 {
        '8'
    } else {
        '9'
    }
}

/// The decimal digits of a non-negative number, most significant first.
pub open spec fn nat_decimal_digits(n: int) -> Seq<char>
    decreases n,
{
    if n < 10 {
        seq![digit_char(n)]
    } else {
        nat_decimal_digits(n / 10).push(digit_char(n % 10))
    }
}

/// The canonical decimal rendering of a 64-bit integer: a minus sign for a
/// negative value, then the digits of its magnitude.
pub open spec fn decimal_digits(i: i64) -> Seq<char> {
    if i < 0 {
        seq!['-'] + nat_decimal_digits(-(i as int))
    } else {
        nat_decimal_digits(i as int)
    }
}

/// The text of one decimal digit.
fn digit_text(d: u64) -> (r: &'static str)
    requires
        d < 10,
    ensures
        r@.len() == 1,
        r@[0] == digit_char(d as int),
{
    proof {
        reveal_strlit("0");
        reveal_strlit("1");
        reveal_strlit("2");
        reveal_strlit("3");
        reveal_strlit("4");
        reveal_strlit("5");
        reveal_strlit("6");
        reveal_strlit("7");
        reveal_strlit("8");
        reveal_strlit("9");
    }
    match d {
        0 => "0",
        1 => "1",
        2 => "2",
        3 => "3",
        4 => "4",
        5 => "5",
        6 => "6",
        7 => "7",
        8 => "8",
        _ => "9",
    }
}

/// Renders a non-negative number in decimal.
fn format_u64(n: u64) -> (r: String)
    ensures
        r@ == nat_decimal_digits(n as int),
    decreases n,
{
    if n < 10 {
        let r = digit_text(n).to_owned();
        proof {
            assert(r@ =~= seq![digit_char(n as int)]);
        }
        r
    } else {
        let head = format_u64(n / 10);
        let tail = digit_text(n % 10);
        let r = head.concat(tail);
        proof {
            assert(r@ =~= nat_decimal_digits(n as int));
        }
        r
    }
}

/// Renders a 64-bit integer in decimal.
fn i64_to_text(i: i64) -> (r: String)
    ensures
        r@ == decimal_digits(i),
{
    if i >= 0 {
        format_u64(i as u64)
    } else {
        let magnitude = ((-(i + 1)) as u64) + 1;
        proof {
            assert(magnitude as int == -(i as int));
        }
        let digits = format_u64(magnitude);
        let r = "-".to_owned().concat(digits.as_str());
        proof {
            reveal_strlit("-");
            assert("-"@ =~= seq!['-']);
            assert(r@ =~= decimal_digits(i));
        }
        r
    }
}

/// The canonical text of one key path element: the kind, then the
/// identifying component in parentheses.
pub open spec fn key_elem_text(e: PathElemView) -> Seq<char> {
    e.kind + "("@ + (match e.variant {
        KeyVariantView::Name(s) => "name:"@ + json_string_literal(s) + ")"@,
        KeyVariantView::Id(i) => "id:"@ + decimal_digits(i) + ")"@,
        KeyVariantView::Incomplete => ")"@,
    })
}

/// The canonical text of a key path: its elements' texts, root first,
/// joined by slashes.
pub open spec fn key_text_of(p: Seq<PathElemView>) -> Seq<char>
    decreases p.len(),
{
    if p.len() == 0 {
        Seq::<char>::empty()
    } else if p.len() == 1 {
        key_elem_text(p[0])
    } else {
        key_text_of(p.drop_last()) + "/"@ + key_elem_text(p.last())
    }
}

/// Decides whether two key variants hold the same identifying component.
fn variants_eq(a: &KeyVariant, b: &KeyVariant) -> (r: bool)
    ensures
        r == (a@ == b@),
{
    match (a, b) {
        (KeyVariant::Name(x), KeyVariant::Name(y)) => str_eq(x.as_str(), y.as_str()),
        (KeyVariant::Id(x), KeyVariant::Id(y)) => x == y,
        (KeyVariant::Incomplete, KeyVariant::Incomplete) => true,
        _ => false,
    }
}

/// Decides whether two keys denote the same path.
pub fn key_eq(a: &Key, b: &Key) -> (r: bool)
    ensures
        r == (a@ == b@),
    decreases *a,
{
    proof {
        lemma_key_leaf(*a);
        lemma_key_leaf(*b);
    }
    let kinds_eq = str_eq(a.kind.as_str(), b.kind.as_str());
    let variant_eq = variants_eq(&a.variant, &b.variant);
    let parents_eq = match (&a.parent, &b.parent) {
        (Some(x), Some(y)) => key_eq(&**x, &**y),
        (None, None) => true,
        _ => false,
    };
    let r = kinds_eq && variant_eq && parents_eq;
    proof {
        match (&a.parent, &b.parent) {
            (Some(x), Some(y)) => {
                lemma_key_leaf(**x);
                lemma_key_leaf(**y);
                assert(a@ == x@.push(a@.last()));
                assert(b@ == y@.push(b@.last()));
                if r {
                    assert(a@.last() == b@.last());
                    assert(a@ =~= b@);
                } else if a@ == b@ {
                    assert(a@.last() == b@.last());
                    assert(x@ =~= a@.drop_last());
                    assert(y@ =~= b@.drop_last());
                    assert(false);
                }
            },
            (None, None) => {
                assert(a@ == seq![a@.last()]);
                assert(b@ == seq![b@.last()]);
                if r {
                    assert(a@ =~= b@);
                } else if a@ == b@ {
                    assert(false);
                }
            },
            (Some(x), None) => {
                lemma_key_path_nonempty(**x);
                assert(a@ == x@.push(a@.last()));
                assert(b@ == seq![b@.last()]);
                assert(a@.len() >= 2 && b@.len() == 1);
            },
            (None, Some(y)) => {
                lemma_key_path_nonempty(**y);
                assert(b@ == y@.push(b@.last()));
                assert(a@ == seq![a@.last()]);
                assert(b@.len() >= 2 && a@.len() == 1);
            },
        }
    }
    r
}

/// The `meaning` hint that marks a string property as a large block of text
/// for compatibility with older clients.
pub const MEANING_TEXT: i32 = 15;

/// The data a single property can hold.
///
/// A floating-point value is carried as the 64-bit encoding of the number
/// (its IEEE 754 bit pattern), so that the model stays a plain value; callers
/// that hold a native floating-point number convert it to and from its bits
/// at the boundary.
#[derive(Debug, PartialEq)]
pub enum Value {
    /// The store's null value.
    Null,
    /// A 64-bit integer value.
    Integer(i64),
    /// A boolean value.
    Boolean(bool),
    /// Binary data.
    Blob(Vec<u8>),
    /// A string value.
    UnicodeString(String),
    /// A floating-point value, as the bit pattern of a 64-bit IEEE 754 number.
    FloatingPoint(u64),
    /// An array of other values.
    Array(Vec<Value>),
    /// A key value.
    Key(Key),
}

/// The mathematical shape of a [`Value`].
pub enum ValueView {
    Null,
    Integer(i64),
    Boolean(bool),
    Blob(Seq<u8>),
    Str(Seq<char>),
    Double(u64),
    Array(Seq<ValueView>),
    KeyRef(Seq<PathElemView>),
}

/// The view of a [`Value`].
pub open spec fn value_view(v: Value) -> ValueView
    decreases v,
{
    match v {
        Value::Null => ValueView::Null,
        Value::Integer(i) => ValueView::Integer(i),
        Value::Boolean(b) => ValueView::Boolean(b),
        Value::Blob(b) => ValueView::Blob(b@),
        Value::UnicodeString(s) => ValueView::Str(s@),
        Value::FloatingPoint(bits) => ValueView::Double(bits),
        Value::Array(vs) => ValueView::Array(
            Seq::new(vs.len() as nat, |i: int| if 0 <= i < vs.len() {
                value_view(vs[i])
            } else {
                ValueView::Null
            }),
        ),
        Value::Key(k) => ValueView::KeyRef(k@),
    }
}

impl View for Value {
    type V = ValueView;

    open spec fn view(&self) -> ValueView {
        value_view(*self)
    }
}

impl Clone for Value {
    #[verifier::loop_isolation(false)]
    fn clone(&self) -> (r: Self)
        ensures
            r@ == self@,
        decreases *self,
    {
        match self {
            Value::Null => Value::Null,
            Value::Integer(i) => Value::Integer(*i),
            Value::Boolean(b) => Value::Boolean(*b),
            Value::Blob(b) => Value::Blob(b.clone()),
            Value::UnicodeString(s) => Value::UnicodeString(s.clone()),
            Value::FloatingPoint(bits) => Value::FloatingPoint(*bits),
            Value::Array(vs) => {
                proof {
                    assert(decreases_to!(*self => *vs));
                }
                let mut out: Vec<Value> = Vec::new();
                let mut i: usize = 0;
                while i < vs.len()
                    invariant
                        *self == Value::Array(*vs),
                        i <= vs.len(),
                        out@.len() == i,
                        forall|j: int| 0 <= j < i ==> value_view(#[trigger] out@[j]) == value_view(vs@[j]),
                    decreases vs.len() - i,
                {
                    proof {
                        vstd::std_specs::vec::axiom_vec_index_decreases(*vs, i as int);
                        assert(decreases_to!(*self => vs@[i as int]));
                    }
                    out.push(vs[i].clone());
                    i = i + 1;
                }
                let r = Value::Array(out);
                proof {
                    assert(r@ is Array && self@ is Array);
                    assert(r@->Array_0 =~= self@->Array_0);
                }
                r
            },
            Value::Key(k) => Value::Key(k.clone()),
        }
    }
}

impl Value {
    /// Creates a null value.
    pub fn null() -> (r: Value)
        ensures
            r@ == ValueView::Null,
    {
        Value::Null
    }

    /// Creates an integer value.
    pub fn integer(val: i64) -> (r: Value)
        ensures
            r@ == ValueView::Integer(val),
    {
        Value::Integer(val)
    }

    /// Creates a boolean value.
    pub fn boolean(val: bool) -> (r: Value)
        ensures
            r@ == ValueView::Boolean(val),
    {
        Value::Boolean(val)
    }

    /// Creates a blob value.
    pub fn blob(val: Vec<u8>) -> (r: Value)
        ensures
            r@ == ValueView::Blob(val@),
    {
        Value::Blob(val)
    }

    /// Creates a string value.
    pub fn unicode_string(s: String) -> (r: Value)
        ensures
            r@ == ValueView::Str(s@),
    {
        Value::UnicodeString(s)
    }

    /// Creates a floating-point value from the bit pattern of a 64-bit
    /// IEEE 754 number.
    pub fn floating_point(bits: u64) -> (r: Value)
        ensures
            r@ == ValueView::Double(bits),
    {
        Value::FloatingPoint(bits)
    }

    /// Creates an array value.
    pub fn array(vals: Vec<Value>) -> (r: Value)
        ensures
            r@ == value_view(Value::Array(vals)),
            r@ is Array,
            r@->Array_0.len() == vals@.len(),
            forall|i: int| 0 <= i < vals@.len() ==> r@->Array_0[i] == value_view(#[trigger] vals@[i]),
    {
        Value::Array(vals)
    }

    /// Creates a key value.
    pub fn key(key: Key) -> (r: Value)
        ensures
            r@ == ValueView::KeyRef(key@),
    {
        Value::Key(key)
    }

    /// The characters of the value, if it is a string.
    pub fn string_value(&self) -> (r: Option<&str>)
        ensures
            match self@ {
                ValueView::Str(s) => r is Some && r->Some_0@ == s,
                _ => r is None,
            },
    {
        match self {
            Value::UnicodeString(s) => Some(s.as_str()),
            _ => None,
        }
    }

    /// The key held by the value, if it is a key value.
    pub fn key_value(&self) -> (r: Option<&Key>)
        ensures
            match self@ {
                ValueView::KeyRef(k) => r is Some && r->Some_0@ == k,
                _ => r is None,
            },
    {
        match self {
            Value::Key(key) => Some(key),
            _ => None,
        }
    }

    /// The bytes of the value, if it is a blob.
    pub fn blob_value(&self) -> (r: Option<&[u8]>)
        ensures
            match self@ {
                ValueView::Blob(b) => r is Some && r->Some_0@ == b,
                _ => r is None,
            },
    {
        match self {
            Value::Blob(bytes) => Some(bytes.as_slice()),
            _ => None,
        }
    }

    /// True exactly when the value is null.
    pub fn is_null(&self) -> (r: bool)
        ensures
            r == (self@ is Null),
    {
        matches!(self, Value::Null)
    }
}

/// The mathematical shape of a [`PropertyValue`].
pub struct PropView {
    pub value: ValueView,
    pub indexed: bool,
    pub meaning: Option<i32>,
}

/// A single named property's payload: its value, whether the property is
/// indexed, and an optional `meaning` hint for older clients.
#[derive(Debug, PartialEq)]
pub struct PropertyValue {
    value: Value,
    indexed: bool,
    meaning: Option<i32>,
}

impl View for PropertyValue {
    type V = PropView;

    closed spec fn view(&self) -> PropView {
        PropView { value: self.value@, indexed: self.indexed, meaning: self.meaning }
    }
}

impl Clone for PropertyValue {
    fn clone(&self) -> (r: Self)
        ensures
            r@ == self@,
    {
        PropertyValue { value: self.value.clone(), indexed: self.indexed, meaning: self.meaning }
    }
}

impl PropertyValue {
    /// Builds a property payload from its parts.
    pub fn new(value: Value, indexed: bool, meaning: Option<i32>) -> (r: Self)
        ensures
            r@ == (PropView { value: value@, indexed, meaning }),
    {
        PropertyValue { value, indexed, meaning }
    }

    /// The raw value held by the property.
    pub fn value(&self) -> (r: &Value)
        ensures
            r@ == self@.value,
    {
        &self.value
    }

    /// True when the property is indexed.
    pub fn is_indexed(&self) -> (r: bool)
        ensures
            r == self@.indexed,
    {
        self.indexed
    }

    /// The optional integer meaning hint of the property.
    pub fn meaning(&self) -> (r: Option<i32>)
        ensures
            r == self@.meaning,
    {
        self.meaning
    }
}

/// True when no two entries of the association list share a name.
pub open spec fn assoc_unique<T>(s: Seq<(String, T)>) -> bool {
    forall|i: int, j: int|
        #![trigger s[i], s[j]]
        0 <= i < j < s.len() ==> s[i].0@ != s[j].0@
}

/// The mapping an association list denotes; a later entry wins over an
/// earlier one with the same name.
pub open spec fn assoc_map<T: View>(s: Seq<(String, T)>) -> Map<Seq<char>, T::V>
    decreases s.len(),
{
    if s.len() == 0 {
        Map::<Seq<char>, T::V>::empty()
    } else {
        assoc_map(s.drop_last()).insert(s.last().0@, s.last().1@)
    }
}

/// How lookup in the denoted mapping relates to the entries of an
/// association list with unique names.
pub proof fn lemma_assoc_map_get<T: View>(s: Seq<(String, T)>, n: Seq<char>)
    requires
        assoc_unique(s),
    ensures
        assoc_map(s).contains_key(n) <==> (exists|i: int|
            0 <= i < s.len() && (#[trigger] s[i]).0@ == n),
        forall|i: int| 0 <= i < s.len() && (#[trigger] s[i]).0@ == n ==> assoc_map(s)[n] == s[i].1@,
    decreases s.len(),
{
    if s.len() > 0 {
        assert(assoc_unique(s.drop_last()));
        lemma_assoc_map_get(s.drop_last(), n);
        assert(forall|i: int|
            0 <= i < s.len() - 1 ==> (#[trigger] s[i]) == s.drop_last()[i]);
        if s.last().0@ == n {
            assert(s[s.len() - 1].0@ == n);
        } else {
            if exists|i: int| 0 <= i < s.len() && (#[trigger] s[i]).0@ == n {
                let i = choose|i: int| 0 <= i < s.len() && (#[trigger] s[i]).0@ == n;
                assert(i < s.len() - 1);
                assert(s.drop_last()[i].0@ == n);
            }
        }
    }
}

/// Appending a fresh entry inserts its pair into the denoted mapping.
pub proof fn lemma_assoc_map_push<T: View>(s: Seq<(String, T)>, p: (String, T))
    ensures
        assoc_map(s.push(p)) == assoc_map(s).insert(p.0@, p.1@),
        assoc_unique(s) && (forall|i: int|
            0 <= i < s.len() ==> (#[trigger] s[i]).0@ != p.0@) ==> assoc_unique(s.push(p)),
{
    assert(s.push(p).drop_last() =~= s);
    assert(s.push(p).last() == p);
    if assoc_unique(s) && (forall|i: int| 0 <= i < s.len() ==> (#[trigger] s[i]).0@ != p.0@) {
        assert forall|i: int, j: int|
            0 <= i < j < s.push(p).len() implies (#[trigger] s.push(p)[i]).0@ != (#[trigger] s.push(
            p,
        )[j]).0@ by {
            if j < s.len() {
                assert(s.push(p)[i] == s[i] && s.push(p)[j] == s[j]);
            } else {
                assert(s.push(p)[i] == s[i] && s.push(p)[j] == p);
            }
        }
    }
}

/// Overwriting the entry that holds a name updates the denoted mapping at
/// that name.
pub proof fn lemma_assoc_map_update<T: View>(s: Seq<(String, T)>, i: int, p: (String, T))
    requires
        assoc_unique(s),
        0 <= i < s.len(),
        s[i].0@ == p.0@,
    ensures
        assoc_map(s.update(i, p)) == assoc_map(s).insert(p.0@, p.1@),
        assoc_unique(s.update(i, p)),
    decreases s.len(),
{
    let t = s.update(i, p);
    assert forall|a: int, b: int| 0 <= a < b < t.len() implies (#[trigger] t[a]).0@ != (
    #[trigger] t[b]).0@ by {
        assert(s[a].0@ != s[b].0@);
    }
    if i == s.len() - 1 {
        assert(t.drop_last() =~= s.drop_last());
        assert(t.last() == p);
        assert(assoc_map(t) == assoc_map(s.drop_last()).insert(p.0@, p.1@));
        assert(assoc_map(s).insert(p.0@, p.1@) =~= assoc_map(s.drop_last()).insert(p.0@, p.1@));
    } else {
        assert(t.drop_last() =~= s.drop_last().update(i, p));
        assert(t.last() == s.last());
        assert(assoc_unique(s.drop_last()));
        assert(s.drop_last()[i] == s[i]);
        lemma_assoc_map_update(s.drop_last(), i, p);
        assert(s.last().0@ != p.0@);
        assert(assoc_map(t) == assoc_map(s.drop_last()).insert(p.0@, p.1@).insert(
            s.last().0@,
            s.last().1@,
        ));
        assert(assoc_map(s).insert(p.0@, p.1@) =~= assoc_map(s.drop_last()).insert(
            p.0@,
            p.1@,
        ).insert(s.last().0@, s.last().1@));
    }
}

/// Two association lists with pointwise equal names and views denote the
/// same mapping.
pub proof fn lemma_assoc_map_congruence<T: View>(a: Seq<(String, T)>, b: Seq<(String, T)>)
    requires
        a.len() == b.len(),
        forall|i: int|
            0 <= i < a.len() ==> (#[trigger] a[i]).0@ == b[i].0@ && a[i].1@ == b[i].1@,
    ensures
        assoc_map(a) == assoc_map(b),
        assoc_unique(a) == assoc_unique(b),
    decreases a.len(),
{
    if a.len() > 0 {
        assert(forall|i: int|
            0 <= i < a.len() - 1 ==> (#[trigger] a.drop_last()[i]) == a[i] && b.drop_last()[i]
                == b[i]);
        lemma_assoc_map_congruence(a.drop_last(), b.drop_last());
        assert(a.last() == a[a.len() - 1] && b.last() == b[a.len() - 1]);
    }
    if assoc_unique(a) {
        assert forall|i: int, j: int| 0 <= i < j < b.len() implies (#[trigger] b[i]).0@ != (
        #[trigger] b[j]).0@ by {
            assert(a[i].0@ != a[j].0@);
        }
    }
    if assoc_unique(b) {
        assert forall|i: int, j: int| 0 <= i < j < a.len() implies (#[trigger] a[i]).0@ != (
        #[trigger] a[j]).0@ by {
            assert(b[i].0@ != b[j].0@);
        }
    }
}

/// The mathematical shape of an [`Entity`]: its key path and the mapping
/// from property names to property payloads.
pub struct EntityView {
    pub key: Seq<PathElemView>,
    pub props: Map<Seq<char>, PropView>,
}

/// A record of the store: a key together with named properties.
///
/// Property names are unique within an entity; the order of the properties
/// carries no meaning.
#[derive(Debug)]
pub struct Entity {
    key: Key,
    properties: Vec<(String, PropertyValue)>,
}

impl View for Entity {
    type V = EntityView;

    closed spec fn view(&self) -> EntityView {
        EntityView { key: self.key@, props: assoc_map(self.properties@) }
    }
}

/// The normalization applied by [`Entity::set_advanced`]: an empty array is
/// treated as null.
pub open spec fn effective_of(v: ValueView) -> ValueView {
    match v {
        ValueView::Array(es) => if es.len() == 0 {
            ValueView::Null
        } else {
            v
        },
        _ => v,
    }
}

impl Clone for Entity {
    #[verifier::loop_isolation(false)]
    fn clone(&self) -> (r: Self)
        ensures
            r@ == self@,
            r.wf() == self.wf(),
    {
        let mut props: Vec<(String, PropertyValue)> = Vec::new();
        let mut i: usize = 0;
        while i < self.properties.len()
            invariant
                i <= self.properties.len(),
                props@.len() == i,
                forall|j: int|
                    0 <= j < i ==> (#[trigger] props@[j]).0@ == self.properties@[j].0@
                        && props@[j].1@ == self.properties@[j].1@,
            decreases self.properties.len() - i,
        {
            let name = self.properties[i].0.clone();
            let pv = self.properties[i].1.clone();
            props.push((name, pv));
            i = i + 1;
        }
        proof {
            lemma_assoc_map_congruence(props@, self.properties@);
        }
        Entity { key: self.key.clone(), properties: props }
    }
}

impl Entity {
    /// The entity's internal consistency: property names are unique.
    pub closed spec fn wf(&self) -> bool {
        assoc_unique(self.properties@)
    }

    /// Creates an entity with the given key and no properties.
    pub fn new(key: Key) -> (r: Self)
        ensures
            r.wf(),
            r@.key == key@,
            r@.props == Map::<Seq<char>, PropView>::empty(),
    {
        Entity { key, properties: Vec::new() }
    }

    /// Creates an entity with an incomplete key of the given kind and no
    /// properties.
    pub fn of_kind(kind: String) -> (r: Self)
        ensures
            r.wf(),
            r@.key == seq![
                PathElemView { kind: kind@, variant: KeyVariantView::Incomplete },
            ],
            r@.props == Map::<Seq<char>, PropView>::empty(),
    {
        Entity { key: Key::new(kind), properties: Vec::new() }
    }

    /// The entity's key.
    pub fn key(&self) -> (r: &Key)
        ensures
            r@ == self@.key,
    {
        &self.key
    }

    /// Consumes the entity and returns just its key.
    pub fn just_key(self) -> (r: Key)
        ensures
            r@ == self@.key,
    {
        self.key
    }

    /// The kind of the entity, read from its key.
    pub fn kind(&self) -> (r: &str)
        ensures
            r@ == self@.key.last().kind,
    {
        self.key.kind()
    }

    /// The entity's properties as name/payload pairs, in an order that
    /// carries no meaning.
    pub fn properties(&self) -> (r: &Vec<(String, PropertyValue)>)
        ensures
            assoc_map(r@) == self@.props,
            assoc_unique(r@) == self.wf(),
    {
        &self.properties
    }

    /// Replaces the entity's key.
    pub fn set_key(&mut self, key: Key)
        ensures
            final(self)@.key == key@,
            final(self)@.props == old(self)@.props,
            final(self).wf() == old(self).wf(),
    {
        self.key = key;
    }

    /// Inserts or replaces the property of the given name.
    #[verifier::loop_isolation(false)]
    pub fn set_property(&mut self, name: String, pv: PropertyValue)
        requires
            old(self).wf(),
        ensures
            final(self).wf(),
            final(self)@.key == old(self)@.key,
            final(self)@.props == old(self)@.props.insert(name@, pv@),
    {
        let mut i: usize = 0;
        while i < self.properties.len()
            invariant
                *self == *old(self),
                i <= self.properties.len(),
                forall|j: int| 0 <= j < i ==> (#[trigger] self.properties@[j]).0@ != name@,
            decreases self.properties.len() - i,
        {
            if str_eq(self.properties[i].0.as_str(), name.as_str()) {
                proof {
                    lemma_assoc_map_update(self.properties@, i as int, (name, pv));
                }
                self.properties[i] = (name, pv);
                return ;
            }
            i = i + 1;
        }
        proof {
            lemma_assoc_map_push(self.properties@, (name, pv));
        }
        self.properties.push((name, pv));
    }

    /// Sets a property with the given value, indexing flag and meaning.
    pub fn set(&mut self, name: String, value: Value, indexed: bool, meaning: Option<i32>)
        requires
            old(self).wf(),
        ensures
            final(self).wf(),
            final(self)@.key == old(self)@.key,
            final(self)@.props == old(self)@.props.insert(
                name@,
                PropView { value: value@, indexed, meaning },
            ),
    {
        let ghost vv = value@;
        self.set_property(name, PropertyValue::new(value, indexed, meaning));
    }

    /// Sets a property that is not indexed and carries no meaning.
    pub fn set_unindexed(&mut self, name: String, value: Value)
        requires
            old(self).wf(),
        ensures
            final(self).wf(),
            final(self)@.key == old(self)@.key,
            final(self)@.props == old(self)@.props.insert(
                name@,
                PropView { value: value@, indexed: false, meaning: None },
            ),
    {
        self.set(name, value, false, None);
    }

    /// Sets a property that is indexed and carries no meaning.
    pub fn set_indexed(&mut self, name: String, value: Value)
        requires
            old(self).wf(),
        ensures
            final(self).wf(),
            final(self)@.key == old(self)@.key,
            final(self)@.props == old(self)@.props.insert(
                name@,
                PropView { value: value@, indexed: true, meaning: None },
            ),
    {
        self.set(name, value, true, None);
    }

    /// Sets a property, choosing the indexing flag and the meaning from the
    /// effective value.
    ///
    /// An empty array is first coerced to null. The property is then indexed
    /// according to `index_nulls` when the effective value is null and
    /// according to `index_values` otherwise, and the `meaning` is discarded
    /// whenever the effective value is null.
    pub fn set_advanced(
        &mut self,
        name: String,
        value: Value,
        index_values: bool,
        index_nulls: bool,
        meaning: Option<i32>,
    )
        requires
            old(self).wf(),
        ensures
            final(self).wf(),
            final(self)@.key == old(self)@.key,
            final(self)@.props == old(self)@.props.insert(
                name@,
                PropView {
                    value: effective_of(value@),
                    indexed: if effective_of(value@) is Null {
                        index_nulls
                    } else {
                        index_values
                    },
                    meaning: if effective_of(value@) is Null {
                        None
                    } else {
                        meaning
                    },
                },
            ),
    {
        let ghost vv = value@;
        let effective = match value {
            Value::Array(vs) => if vs.len() == 0 {
                Value::Null
            } else {
                Value::Array(vs)
            },
            other => other,
        };
        proof {
            assert(effective@ == effective_of(vv));
        }
        let is_null = effective.is_null();
        let indexed = if is_null {
            index_nulls
        } else {
            index_values
        };
        let eff_meaning = if is_null {
            None
        } else {
            meaning
        };
        self.set(name, effective, indexed, eff_meaning);
    }

    /// The full property payload of the given name, if the entity has it.
    pub fn get(&self, name: &str) -> (r: Option<&PropertyValue>)
        requires
            self.wf(),
        ensures
            match r {
                Some(p) => self@.props.contains_key(name@) && p@ == self@.props[name@],
                None => !self@.props.contains_key(name@),
            },
    {
        proof {
            lemma_assoc_map_get(self.properties@, name@);
        }
        let mut i: usize = 0;
        while i < self.properties.len()
            invariant
                self.wf(),
                i <= self.properties.len(),
                forall|j: int| 0 <= j < i ==> (#[trigger] self.properties@[j]).0@ != name@,
                assoc_map(self.properties@) == self@.props,
                self@.props.contains_key(name@) <==> (exists|k: int|
                    0 <= k < self.properties@.len() && (#[trigger] self.properties@[k]).0@
                        == name@),
                forall|k: int|
                    0 <= k < self.properties@.len() && (#[trigger] self.properties@[k]).0@ == name@
                        ==> self@.props[name@] == self.properties@[k].1@,
            decreases self.properties.len() - i,
        {
            if str_eq(self.properties[i].0.as_str(), name) {
                return Some(&self.properties[i].1);
            }
            i = i + 1;
        }
        None
    }

    /// The raw value of the property of the given name, if the entity has it.
    pub fn get_value(&self, name: &str) -> (r: Option<&Value>)
        requires
            self.wf(),
        ensures
            match r {
                Some(v) => self@.props.contains_key(name@) && v@ == self@.props[name@].value,
                None => !self@.props.contains_key(name@),
            },
    {
        match self.get(name) {
            Some(p) => Some(p.value()),
            None => None,
        }
    }

    /// True when the entity has a property of the given name and that
    /// property is indexed.
    pub fn is_indexed(&self, name: &str) -> (r: bool)
        requires
            self.wf(),
        ensures
            r == (self@.props.contains_key(name@) && self@.props[name@].indexed),
    {
        match self.get(name) {
            Some(p) => p.is_indexed(),
            None => false,
        }
    }

    /// Moves every property of `other` into this entity, replacing
    /// properties that share a name and keeping the rest untouched.
    #[verifier::loop_isolation(false)]
    pub fn consume_properties_from(&mut self, other: Entity)
        requires
            old(self).wf(),
            other.wf(),
        ensures
            final(self).wf(),
            final(self)@.key == old(self)@.key,
            final(self)@.props == old(self)@.props.union_prefer_right(other@.props),
    {
        let mut i: usize = 0;
        let n = other.properties.len();
        proof {
            assert(other.properties@.subrange(0, 0) =~= Seq::<(String, PropertyValue)>::empty());
            assert(old(self)@.props.union_prefer_right(Map::<Seq<char>, PropView>::empty())
                =~= old(self)@.props);
        }
        while i < n
            invariant
                i <= n,
                n == other.properties@.len(),
                self.wf(),
                self@.key == old(self)@.key,
                self@.props == old(self)@.props.union_prefer_right(
                    assoc_map(other.properties@.subrange(0, i as int)),
                ),
            decreases n - i,
        {
            let name = other.properties[i].0.clone();
            let pv = other.properties[i].1.clone();
            proof {
                let pre = other.properties@.subrange(0, i as int);
                let post = other.properties@.subrange(0, i as int + 1);
                assert(post =~= pre.push(other.properties@[i as int]));
                lemma_assoc_map_push(pre, other.properties@[i as int]);
                assert(old(self)@.props.union_prefer_right(assoc_map(pre)).insert(name@, pv@)
                    =~= old(self)@.props.union_prefer_right(assoc_map(post)));
            }
            self.set_property(name, pv);
            i = i + 1;
        }
        proof {
            assert(other.properties@.subrange(0, n as int) =~= other.properties@);
        }
    }
}

} // verus!
