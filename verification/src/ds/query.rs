//! Queries: kind, filter tree, ordering, projection, pagination — and their
//! wire form.

use vstd::prelude::*;

use crate::ds::entity::Value;
use crate::ds::entity::ValueView;
use crate::ds::wire::payload_of_value;
use crate::ds::wire::value_to_payload;
use crate::ds::wire::WireValue;
use crate::ds::wire::WireValueView;

verus! {

/// One page of query results: the items of the page and the cursor at
/// which the next page starts.
#[derive(Debug)]
pub struct QueryResult<T> {
    /// The items returned for this page.
    pub items: Vec<T>,
    /// The opaque cursor marking the end of this page; querying again from
    /// it continues the result stream.
    pub end_cursor: Option<Vec<u8>>,
}

impl<T> QueryResult<T> {
    /// Builds a page from its items and cursor.
    pub fn new(items: Vec<T>, end_cursor: Option<Vec<u8>>) -> (r: Self)
        ensures
            r.items == items,
            r.end_cursor == end_cursor,
    {
        QueryResult { items, end_cursor }
    }

    /// Consumes the page and transforms each item with `f`, keeping the
    /// cursor.
    pub fn map<U, F: Fn(T) -> U>(self, f: F) -> (r: QueryResult<U>)
        requires
            forall|t: T| call_requires(f, (t,)),
        ensures
            r.items@.len() == self.items@.len(),
            forall|i: int|
                0 <= i < self.items@.len() ==> call_ensures(
                    f,
                    (self.items@[i],),
                    #[trigger] r.items@[i],
                ),
            r.end_cursor == self.end_cursor,
    {
        let QueryResult { mut items, end_cursor } = self;
        let ghost orig = items@;
        let mut out: Vec<U> = Vec::new();
        while items.len() > 0
            invariant
                forall|t: T| call_requires(f, (t,)),
                out@.len() + items@.len() == orig.len(),
                items@ == orig.subrange(out@.len() as int, orig.len() as int),
                forall|j: int|
                    0 <= j < out@.len() ==> call_ensures(f, (orig[j],), #[trigger] out@[j]),
            decreases items@.len(),
        {
            let t = items.remove(0);
            proof {
                assert(t == orig[out@.len() as int]);
            }
            out.push(f(t));
            proof {
                assert(items@ =~= orig.subrange(out@.len() as int, orig.len() as int));
            }
        }
        QueryResult { items: out, end_cursor }
    }

    /// Transforms each item of the page with `f` without consuming the
    /// page, cloning the cursor.
    pub fn map_ref<'a, U, F: Fn(&'a T) -> U>(&'a self, f: F) -> (r: QueryResult<U>)
        requires
            forall|t: &'a T| call_requires(f, (t,)),
        ensures
            r.items@.len() == self.items@.len(),
            forall|i: int|
                0 <= i < self.items@.len() ==> call_ensures(
                    f,
                    (&self.items@[i],),
                    #[trigger] r.items@[i],
                ),
            match (r.end_cursor, self.end_cursor) {
                (Some(a), Some(b)) => a@ == b@,
                (None, None) => true,
                _ => false,
            },
    {
        let mut out: Vec<U> = Vec::new();
        let mut i: usize = 0;
        while i < self.items.len()
            invariant
                forall|t: &'a T| call_requires(f, (t,)),
                i <= self.items@.len(),
                out@.len() == i,
                forall|j: int|
                    0 <= j < i ==> call_ensures(f, (&self.items@[j],), #[trigger] out@[j]),
            decreases self.items@.len() - i,
        {
            let item_ref = &self.items[i];
            let u = f(item_ref);
            out.push(u);
            proof {
                assert(call_ensures(f, (item_ref,), out@[i as int]));
            }
            i = i + 1;
        }
        let end_cursor = match &self.end_cursor {
            Some(c) => Some(c.clone()),
            None => None,
        };
        QueryResult { items: out, end_cursor }
    }
}

/// The logical operator combining the parts of a composite filter. The
/// store supports only conjunction.
#[derive(Clone, Copy, Debug, PartialEq, Eq, Structural)]
pub enum CompositeFilterOperator {
    And,
}

/// The comparison operator of a property filter.
#[derive(Clone, Copy, Debug, PartialEq, Eq, Structural)]
pub enum FilterOperator {
    LessThan,
    LessThanOrEqual,
    GreaterThan,
    GreaterThanOrEqual,
    Equal,
    In,
    NotEqual,
    HasAncestor,
    NotIn,
}

/// The direction in which to order query results.
#[derive(Clone, Copy, Debug, PartialEq, Eq, Structural)]
pub enum OrderDirection {
    /// Ascending order; the store's default.
    ASCENDING,
    /// Descending order.
    DESCENDING,
}

impl CompositeFilterOperator {
    /// The operator's name on the wire.
    pub fn wire_name(&self) -> (r: &'static str)
        ensures
            r@ == "AND"@,
    {
        "AND"
    }
}

impl FilterOperator {
    /// The operator's name on the wire.
    pub fn wire_name(&self) -> (r: &'static str)
        ensures
            r@ == filter_operator_name(*self),
    {
        match self {
            FilterOperator::LessThan => "LESS_THAN",
            FilterOperator::LessThanOrEqual => "LESS_THAN_OR_EQUAL",
            FilterOperator::GreaterThan => "GREATER_THAN",
            FilterOperator::GreaterThanOrEqual => "GREATER_THAN_OR_EQUAL",
            FilterOperator::Equal => "EQUAL",
            FilterOperator::In => "IN",
            FilterOperator::NotEqual => "NOT_EQUAL",
            FilterOperator::HasAncestor => "HAS_ANCESTOR",
            FilterOperator::NotIn => "NOT_IN",
        }
    }

    /// Builds a property filter that compares the named property to the
    /// given value with this operator.
    pub fn of(self, property_name: String, value: Value) -> (r: Filter)
        ensures
            r@ == (FilterView::Property(property_name@, self, value@)),
    {
        Filter::Property(property_name, self, value)
    }
}

/// The wire name of a comparison operator.
pub open spec fn filter_operator_name(op: FilterOperator) -> Seq<char> {
    match op {
        FilterOperator::LessThan => "LESS_THAN"@,
        FilterOperator::LessThanOrEqual => "LESS_THAN_OR_EQUAL"@,
        FilterOperator::GreaterThan => "GREATER_THAN"@,
        FilterOperator::GreaterThanOrEqual => "GREATER_THAN_OR_EQUAL"@,
        FilterOperator::Equal => "EQUAL"@,
        FilterOperator::In => "IN"@,
        FilterOperator::NotEqual => "NOT_EQUAL"@,
        FilterOperator::HasAncestor => "HAS_ANCESTOR"@,
        FilterOperator::NotIn => "NOT_IN"@,
    }
}

/// The mathematical shape of a [`Filter`].
pub enum FilterView {
    Composite(CompositeFilterOperator, Seq<FilterView>),
    Property(Seq<char>, FilterOperator, ValueView),
}

/// A constraint on the entities a query returns: either a single
/// property-to-value comparison or a conjunction of sub-filters.
#[derive(Debug)]
pub enum Filter {
    /// A combination of sub-filters under a logical operator.
    Composite(CompositeFilterOperator, Vec<Filter>),
    /// A comparison of the named property to a value.
    Property(String, FilterOperator, Value),
}

/// The view of a [`Filter`].
pub open spec fn filter_view(f: Filter) -> FilterView
    decreases f,
{
    match f {
        Filter::Composite(op, fs) => FilterView::Composite(
            op,
            Seq::new(fs.len() as nat, |i: int| if 0 <= i < fs.len() {
                filter_view(fs[i])
            } else {
                FilterView::Composite(CompositeFilterOperator::And, Seq::empty())
            }),
        ),
        Filter::Property(name, op, v) => FilterView::Property(name@, op, v@),
    }
}

impl View for Filter {
    type V = FilterView;

    open spec fn view(&self) -> FilterView {
        filter_view(*self)
    }
}

impl Filter {
    /// Combines filters with logical conjunction: no filters yield no
    /// filter, a single filter is returned unwrapped, and two or more are
    /// wrapped in a composite conjunction.
    pub fn and(filters: Vec<Filter>) -> (r: Option<Filter>)
        ensures
            filters@.len() == 0 ==> r is None,
            filters@.len() == 1 ==> (r matches Some(f) && f == filters@[0]),
            filters@.len() > 1 ==> (r matches Some(f) && f == Filter::Composite(
                CompositeFilterOperator::And,
                filters,
            )),
    {
        if filters.is_empty() {
            None
        } else if filters.len() == 1 {
            let mut filters = filters;
            let f = filters.remove(0);
            Some(f)
        } else {
            Some(Filter::Composite(CompositeFilterOperator::And, filters))
        }
    }
}

/// A single property to order results by, with its direction.
#[derive(Clone, Debug)]
pub struct PropertyOrder {
    /// The name of the property to order by.
    pub name: String,
    /// The direction of the sort.
    pub direction: OrderDirection,
}

impl PropertyOrder {
    /// Builds a property order from its parts.
    pub fn new(name: String, direction: OrderDirection) -> (r: Self)
        ensures
            r.name@ == name@,
            r.direction == direction,
    {
        PropertyOrder { name, direction }
    }
}

/// A query over the entities of one kind.
#[derive(Debug)]
pub struct Query {
    /// The kind to query; an empty string queries entities of every kind.
    pub kind: String,
    /// An optional constraint on the returned entities.
    pub filter: Option<Filter>,
    /// The cursor to start from, for pagination.
    pub start_cursor: Option<Vec<u8>>,
    /// The cursor to stop at.
    pub end_cursor: Option<Vec<u8>>,
    /// The property names to project on; a projection query returns only
    /// these properties.
    pub projection: Vec<String>,
    /// The property names to return distinct combinations of.
    pub distinct_on: Vec<String>,
    /// The orders to sort the results by, in significance order.
    pub order: Vec<PropertyOrder>,
    /// The greatest number of results to return; zero means no limit, which
    /// callers should never rely on.
    pub limit: i32,
    /// The number of results to skip; cursors paginate more cheaply.
    pub offset: i32,
}

impl Default for Query {
    /// A kindless query with no constraints and a limit of one thousand
    /// results.
    fn default() -> (r: Self)
        ensures
            r.kind@ == Seq::<char>::empty(),
            r.filter is None,
            r.start_cursor is None,
            r.end_cursor is None,
            r.projection@.len() == 0,
            r.distinct_on@.len() == 0,
            r.order@.len() == 0,
            r.limit == 1000,
            r.offset == 0,
    {
        Query {
            kind: String::new(),
            filter: None,
            start_cursor: None,
            end_cursor: None,
            projection: Vec::new(),
            distinct_on: Vec::new(),
            order: Vec::new(),
            limit: 1000,
            offset: 0,
        }
    }
}

/// The mathematical shape of a [`WireFilter`].
pub enum WireFilterView {
    Composite { op: Seq<char>, filters: Seq<WireFilterView> },
    Property { property: Seq<char>, op: Seq<char>, value: WireValueView },
}

/// A filter in wire form: operators carried as their wire names, values as
/// wire values.
#[derive(Debug)]
pub enum WireFilter {
    Composite { op: String, filters: Vec<WireFilter> },
    Property { property: String, op: String, value: WireValue },
}

/// The view of a [`WireFilter`].
pub open spec fn wire_filter_view(f: WireFilter) -> WireFilterView
    decreases f,
{
    match f {
        WireFilter::Composite { op, filters } => WireFilterView::Composite {
            op: op@,
            filters: Seq::new(filters.len() as nat, |i: int| if 0 <= i < filters.len() {
                wire_filter_view(filters[i])
            } else {
                WireFilterView::Composite { op: Seq::empty(), filters: Seq::empty() }
            }),
        },
        WireFilter::Property { property, op, value } => WireFilterView::Property {
            property: property@,
            op: op@,
            value: value@,
        },
    }
}

impl View for WireFilter {
    type V = WireFilterView;

    open spec fn view(&self) -> WireFilterView {
        wire_filter_view(*self)
    }
}

/// The wire form of a filter: operators become their wire names and each
/// compared value becomes a bare wire value.
pub open spec fn wire_of_filter(f: FilterView) -> WireFilterView
    decreases f,
{
    match f {
        FilterView::Composite(op, fs) => WireFilterView::Composite {
            op: "AND"@,
            filters: Seq::new(fs.len(), |i: int| if 0 <= i < fs.len() {
                wire_of_filter(fs[i])
            } else {
                WireFilterView::Composite { op: Seq::empty(), filters: Seq::empty() }
            }),
        },
        FilterView::Property(name, op, v) => WireFilterView::Property {
            property: name,
            op: filter_operator_name(op),
            value: WireValueView { meaning: None, exclude: None, payload: payload_of_value(v) },
        },
    }
}

/// Encodes a filter in wire form.
#[verifier::loop_isolation(false)]
pub fn filter_to_wire(f: &Filter) -> (r: WireFilter)
    ensures
        r@ == wire_of_filter(f@),
    decreases *f,
{
    match f {
        Filter::Property(name, op, v) => WireFilter::Property {
            property: name.clone(),
            op: op.wire_name().to_owned(),
            value: WireValue {
                meaning: None,
                exclude_from_indexes: None,
                payload: value_to_payload(v),
            },
        },
        Filter::Composite(op, fs) => {
            proof {
                assert(decreases_to!(*f => *fs));
            }
            let mut out: Vec<WireFilter> = Vec::new();
            let mut i: usize = 0;
            while i < fs.len()
                invariant
                    *f == Filter::Composite(*op, *fs),
                    i <= fs.len(),
                    out@.len() == i,
                    forall|j: int|
                        0 <= j < i ==> (#[trigger] out@[j])@ == wire_of_filter(filter_view(
                            fs@[j],
                        )),
                decreases fs.len() - i,
            {
                proof {
                    vstd::std_specs::vec::axiom_vec_index_decreases(*fs, i as int);
                    assert(decreases_to!(*f => fs@[i as int]));
                }
                let w = filter_to_wire(&fs[i]);
                out.push(w);
                i = i + 1;
            }
            let r = WireFilter::Composite { op: "AND".to_owned(), filters: out };
            proof {
                assert(r@ matches WireFilterView::Composite { op: o, filters: ws } && o == "AND"@
                    && ws =~= wire_of_filter(f@)->Composite_filters);
            }
            r
        },
    }
}

/// A query in wire form: the kind as a list that is empty for a kindless
/// query, and operators and directions as their wire names.
#[derive(Debug)]
pub struct WireQuery {
    pub kind: Vec<String>,
    pub filter: Option<WireFilter>,
    pub start_cursor: Option<Vec<u8>>,
    pub end_cursor: Option<Vec<u8>>,
    pub projection: Vec<String>,
    pub distinct_on: Vec<String>,
    pub order: Vec<(String, String)>,
    pub limit: Option<i32>,
    pub offset: Option<i32>,
}

/// The wire name of an order direction.
pub open spec fn direction_name(d: OrderDirection) -> Seq<char> {
    match d {
        OrderDirection::ASCENDING => "ASCENDING"@,
        OrderDirection::DESCENDING => "DESCENDING"@,
    }
}

impl OrderDirection {
    /// The direction's name on the wire.
    pub fn wire_name(&self) -> (r: &'static str)
        ensures
            r@ == direction_name(*self),
    {
        match self {
            OrderDirection::ASCENDING => "ASCENDING",
            OrderDirection::DESCENDING => "DESCENDING",
        }
    }
}

/// Encodes a query in wire form, consuming it.
#[verifier::loop_isolation(false)]
pub fn query_to_wire(q: Query) -> (r: WireQuery)
    ensures
        q.kind@.len() == 0 ==> r.kind@.len() == 0,
        q.kind@.len() > 0 ==> r.kind@.len() == 1 && r.kind@[0]@ == q.kind@,
        match (q.filter, r.filter) {
            (Some(f), Some(w)) => w@ == wire_of_filter(f@),
            (None, None) => true,
            _ => false,
        },
        r.start_cursor == q.start_cursor,
        r.end_cursor == q.end_cursor,
        r.projection == q.projection,
        r.distinct_on == q.distinct_on,
        r.order@.len() == q.order@.len(),
        forall|i: int|
            0 <= i < q.order@.len() ==> (#[trigger] r.order@[i]).0@ == q.order@[i].name@
                && r.order@[i].1@ == direction_name(q.order@[i].direction),
        r.limit == Some(q.limit),
        r.offset == Some(q.offset),
{
    let kind = if q.kind.as_str().is_empty() {
        Vec::new()
    } else {
        let mut v: Vec<String> = Vec::new();
        v.push(q.kind);
        v
    };
    let filter = match &q.filter {
        Some(f) => Some(filter_to_wire(f)),
        None => None,
    };
    let mut order: Vec<(String, String)> = Vec::new();
    let mut i: usize = 0;
    while i < q.order.len()
        invariant
            i <= q.order@.len(),
            order@.len() == i,
            forall|j: int|
                0 <= j < i ==> (#[trigger] order@[j]).0@ == q.order@[j].name@ && order@[j].1@
                    == direction_name(q.order@[j].direction),
        decreases q.order@.len() - i,
    {
        let name = q.order[i].name.clone();
        let dir = q.order[i].direction.wire_name().to_owned();
        order.push((name, dir));
        i = i + 1;
    }
    WireQuery {
        kind,
        filter,
        start_cursor: q.start_cursor,
        end_cursor: q.end_cursor,
        projection: q.projection,
        distinct_on: q.distinct_on,
        order,
        limit: Some(q.limit),
        offset: Some(q.offset),
    }
}

} // verus!
