//! Schema-bound conveniences: key and query builders for one kind, and
//! record conversion tied to a schema.

pub mod model_update;

use vstd::prelude::*;

use crate::ds::entity::Entity;
use crate::ds::entity::Key;
use crate::ds::entity::KeyVariantView;
use crate::ds::entity::PathElemView;
use crate::ds::query::Query;
use crate::error::EntailError;
use crate::error::EntailErrorKind;
use crate::schema::from_entity;
use crate::schema::key_read_ok;
use crate::schema::key_readable;
use crate::schema::field_read_ok;
use crate::schema::field_readable;
use crate::schema::ModelInstance;
use crate::schema::ModelSchema;

verus! {

/// A record type that maps to and from entities.
///
/// The library itself converts through an explicit [`ModelSchema`]; this
/// trait is the hook for callers that wrap [`crate::schema::to_entity`]
/// and [`crate::schema::from_entity`] behind their own record types.
pub trait EntityModel: Sized {
    /// Converts the record into an entity.
    fn to_ds_entity(&self) -> Result<Entity, EntailError>;

    /// Reads a record back from an entity.
    fn from_ds_entity(e: &Entity) -> Result<Self, EntailError>;
}

/// Utilities bound to one schema: key creation, a base query for the
/// schema's kind, and deserialization of fetched entities.
#[derive(Debug)]
pub struct EntityAdapter {
    /// The schema the adapter works with.
    pub schema: ModelSchema,
}

impl EntityAdapter {
    /// Creates an adapter for a schema.
    pub fn new(schema: ModelSchema) -> (r: Self)
        ensures
            r.schema == schema,
    {
        EntityAdapter { schema }
    }

    /// The kind the adapter's schema maps.
    pub fn kind(&self) -> (r: &str)
        ensures
            r@ == self.schema.kind@,
    {
        self.schema.kind.as_str()
    }

    /// A new incomplete key of the schema's kind.
    pub fn create_key(&self) -> (r: Key)
        ensures
            r@ == seq![
                PathElemView { kind: self.schema.kind@, variant: KeyVariantView::Incomplete },
            ],
    {
        Key::new(self.schema.kind.clone())
    }

    /// A new key of the schema's kind with a string name component.
    pub fn create_named_key(&self, name: String) -> (r: Key)
        ensures
            r@ == seq![
                PathElemView { kind: self.schema.kind@, variant: KeyVariantView::Name(name@) },
            ],
    {
        let r = self.create_key().with_name(name);
        proof {
            assert(r@ =~= seq![
                PathElemView {
                    kind: self.schema.kind@,
                    variant: KeyVariantView::Name(name@),
                },
            ]);
        }
        r
    }

    /// A new key of the schema's kind with an integer id component.
    pub fn create_id_key(&self, id: i64) -> (r: Key)
        ensures
            r@ == seq![
                PathElemView { kind: self.schema.kind@, variant: KeyVariantView::Id(id) },
            ],
    {
        let r = self.create_key().with_id(id);
        proof {
            assert(r@ =~= seq![
                PathElemView { kind: self.schema.kind@, variant: KeyVariantView::Id(id) },
            ]);
        }
        r
    }

    /// A base query for the schema's kind, with the default constraints.
    pub fn query(&self) -> (r: Query)
        ensures
            r.kind@ == self.schema.kind@,
            r.filter is None,
            r.limit == 1000,
            r.offset == 0,
    {
        let mut q = Query::default();
        q.kind = self.schema.kind.clone();
        q
    }

    /// Deserializes a fetched entity into a record, consuming the entity.
    pub fn consume_entity(&self, entity: Entity) -> (r: Result<ModelInstance, EntailError>)
        requires
            entity.wf(),
        ensures
            r is Ok <==> entity@.key.last().kind == self.schema.kind@ && key_readable(
                self.schema,
                entity@.key,
            ) && (forall|i: int|
                0 <= i < self.schema.fields@.len() ==> field_readable(
                    #[trigger] self.schema.fields@[i],
                    entity@.props,
                )),
            r matches Ok(inst) ==> {
                &&& inst.fields@.len() == self.schema.fields@.len()
                &&& key_read_ok(self.schema, entity@.key, inst.key)
                &&& forall|i: int|
                    0 <= i < self.schema.fields@.len() ==> field_read_ok(
                        #[trigger] self.schema.fields@[i],
                        entity@.props,
                        inst.fields@[i],
                    )
            },
    {
        from_entity(&self.schema, &entity)
    }

    /// Escalates the absence of a required entity to an error naming the
    /// key that found nothing, and deserializes the entity when it is
    /// there: the one place where "not found" is more than an empty
    /// result.
    pub fn required_from(&self, key: &Key, entity: Option<Entity>) -> (r: Result<
        ModelInstance,
        EntailError,
    >)
        requires
            entity matches Some(e) ==> e.wf(),
        ensures
            entity is None ==> (r matches Err(err) && err.kind
                == EntailErrorKind::RequiredEntityNotFound && err.message@ == "Required "@
                + crate::ds::entity::key_text_of(key@) + " not found"@),
            entity matches Some(e) ==> (r is Ok <==> e@.key.last().kind == self.schema.kind@
                && key_readable(self.schema, e@.key) && (forall|i: int|
                0 <= i < self.schema.fields@.len() ==> field_readable(
                    #[trigger] self.schema.fields@[i],
                    e@.props,
                ))),
    {
        match entity {
            None => {
                let message = "Required ".to_owned().concat(key.to_text().as_str()).concat(
                    " not found",
                );
                Err(EntailError::simple(EntailErrorKind::RequiredEntityNotFound, message))
            },
            Some(e) => self.consume_entity(e),
        }
    }
}

} // verus!
