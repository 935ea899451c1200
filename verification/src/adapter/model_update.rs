//! A fetch–modify–commit helper that preserves properties the schema does
//! not model.

use vstd::prelude::*;

use crate::ds::entity::Entity;
use crate::error::EntailError;
use crate::error::EntailErrorKind;
use crate::schema::field_read_ok;
use crate::schema::field_readable;
use crate::schema::from_entity;
use crate::schema::key_read_ok;
use crate::schema::key_readable;
use crate::schema::schema_wf;
use crate::schema::spec_field_prop;
use crate::schema::spec_instance_key;
use crate::schema::spec_props_upto;
use crate::schema::to_entity;
use crate::schema::ModelInstance;
use crate::schema::ModelSchema;

verus! {

/// The property map a record writes under a schema.
pub open spec fn spec_model_props(s: ModelSchema, m: ModelInstance) -> Map<
    Seq<char>,
    crate::ds::entity::PropView,
> {
    spec_props_upto(s.fields@, m.fields@, s.fields@.len() as int)
}

/// A record kept in sync with the entity it was read from.
///
/// A schema need not model every property an entity holds. The update
/// helper carries both the typed record and the raw entity, so that
/// writing the record back overwrites exactly the properties the schema
/// produces and leaves every other stored property untouched.
#[derive(Debug)]
pub struct ModeledUpdate {
    /// The schema the record follows.
    pub schema: ModelSchema,
    /// The typed record; callers modify it before writing it back.
    pub model: ModelInstance,
    /// The entity as it was fetched, with every property it carried.
    pub entity: Entity,
}

impl ModeledUpdate {
    /// The helper's internal consistency.
    pub open spec fn wf(&self) -> bool {
        &&& schema_wf(self.schema)
        &&& self.model.fields@.len() == self.schema.fields@.len()
        &&& self.entity.wf()
    }

    /// Wraps a freshly fetched entity, deserializing it into a record of
    /// the schema: it succeeds exactly when the entity reads back under
    /// the schema, and the record it carries is that reading.
    pub fn new(schema: ModelSchema, entity: Entity) -> (r: Result<ModeledUpdate, EntailError>)
        requires
            schema_wf(schema),
            entity.wf(),
        ensures
            r is Ok <==> entity@.key.last().kind == schema.kind@ && key_readable(
                schema,
                entity@.key,
            ) && (forall|i: int|
                0 <= i < schema.fields@.len() ==> field_readable(
                    #[trigger] schema.fields@[i],
                    entity@.props,
                )),
            r matches Ok(mu) ==> {
                &&& mu.wf()
                &&& mu.schema == schema
                &&& mu.entity@ == entity@
                &&& key_read_ok(schema, entity@.key, mu.model.key)
                &&& forall|i: int|
                    0 <= i < schema.fields@.len() ==> field_read_ok(
                        #[trigger] schema.fields@[i],
                        entity@.props,
                        mu.model.fields@[i],
                    )
            },
            r matches Err(err) ==> err.kind == (if entity@.key.last().kind != schema.kind@ {
                EntailErrorKind::EntityKindMismatch
            } else {
                EntailErrorKind::PropertyMappingError
            }),
    {
        match from_entity(&schema, &entity) {
            Ok(model) => Ok(ModeledUpdate { schema, model, entity }),
            Err(e) => Err(e),
        }
    }

    /// Writes the record back into the carried entity.
    ///
    /// Exactly the properties the schema produces for the record are
    /// overwritten; any property present on the fetched entity but absent
    /// from the schema's output is left untouched, and the entity keeps
    /// its own key.
    pub fn update_entity(&mut self) -> (r: Result<(), EntailError>)
        requires
            old(self).wf(),
        ensures
            final(self).wf(),
            final(self).schema == old(self).schema,
            final(self).model == old(self).model,
            r is Ok <==> spec_instance_key(old(self).schema, old(self).model.key) is Some && (
            forall|i: int|
                0 <= i < old(self).schema.fields@.len() ==> spec_field_prop(
                    old(self).schema.fields@[i],
                    #[trigger] old(self).model.fields@[i],
                ) is Some),
            r is Ok ==> {
                &&& final(self).entity@.key == old(self).entity@.key
                &&& final(self).entity@.props == old(self).entity@.props.union_prefer_right(
                    spec_model_props(old(self).schema, old(self).model),
                )
            },
            r is Err ==> final(self).entity@ == old(self).entity@,
    {
        let produced = match to_entity(&self.schema, &self.model) {
            Ok(p) => p,
            Err(e) => {
                return Err(e);
            },
        };
        self.entity.consume_properties_from(produced);
        Ok(())
    }

    /// Writes the record back into the entity and returns the merged
    /// entity, consuming the helper.
    ///
    /// This is the final step of a fetch–modify–commit cycle: the result
    /// merges as [`Self::update_entity`] does and is ready for an update
    /// or upsert mutation.
    pub fn update_into_entity(self) -> (r: Result<Entity, EntailError>)
        requires
            self.wf(),
        ensures
            r is Ok <==> spec_instance_key(self.schema, self.model.key) is Some && (forall|i: int|
                0 <= i < self.schema.fields@.len() ==> spec_field_prop(
                    self.schema.fields@[i],
                    #[trigger] self.model.fields@[i],
                ) is Some),
            r matches Ok(e) ==> {
                &&& e.wf()
                &&& e@.key == self.entity@.key
                &&& e@.props == self.entity@.props.union_prefer_right(
                    spec_model_props(self.schema, self.model),
                )
                &&& forall|n: Seq<char>|
                    #![auto]
                    self.entity@.props.contains_key(n) && !spec_model_props(
                        self.schema,
                        self.model,
                    ).contains_key(n) ==> e@.props.contains_key(n) && e@.props[n]
                        == self.entity@.props[n]
            },
            r matches Err(err) ==> err.kind == EntailErrorKind::PropertyMappingError,
    {
        let ModeledUpdate { schema, model, mut entity } = self;
        let produced = match to_entity(&schema, &model) {
            Ok(p) => p,
            Err(e) => {
                return Err(e);
            },
        };
        entity.consume_properties_from(produced);
        Ok(entity)
    }
}

} // verus!
