//! Objects and their properties. An object is a type in the store; what it
//! holds is kept beside the store, in the information of the running context.

use std::collections::HashMap;
use vstd::prelude::*;
use crate::ids::{SpanWithSource, TypeId, MAX_TYPE_COUNT};
use crate::properties::{
    properties_view, property_view, Logical, LogicalOrValid, MissingProperty, Properties,
    Property, PropertyKey, PropertyKeyView, PropertyValue, PropertyView, Publicity,
};
use crate::store::TypeStore;
use crate::types::{ObjectNature, Type};

verus! {

/// What is known of the objects of one context.
#[derive(Debug)]
pub struct LocalInformation {
    /// The prototype of each object that has one.
    pub(crate) prototypes: HashMap<TypeId, TypeId>,
    /// The properties of each object, in the order they were defined.
    pub(crate) current_properties: HashMap<TypeId, Properties>,
}

/// What a [`LocalInformation`] holds, as mathematical values.
pub struct LocalInformationView {
    pub prototypes: Map<TypeId, TypeId>,
    pub properties: Map<TypeId, Seq<PropertyView>>,
}

impl LocalInformationView {
    /// The properties defined on `on`, oldest first. An object that nothing
    /// was defined on has none.
    pub open spec fn properties_of(self, on: TypeId) -> Seq<PropertyView> {
        if self.properties.contains_key(on) {
            self.properties[on]
        } else {
            Seq::empty()
        }
    }

    /// The information after `property` was defined on `on`.
    pub open spec fn define(self, on: TypeId, property: PropertyView) -> LocalInformationView {
        LocalInformationView {
            prototypes: self.prototypes,
            properties: self.properties.insert(on, self.properties_of(on).push(property)),
        }
    }

    /// The information after each of `properties` was defined on `on`, in turn.
    pub open spec fn define_all(
        self,
        on: TypeId,
        properties: Seq<PropertyView>,
    ) -> LocalInformationView
        decreases properties.len(),
    {
        if properties.len() == 0 {
            self
        } else {
            self.define_all(on, properties.drop_last()).define(on, properties.last())
        }
    }

    /// The information after a new object `object` was given `prototype`.
    pub open spec fn with_prototype(
        self,
        object: TypeId,
        prototype: Option<TypeId>,
    ) -> LocalInformationView {
        match prototype {
            Some(prototype) => LocalInformationView {
                prototypes: self.prototypes.insert(object, prototype),
                properties: self.properties,
            },
            None => self,
        }
    }
}

impl View for LocalInformation {
    type V = LocalInformationView;

    closed spec fn view(&self) -> LocalInformationView {
        LocalInformationView {
            prototypes: self.prototypes@,
            properties: Map::new(
                |on: TypeId| self.current_properties@.contains_key(on),
                |on: TypeId| properties_view(self.current_properties@[on]@),
            ),
        }
    }
}

/// The value last defined under `under` with publicity `publicity`, if any.
pub open spec fn last_defined(
    properties: Seq<PropertyView>,
    publicity: Publicity,
    under: PropertyKeyView,
) -> Option<PropertyValue>
    decreases properties.len(),
{
    if properties.len() == 0 {
        None
    } else {
        let (its_publicity, key, value) = properties.last();
        if its_publicity == publicity && key == under {
            Some(value)
        } else {
            last_defined(properties.drop_last(), publicity, under)
        }
    }
}

impl LocalInformation {
    pub fn new() -> (info: Self)
        ensures
            info@.prototypes == Map::<TypeId, TypeId>::empty(),
            info@.properties == Map::<TypeId, Seq<PropertyView>>::empty(),
    {
        let info = LocalInformation {
            prototypes: HashMap::new(),
            current_properties: HashMap::new(),
        };
        info
    }

    /// Registers a new object and records its prototype.
    pub fn new_object(
        &mut self,
        prototype: Option<TypeId>,
        types: &mut TypeStore,
        position: SpanWithSource,
    ) -> (object: TypeId)
        requires
            old(types).wf(),
            old(types)@.types.len() < MAX_TYPE_COUNT,
        ensures
            final(types).wf(),
            final(types)@ == old(types)@.register(Type::Object(ObjectNature::RealDeal)),
            object as int == old(types)@.types.len(),
            final(self)@ == old(self)@.with_prototype(object, prototype),
    {
        broadcast use vstd::std_specs::hash::group_hash_axioms;

        let object = types.register_type(Type::Object(ObjectNature::RealDeal));
        if let Some(prototype) = prototype {
            self.prototypes.insert(object, prototype);
        }
        object
    }

    /// Defines a property on `on`, after those that it has.
    pub fn register_property(
        &mut self,
        on: TypeId,
        publicity: Publicity,
        under: PropertyKey,
        value: PropertyValue,
        position: SpanWithSource,
    )
        ensures
            final(self)@ == old(self)@.define(on, (publicity, under@, value)),
    {
        broadcast use vstd::std_specs::hash::group_hash_axioms;

        let mut properties = match self.current_properties.remove(&on) {
            Some(properties) => properties,
            None => Vec::new(),
        };
        let ghost before = properties@;
        properties.push((publicity, under, value));
        assert(properties_view(properties@) =~= properties_view(before).push(
            (publicity, under@, value),
        ));
        assert(properties_view(Seq::<Property>::empty()) =~= Seq::<PropertyView>::empty());
        self.current_properties.insert(on, properties);
        assert(self@.properties =~= old(self)@.define(on, (publicity, under@, value)).properties);
    }

    /// The prototype that was recorded for `object`.
    pub fn get_prototype(&self, object: TypeId) -> (prototype: Option<TypeId>)
        ensures
            prototype == if self@.prototypes.contains_key(object) {
                Some(self@.prototypes[object])
            } else {
                None
            },
    {
        broadcast use vstd::std_specs::hash::group_hash_axioms;

        match self.prototypes.get(&object) {
            Some(prototype) => Some(*prototype),
            None => None,
        }
    }

    /// How many properties were defined on `on`.
    pub fn count_of_properties(&self, on: TypeId) -> (count: usize)
        ensures
            count == self@.properties_of(on).len(),
    {
        broadcast use vstd::std_specs::hash::group_hash_axioms;

        match self.current_properties.get(&on) {
            Some(properties) => properties.len(),
            None => 0,
        }
    }

    /// The property that was defined on `on` as the `index`-th, counting from zero.
    pub fn get_property_at(&self, on: TypeId, index: usize) -> (property: &Property)
        requires
            index < self@.properties_of(on).len(),
        ensures
            property_view(*property) == self@.properties_of(on)[index as int],
    {
        broadcast use vstd::std_specs::hash::group_hash_axioms;

        let properties = self.current_properties.get(&on).unwrap();
        &properties[index]
    }

    /// The value last defined on `on` under `under` with publicity
    /// `publicity`. Prototypes are not searched.
    pub fn get_own_property(&self, on: TypeId, publicity: Publicity, under: &PropertyKey) -> (value:
        Option<PropertyValue>)
        ensures
            value == last_defined(self@.properties_of(on), publicity, under@),
    {
        broadcast use vstd::std_specs::hash::group_hash_axioms;

        match self.current_properties.get(&on) {
            Some(properties) => {
                let mut idx: usize = properties.len();
                let ghost all = properties_view(properties@);
                assert(all.take(idx as int) =~= all);
                while idx > 0
                    invariant
                        idx <= properties@.len(),
                        all == properties_view(properties@),
                        all == self@.properties_of(on),
                        last_defined(all, publicity, under@) == last_defined(
                            all.take(idx as int),
                            publicity,
                            under@,
                        ),
                    decreases idx,
                {
                    idx -= 1;
                    assert(all.take(idx + 1).drop_last() =~= all.take(idx as int));
                    let property = &properties[idx];
                    if property.0 == publicity && property.1.is_same_as(under) {
                        return Some(property.2);
                    }
                }
                None
            },
            None => None,
        }
    }
}

/// The context that types are synthesised in.
#[derive(Debug)]
pub struct Environment {
    pub info: LocalInformation,
}

impl Environment {
    pub fn new() -> (environment: Self)
        ensures
            environment.info@.prototypes == Map::<TypeId, TypeId>::empty(),
            environment.info@.properties == Map::<TypeId, Seq<PropertyView>>::empty(),
    {
        Environment { info: LocalInformation::new() }
    }

    /// Looks a property up on `on` without binding `this`: the value last
    /// defined on the object itself, as it stands, or that there is none.
    pub fn get_property_unbound(&self, on: TypeId, publicity: Publicity, under: &PropertyKey) -> (found:
        Result<LogicalOrValid, MissingProperty>)
        ensures
            found == match last_defined(self.info@.properties_of(on), publicity, under@) {
                Some(value) => Ok::<LogicalOrValid, MissingProperty>(
                    LogicalOrValid::Logical(Logical::Pure(value)),
                ),
                None => Err(MissingProperty),
            },
    {
        match self.info.get_own_property(on, publicity, under) {
            Some(value) => Ok(LogicalOrValid::Logical(Logical::Pure(value))),
            None => Err(MissingProperty),
        }
    }
}

/// Builds one object: registers it, then takes its properties one by one.
pub struct ObjectBuilder {
    pub object: TypeId,
}

impl ObjectBuilder {
    pub fn new(
        prototype: Option<TypeId>,
        types: &mut TypeStore,
        position: SpanWithSource,
        info: &mut LocalInformation,
    ) -> (builder: Self)
        requires
            old(types).wf(),
            old(types)@.types.len() < MAX_TYPE_COUNT,
        ensures
            final(types).wf(),
            final(types)@ == old(types)@.register(Type::Object(ObjectNature::RealDeal)),
            builder.object as int == old(types)@.types.len(),
            final(info)@ == old(info)@.with_prototype(builder.object, prototype),
    {
        ObjectBuilder { object: info.new_object(prototype, types, position) }
    }

    pub fn append(
        &mut self,
        environment: &mut Environment,
        publicity: Publicity,
        under: PropertyKey,
        value: PropertyValue,
        position: SpanWithSource,
    )
        ensures
            final(self).object == old(self).object,
            final(environment).info@ == old(environment).info@.define(
                old(self).object,
                (publicity, under@, value),
            ),
    {
        environment.info.register_property(self.object, publicity, under, value, position);
    }

    pub fn build_object(self) -> (object: TypeId)
        ensures
            object == self.object,
    {
        self.object
    }
}

} // verus!
