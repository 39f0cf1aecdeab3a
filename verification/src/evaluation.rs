//! What evaluating a regular expression against a text builds: an object
//! with the fields of the match, or only with their shape.

use vstd::prelude::*;
use crate::algebra::{extends, lemma_extends_index, lemma_extends_transitive};
use crate::constant::{Constant, ConstantView};
use crate::ids::{
    SpanWithSource, TypeId, ARRAY_TYPE, MAX_TYPE_COUNT, NULL_TYPE, NUMBER_TYPE, STRING_TYPE,
    UNDEFINED_TYPE,
};
use crate::number::{number_from_integer, number_of_integer};
use crate::objects::{Environment, LocalInformationView, ObjectBuilder};
use crate::properties::{PropertyKey, PropertyKeyView, PropertyValue, PropertyView, Publicity};
use crate::regexp::{found_view, names_view, RegExpMatch, RegExpMatchView};
use crate::store::{TypeStore, TypeStoreView};
use crate::text::{decimal_string, decimal_text, slice_text, text_between};
use crate::types::{ObjectNature, Type};

verus! {

/// What the value of a property is made of.
#[derive(Clone, Debug)]
pub enum EntryValue {
    /// A type that is registered already.
    Existing(TypeId),
    /// The constant of a number, given by its bits.
    Number(u64),
    /// The constant of a text.
    Text(String),
}

/// An [`EntryValue`], with its text as characters.
pub enum Piece {
    Existing(TypeId),
    Number(u64),
    Text(Seq<char>),
}

impl View for EntryValue {
    type V = Piece;

    open spec fn view(&self) -> Piece {
        match self {
            EntryValue::Existing(id) => Piece::Existing(*id),
            EntryValue::Number(bits) => Piece::Number(*bits),
            EntryValue::Text(text) => Piece::Text(text@),
        }
    }
}

impl Piece {
    /// The constant that the piece stands for, if it is one.
    pub open spec fn constant(self) -> Option<ConstantView> {
        match self {
            Piece::Existing(_) => None,
            Piece::Number(bits) => Some(ConstantView::Number(bits)),
            Piece::Text(text) => Some(ConstantView::String(text)),
        }
    }

    /// Whether taking the piece into a store registers a type: it does for a
    /// constant that has no reserved identifier.
    pub open spec fn registers(self) -> bool {
        self.constant() matches Some(constant) && constant.reserved_id() is None
    }

    /// The type of the piece, taken into a store that holds `count` types.
    pub open spec fn id(self, count: nat) -> TypeId {
        match self {
            Piece::Existing(id) => id,
            _ => match self.constant()->0.reserved_id() {
                Some(id) => id,
                None => count as TypeId,
            },
        }
    }
}

/// A property to define: the name of its key, and what its value is made of.
pub type Entry = (String, EntryValue);

/// An [`Entry`], with its texts as characters.
pub type EntryView = (Seq<char>, Piece);

pub open spec fn entry_view(entry: Entry) -> EntryView {
    (entry.0@, entry.1@)
}

pub open spec fn entries_view(entries: Seq<Entry>) -> Seq<EntryView> {
    entries.map_values(|entry: Entry| entry_view(entry))
}

/// One descriptor that was appended to a store.
pub enum Registered {
    /// This very descriptor.
    Exactly(Type),
    /// The descriptor of this constant.
    Constant(ConstantView),
}

impl Registered {
    pub open spec fn describes(self, ty: Type) -> bool {
        match self {
            Registered::Exactly(descriptor) => ty == descriptor,
            Registered::Constant(constant) => ty matches Type::Constant(held) && held@ == constant,
        }
    }
}

/// Whether `grown` holds the descriptors of `types`, unchanged, and then one
/// for each of `registered`, in their order.
pub open spec fn registered_on(
    grown: Seq<Type>,
    types: Seq<Type>,
    registered: Seq<Registered>,
) -> bool {
    &&& grown.len() == types.len() + registered.len()
    &&& extends(grown, types)
    &&& forall|i: int|
        0 <= i < registered.len() ==> (#[trigger] registered[i]).describes(grown[types.len() + i])
}

/// What defining entries one after the other does: the descriptors that are
/// registered on the way, and the properties that are defined.
pub struct Layout {
    pub registered: Seq<Registered>,
    pub properties: Seq<PropertyView>,
}

impl Layout {
    /// The layout after one more entry, begun on a store of `count` types.
    pub open spec fn with(self, count: nat, entry: EntryView) -> Layout {
        let (key, piece) = entry;
        let property = (
            Publicity::Public,
            PropertyKeyView::String(key),
            PropertyValue::Value(piece.id(count + self.registered.len())),
        );
        Layout {
            registered: if piece.registers() {
                self.registered.push(Registered::Constant(piece.constant()->0))
            } else {
                self.registered
            },
            properties: self.properties.push(property),
        }
    }
}

/// The layout of `entries`, begun on a store of `count` types.
pub open spec fn lay_out(count: nat, entries: Seq<EntryView>) -> Layout
    decreases entries.len(),
{
    if entries.len() == 0 {
        Layout { registered: Seq::empty(), properties: Seq::empty() }
    } else {
        lay_out(count, entries.drop_last()).with(count, entries.last())
    }
}

/// A layout registers at most one descriptor for each entry, and more entries
/// register no fewer.
pub proof fn lemma_lay_out_grows(count: nat, entries: Seq<EntryView>, upto: int)
    requires
        0 <= upto <= entries.len(),
    ensures
        lay_out(count, entries.take(upto)).registered.len() <= lay_out(
            count,
            entries,
        ).registered.len() <= entries.len(),
        lay_out(count, entries).properties.len() == entries.len(),
    decreases entries.len(),
{
    if entries.len() == 0 {
    } else if upto == entries.len() {
        assert(entries.take(upto) =~= entries);
        lemma_lay_out_grows(count, entries.drop_last(), upto - 1);
    } else {
        assert(entries.drop_last().take(upto) =~= entries.take(upto));
        lemma_lay_out_grows(count, entries.drop_last(), upto);
    }
}

/// What was registered in two steps was registered in one.
pub proof fn lemma_registered_on_twice(
    last: Seq<Type>,
    middle: Seq<Type>,
    first: Seq<Type>,
    before: Seq<Registered>,
    after: Seq<Registered>,
)
    requires
        registered_on(middle, first, before),
        registered_on(last, middle, after),
    ensures
        registered_on(last, first, before + after),
{
    lemma_extends_transitive(last, middle, first);
}

/// Defines on the object of `object` one public property for each of
/// `entries`, in their order. A constant that has no reserved identifier is
/// registered when its entry is reached.
pub fn define_entries(
    types: &mut TypeStore,
    environment: &mut Environment,
    object: &ObjectBuilder,
    entries: &Vec<Entry>,
    call_site: SpanWithSource,
)
    requires
        old(types).wf(),
        old(types)@.types.len() + lay_out(
            old(types)@.types.len(),
            entries_view(entries@),
        ).registered.len() <= MAX_TYPE_COUNT,
    ensures
        final(types).wf(),
        final(types)@ == old(types)@.with_types(final(types)@.types),
        registered_on(
            final(types)@.types,
            old(types)@.types,
            lay_out(old(types)@.types.len(), entries_view(entries@)).registered,
        ),
        final(environment).info@ == old(environment).info@.define_all(
            object.object,
            lay_out(old(types)@.types.len(), entries_view(entries@)).properties,
        ),
{
    let ghost count = types@.types.len();
    let ghost all = entries_view(entries@);
    let mut idx: usize = 0;
    proof {
        assert(types@.types.subrange(0, count as int) =~= types@.types);
    }
    while idx < entries.len()
        invariant
            idx <= entries@.len(),
            all == entries_view(entries@),
            count == old(types)@.types.len(),
            types.wf(),
            types@ == old(types)@.with_types(types@.types),
            registered_on(
                types@.types,
                old(types)@.types,
                lay_out(count, all.take(idx as int)).registered,
            ),
            environment.info@ == old(environment).info@.define_all(
                object.object,
                lay_out(count, all.take(idx as int)).properties,
            ),
            count + lay_out(count, all).registered.len() <= MAX_TYPE_COUNT,
        decreases entries@.len() - idx,
    {
        let ghost before = lay_out(count, all.take(idx as int));
        let ghost after = lay_out(count, all.take(idx + 1));
        let ghost reached = types@.types;
        proof {
            assert(all.take(idx + 1).drop_last() =~= all.take(idx as int));
            lemma_lay_out_grows(count, all, idx + 1);
        }
        let entry = &entries[idx];
        let value = match &entry.1 {
            EntryValue::Existing(id) => *id,
            EntryValue::Number(bits) => types.new_constant_type(Constant::Number(*bits)),
            EntryValue::Text(text) => types.new_constant_type(Constant::String(text.clone())),
        };
        proof {
            let step: Seq<Registered> = if entry.1@.registers() {
                seq![Registered::Constant(entry.1@.constant()->0)]
            } else {
                Seq::empty()
            };
            assert(registered_on(types@.types, reached, step)) by {
                assert(reached.subrange(0, reached.len() as int) =~= reached);
                if entry.1@.registers() {
                    assert(types@.types.subrange(0, reached.len() as int) =~= reached);
                }
            }
            lemma_registered_on_twice(
                types@.types,
                reached,
                old(types)@.types,
                before.registered,
                step,
            );
        }
        environment.info.register_property(
            object.object,
            Publicity::Public,
            PropertyKey::String(entry.0.clone()),
            PropertyValue::Value(value),
            call_site,
        );
        proof {
            assert(after.properties.drop_last() =~= before.properties);
        }
        idx += 1;
    }
    assert(all.take(idx as int) =~= all);
}

/// What the value of a group is made of: the text that the group took from
/// `text`, or `undefined` for a group that took no part in the match.
pub open spec fn group_piece(text: Seq<char>, group: Option<(usize, usize)>) -> Piece {
    match group {
        Some((start, end)) => match text_between(text, start as int, end as int) {
            Some(part) => Piece::Text(part),
            None => Piece::Existing(UNDEFINED_TYPE),
        },
        None => Piece::Existing(UNDEFINED_TYPE),
    }
}

/// One entry for each group, under its index in decimal digits.
pub open spec fn positional_entries(
    text: Seq<char>,
    groups: Seq<Option<(usize, usize)>>,
) -> Seq<EntryView> {
    Seq::new(groups.len(), |i: int| (decimal_text(i as nat), group_piece(text, groups[i])))
}

/// One entry for each named group, under its name.
pub open spec fn named_entries(
    text: Seq<char>,
    named_groups: Seq<(Seq<char>, Option<(usize, usize)>)>,
) -> Seq<EntryView> {
    Seq::new(named_groups.len(), |i: int| (named_groups[i].0, group_piece(text, named_groups[i].1)))
}

/// The entries of a match that come before its named groups: where it
/// starts, and each group under its index.
pub open spec fn head_entries(text: Seq<char>, found: RegExpMatchView) -> Seq<EntryView> {
    seq![("index"@, Piece::Number(number_of_integer(found.start as nat)))] + positional_entries(
        text,
        found.groups,
    )
}

/// The entries that close a result: the object of the named groups, and the
/// number of groups.
pub open spec fn tail_entries(groups_object: TypeId, group_count: u64) -> Seq<EntryView> {
    seq![
        ("groups"@, Piece::Existing(groups_object)),
        ("length"@, Piece::Number(number_of_integer(group_count as nat))),
    ]
}

/// What an evaluation does: the descriptors it appends to the store, what it
/// leaves the information of the context as, and the type it returns.
pub struct Evaluation {
    pub registered: Seq<Registered>,
    pub info: LocalInformationView,
    pub result: TypeId,
}

/// Whether a store and an information went from `before` and whatever the
/// evaluation started from to `after` and `info` as `evaluation` says.
pub open spec fn evaluated(
    before: TypeStoreView,
    after: TypeStoreView,
    info: LocalInformationView,
    evaluation: Evaluation,
) -> bool {
    &&& after == before.with_types(after.types)
    &&& registered_on(after.types, before.types, evaluation.registered)
    &&& info == evaluation.info
}

/// The evaluation of a regular expression against a known text, on a store
/// of `count` types: `input` is the type of the text, `found` the first
/// match, `group_count` the number of groups of the regular expression.
///
/// An object is registered with the prototype `Array` and the text as its
/// `input`. Where nothing matched, the result is `null`. Else the object is
/// the result: it gets the start of the match as `index`, each group under its
/// index, a second object with the prototype `null` that holds the named
/// groups as `groups`, and the number of groups as `length`.
pub open spec fn match_evaluation(
    count: nat,
    info: LocalInformationView,
    input: TypeId,
    text: Seq<char>,
    found: Option<RegExpMatchView>,
    group_count: u64,
) -> Evaluation {
    let object = count as TypeId;
    let begun = info.with_prototype(object, Some(ARRAY_TYPE)).define(
        object,
        (Publicity::Public, PropertyKeyView::String("input"@), PropertyValue::Value(input)),
    );
    match found {
        None => Evaluation {
            registered: seq![Registered::Exactly(Type::Object(ObjectNature::RealDeal))],
            info: begun,
            result: NULL_TYPE,
        },
        Some(found) => {
            let head = lay_out(count + 1, head_entries(text, found));
            let groups_at = count + 1 + head.registered.len();
            let groups_object = groups_at as TypeId;
            let named = lay_out(groups_at + 1, named_entries(text, found.named_groups));
            let tail = lay_out(
                groups_at + 1 + named.registered.len(),
                tail_entries(groups_object, group_count),
            );
            Evaluation {
                registered: seq![Registered::Exactly(Type::Object(ObjectNature::RealDeal))]
                    + head.registered + seq![
                    Registered::Exactly(Type::Object(ObjectNature::RealDeal)),
                ] + named.registered + tail.registered,
                info: begun.define_all(object, head.properties).with_prototype(
                    groups_object,
                    Some(NULL_TYPE),
                ).define_all(groups_object, named.properties).define_all(object, tail.properties),
                result: object,
            }
        },
    }
}

fn group_entry_value(text: &str, group: &Option<(usize, usize)>) -> (value: EntryValue)
    ensures
        value@ == group_piece(text@, *group),
{
    match group {
        Some((start, end)) => match slice_text(text, *start, *end) {
            Some(part) => EntryValue::Text(part),
            None => EntryValue::Existing(UNDEFINED_TYPE),
        },
        None => EntryValue::Existing(UNDEFINED_TYPE),
    }
}

fn head_entries_of(text: &str, found: &RegExpMatch) -> (entries: Vec<Entry>)
    ensures
        entries_view(entries@) == head_entries(text@, found@),
{
    let mut entries: Vec<Entry> = Vec::new();
    entries.push(
        (String::from_str("index"), EntryValue::Number(number_from_integer(found.start as u64))),
    );
    let ghost all = head_entries(text@, found@);
    let mut idx: usize = 0;
    while idx < found.groups.len()
        invariant
            idx <= found.groups@.len(),
            all == head_entries(text@, found@),
            entries_view(entries@) == all.take(idx + 1),
        decreases found.groups@.len() - idx,
    {
        let ghost before = entries@;
        entries.push((decimal_string(idx as u64), group_entry_value(text, &found.groups[idx])));
        assert(entries_view(entries@) =~= entries_view(before).push(entry_view(entries@[idx + 1])));
        idx += 1;
    }
    entries
}

fn named_entries_of(text: &str, found: &RegExpMatch) -> (entries: Vec<Entry>)
    ensures
        entries_view(entries@) == named_entries(text@, found@.named_groups),
{
    let mut entries: Vec<Entry> = Vec::new();
    let ghost all = named_entries(text@, found@.named_groups);
    let mut idx: usize = 0;
    while idx < found.named_groups.len()
        invariant
            idx <= found.named_groups@.len(),
            all == named_entries(text@, found@.named_groups),
            entries_view(entries@) == all.take(idx as int),
        decreases found.named_groups@.len() - idx,
    {
        let ghost before = entries@;
        let named = &found.named_groups[idx];
        entries.push((named.0.clone(), group_entry_value(text, &named.1)));
        assert(entries_view(entries@) =~= entries_view(before).push(
            entry_view(entries@[idx as int]),
        ));
        idx += 1;
    }
    entries
}

fn tail_entries_of(groups_object: TypeId, group_count: u64) -> (entries: Vec<Entry>)
    ensures
        entries_view(entries@) == tail_entries(groups_object, group_count),
{
    let mut entries: Vec<Entry> = Vec::new();
    entries.push((String::from_str("groups"), EntryValue::Existing(groups_object)));
    entries.push(
        (String::from_str("length"), EntryValue::Number(number_from_integer(group_count))),
    );
    entries
}

/// Builds the result of evaluating a regular expression against a known
/// text: `input` is the type of the text, `found` what the search gave, and
/// `group_count` the number of groups of the regular expression.
pub fn evaluate_match(
    found: &Option<RegExpMatch>,
    input: TypeId,
    text: &str,
    group_count: u64,
    types: &mut TypeStore,
    environment: &mut Environment,
    call_site: SpanWithSource,
) -> (result: TypeId)
    requires
        old(types).wf(),
        old(types)@.types.len() + match_evaluation(
            old(types)@.types.len(),
            old(environment).info@,
            input,
            text@,
            found_view(*found),
            group_count,
        ).registered.len() <= MAX_TYPE_COUNT,
    ensures
        final(types).wf(),
        evaluated(
            old(types)@,
            final(types)@,
            final(environment).info@,
            match_evaluation(
                old(types)@.types.len(),
                old(environment).info@,
                input,
                text@,
                found_view(*found),
                group_count,
            ),
        ),
        result == match_evaluation(
            old(types)@.types.len(),
            old(environment).info@,
            input,
            text@,
            found_view(*found),
            group_count,
        ).result,
{
    let ghost count = types@.types.len();
    let ghost first = types@.types;
    let object = ObjectBuilder::new(Some(ARRAY_TYPE), types, call_site, &mut environment.info);
    environment.info.register_property(
        object.object,
        Publicity::Public,
        PropertyKey::String(String::from_str("input")),
        PropertyValue::Value(input),
        call_site,
    );
    let ghost one = seq![Registered::Exactly(Type::Object(ObjectNature::RealDeal))];
    let ghost second = types@.types;
    proof {
        assert(second.subrange(0, count as int) =~= first);
    }
    match found {
        Some(found) => {
            let ghost head = lay_out(count + 1, head_entries(text@, found@));
            let ghost groups_at = count + 1 + head.registered.len();
            let ghost named = lay_out(groups_at + 1, named_entries(text@, found@.named_groups));
            let ghost tail = lay_out(
                groups_at + 1 + named.registered.len(),
                tail_entries(groups_at as TypeId, group_count),
            );
            let entries = head_entries_of(text, found);
            define_entries(types, environment, &object, &entries, call_site);
            let ghost third = types@.types;
            let groups = ObjectBuilder::new(
                Some(NULL_TYPE),
                types,
                call_site,
                &mut environment.info,
            );
            let ghost fourth = types@.types;
            let entries = named_entries_of(text, found);
            define_entries(types, environment, &groups, &entries, call_site);
            let ghost fifth = types@.types;
            let entries = tail_entries_of(groups.object, group_count);
            define_entries(types, environment, &object, &entries, call_site);
            proof {
                assert(fourth.subrange(0, third.len() as int) =~= third);
                lemma_registered_on_twice(third, second, first, one, head.registered);
                lemma_registered_on_twice(fourth, third, first, one + head.registered, one);
                lemma_registered_on_twice(
                    fifth,
                    fourth,
                    first,
                    one + head.registered + one,
                    named.registered,
                );
                lemma_registered_on_twice(
                    types@.types,
                    fifth,
                    first,
                    one + head.registered + one + named.registered,
                    tail.registered,
                );
            }
            object.build_object()
        },
        None => NULL_TYPE,
    }
}

/// The names that are not empty, each once, in the order of their first occurrence.
pub open spec fn distinct_names(names: Seq<Seq<char>>) -> Seq<Seq<char>>
    decreases names.len(),
{
    if names.len() == 0 {
        Seq::empty()
    } else {
        let before = distinct_names(names.drop_last());
        let name = names.last();
        if name.len() == 0 || before.contains(name) {
            before
        } else {
            before.push(name)
        }
    }
}

/// One entry of type `id` under each of `keys`.
pub open spec fn entries_of_type(keys: Seq<Seq<char>>, id: TypeId) -> Seq<EntryView> {
    Seq::new(keys.len(), |i: int| (keys[i], Piece::Existing(id)))
}

/// The indices below `count`, each in decimal digits.
pub open spec fn index_keys(count: nat) -> Seq<Seq<char>> {
    Seq::new(count, |i: int| decimal_text(i as nat))
}

/// The entries of a shape that come before its named groups: a text as
/// `input`, a number as `index`, and a text under the index of each group.
pub open spec fn shape_head_entries(group_count: u64) -> Seq<EntryView> {
    seq![("input"@, Piece::Existing(STRING_TYPE)), ("index"@, Piece::Existing(NUMBER_TYPE))]
        + entries_of_type(index_keys(group_count as nat), STRING_TYPE)
}

/// The evaluation of a regular expression against a text that is not known,
/// on a store of `count` types: `group_count` is the number of groups of the
/// regular expression and `group_names` the names of its capture groups.
///
/// An object is registered with the prototype `Array`; it gets `string` as
/// `input`, `number` as `index`, `string` under the index of each group, a
/// second object with the prototype `null` that holds `string` under each
/// name as `groups`, and the number of groups as `length`. The result is the
/// union of the object and `null`.
pub open spec fn shape_evaluation(
    count: nat,
    info: LocalInformationView,
    group_count: u64,
    group_names: Seq<Seq<char>>,
) -> Evaluation {
    let object = count as TypeId;
    let head = lay_out(count + 1, shape_head_entries(group_count));
    let groups_at = count + 1 + head.registered.len();
    let groups_object = groups_at as TypeId;
    let named = lay_out(
        groups_at + 1,
        entries_of_type(distinct_names(group_names), STRING_TYPE),
    );
    let tail = lay_out(
        groups_at + 1 + named.registered.len(),
        tail_entries(groups_object, group_count),
    );
    let union_at = groups_at + 1 + named.registered.len() + tail.registered.len();
    Evaluation {
        registered: seq![Registered::Exactly(Type::Object(ObjectNature::RealDeal))]
            + head.registered + seq![Registered::Exactly(Type::Object(ObjectNature::RealDeal))]
            + named.registered + tail.registered + seq![
            Registered::Exactly(Type::Or(object, NULL_TYPE)),
        ],
        info: info.with_prototype(object, Some(ARRAY_TYPE)).define_all(
            object,
            head.properties,
        ).with_prototype(groups_object, Some(NULL_TYPE)).define_all(
            groups_object,
            named.properties,
        ).define_all(object, tail.properties),
        result: union_at as TypeId,
    }
}

/// Defining properties on one object adds them to what it had, in their
/// order, and leaves every other object and every prototype as it was.
pub proof fn lemma_define_all(
    info: LocalInformationView,
    on: TypeId,
    properties: Seq<PropertyView>,
    other: TypeId,
)
    ensures
        info.define_all(on, properties).prototypes == info.prototypes,
        info.define_all(on, properties).properties_of(on) == info.properties_of(on) + properties,
        other != on ==> info.define_all(on, properties).properties_of(other) == info.properties_of(
            other,
        ),
    decreases properties.len(),
{
    if properties.len() == 0 {
    } else {
        lemma_define_all(info, on, properties.drop_last(), other);
    }
}

/// What a match leaves on its objects: where the text matched, the result
/// object has the prototype `Array` and, after what it had, `input`, the
/// entries before the named groups, `groups` and `length`; the object of the
/// named groups has the prototype `null` and, after what it had, one property
/// for each named group.
pub proof fn lemma_match_evaluation_objects(
    count: nat,
    info: LocalInformationView,
    input: TypeId,
    text: Seq<char>,
    found: RegExpMatchView,
    group_count: u64,
)
    requires
        count + match_evaluation(count, info, input, text, Some(found), group_count).registered.len()
            <= MAX_TYPE_COUNT,
    ensures
        ({
            let evaluation = match_evaluation(count, info, input, text, Some(found), group_count);
            let object = count as TypeId;
            let head = lay_out(count + 1, head_entries(text, found));
            let groups_at = count + 1 + head.registered.len();
            let groups_object = groups_at as TypeId;
            let named = lay_out(groups_at + 1, named_entries(text, found.named_groups));
            let tail = lay_out(
                groups_at + 1 + named.registered.len(),
                tail_entries(groups_object, group_count),
            );
            &&& evaluation.result == object
            &&& object != groups_object
            &&& evaluation.info.prototypes == info.prototypes.insert(object, ARRAY_TYPE).insert(
                groups_object,
                NULL_TYPE,
            )
            &&& evaluation.info.properties_of(object) == info.properties_of(object) + seq![
                (
                    Publicity::Public,
                    PropertyKeyView::String("input"@),
                    PropertyValue::Value(input),
                ),
            ] + head.properties + tail.properties
            &&& evaluation.info.properties_of(groups_object) == info.properties_of(groups_object)
                + named.properties
        }),
{
    let object = count as TypeId;
    let head = lay_out(count + 1, head_entries(text, found));
    let groups_at = count + 1 + head.registered.len();
    let groups_object = groups_at as TypeId;
    let named = lay_out(groups_at + 1, named_entries(text, found.named_groups));
    let tail = lay_out(
        groups_at + 1 + named.registered.len(),
        tail_entries(groups_object, group_count),
    );
    let input_property = (
        Publicity::Public,
        PropertyKeyView::String("input"@),
        PropertyValue::Value(input),
    );
    let begun = info.with_prototype(object, Some(ARRAY_TYPE)).define(object, input_property);
    let first = begun.define_all(object, head.properties);
    let second = first.with_prototype(groups_object, Some(NULL_TYPE));
    let third = second.define_all(groups_object, named.properties);
    lemma_define_all(begun, object, head.properties, groups_object);
    lemma_define_all(second, groups_object, named.properties, object);
    lemma_define_all(third, object, tail.properties, groups_object);
}

/// Entries of types that exist are laid out as they stand: nothing is
/// registered, and each property has the type of its entry as its value.
pub proof fn lemma_lay_out_existing(count: nat, entries: Seq<EntryView>)
    requires
        forall|i: int| 0 <= i < entries.len() ==> (#[trigger] entries[i]).1 is Existing,
    ensures
        lay_out(count, entries).registered == Seq::<Registered>::empty(),
        lay_out(count, entries).properties == Seq::new(
            entries.len(),
            |i: int|
                (
                    Publicity::Public,
                    PropertyKeyView::String(entries[i].0),
                    PropertyValue::Value(entries[i].1->Existing_0),
                ),
        ),
    decreases entries.len(),
{
    if entries.len() > 0 {
        assert(entries.last().1 is Existing);
        assert forall|i: int| 0 <= i < entries.drop_last().len() implies (
        #[trigger] entries.drop_last()[i]).1 is Existing by {
            assert(entries[i].1 is Existing);
        }
        lemma_lay_out_existing(count, entries.drop_last());
    }
    assert(lay_out(count, entries).properties =~= Seq::new(
        entries.len(),
        |i: int|
            (
                Publicity::Public,
                PropertyKeyView::String(entries[i].0),
                PropertyValue::Value(entries[i].1->Existing_0),
            ),
    ));
}

/// What the evaluation to a shape leaves: it registers the result object,
/// the object of the named groups, the number of groups where that is no
/// reserved constant, and the union of the result object with `null`, in this
/// order; the result object has the prototype `Array` and, after what it had,
/// its entries before the named groups and those that close it; the object of
/// the named groups has the prototype `null` and, after what it had, one
/// property for each name.
pub proof fn lemma_shape_evaluation_objects(
    count: nat,
    info: LocalInformationView,
    group_count: u64,
    group_names: Seq<Seq<char>>,
)
    requires
        count + 4 <= MAX_TYPE_COUNT,
    ensures
        ({
            let evaluation = shape_evaluation(count, info, group_count, group_names);
            let object = count as TypeId;
            let groups_object = (count + 1) as TypeId;
            let head = lay_out(count + 1, shape_head_entries(group_count));
            let named = lay_out(
                count + 2,
                entries_of_type(distinct_names(group_names), STRING_TYPE),
            );
            let tail = lay_out(count + 2, tail_entries(groups_object, group_count));
            &&& evaluation.registered == seq![
                Registered::Exactly(Type::Object(ObjectNature::RealDeal)),
                Registered::Exactly(Type::Object(ObjectNature::RealDeal)),
            ] + tail.registered + seq![Registered::Exactly(Type::Or(object, NULL_TYPE))]
            &&& evaluation.result == count + 2 + tail.registered.len()
            &&& tail.registered.len() <= 1
            &&& evaluation.info.prototypes == info.prototypes.insert(object, ARRAY_TYPE).insert(
                groups_object,
                NULL_TYPE,
            )
            &&& evaluation.info.properties_of(object) == info.properties_of(object)
                + head.properties + tail.properties
            &&& evaluation.info.properties_of(groups_object) == info.properties_of(groups_object)
                + named.properties
        }),
{
    let object = count as TypeId;
    let groups_object = (count + 1) as TypeId;
    let head_entries = shape_head_entries(group_count);
    let names = entries_of_type(distinct_names(group_names), STRING_TYPE);
    let head = lay_out(count + 1, head_entries);
    let named = lay_out(count + 2, names);
    let tail = lay_out(count + 2, tail_entries(groups_object, group_count));
    lemma_lay_out_existing(count + 1, head_entries);
    lemma_lay_out_existing(count + 2, names);
    lemma_lay_out_registrations(count + 2, tail_entries(groups_object, group_count));
    lemma_tail_registrations(groups_object, group_count);
    let first = info.with_prototype(object, Some(ARRAY_TYPE));
    let second = first.define_all(object, head.properties);
    let third = second.with_prototype(groups_object, Some(NULL_TYPE));
    let fourth = third.define_all(groups_object, named.properties);
    lemma_define_all(first, object, head.properties, groups_object);
    lemma_define_all(third, groups_object, named.properties, object);
    lemma_define_all(fourth, object, tail.properties, groups_object);
    let evaluation = shape_evaluation(count, info, group_count, group_names);
    assert(evaluation.registered =~= seq![
        Registered::Exactly(Type::Object(ObjectNature::RealDeal)),
        Registered::Exactly(Type::Object(ObjectNature::RealDeal)),
    ] + tail.registered + seq![Registered::Exactly(Type::Or(object, NULL_TYPE))]);
}

/// How many of `entries` register a type when they are defined.
pub open spec fn registrations(entries: Seq<EntryView>) -> nat
    decreases entries.len(),
{
    if entries.len() == 0 {
        0
    } else {
        registrations(entries.drop_last()) + if entries.last().1.registers() {
            1nat
        } else {
            0nat
        }
    }
}

/// How many types a layout registers does not depend on the store it is begun on.
pub proof fn lemma_lay_out_registrations(count: nat, entries: Seq<EntryView>)
    ensures
        lay_out(count, entries).registered.len() == registrations(entries),
    decreases entries.len(),
{
    if entries.len() > 0 {
        lemma_lay_out_registrations(count, entries.drop_last());
    }
}

/// Entries of types that exist register nothing.
pub proof fn lemma_existing_register_nothing(entries: Seq<EntryView>)
    requires
        forall|i: int| 0 <= i < entries.len() ==> (#[trigger] entries[i]).1 is Existing,
    ensures
        registrations(entries) == 0,
    decreases entries.len(),
{
    if entries.len() > 0 {
        lemma_existing_register_nothing(entries.drop_last());
    }
}

/// How many types the evaluation of a match registers.
pub open spec fn match_count(
    text: Seq<char>,
    found: Option<RegExpMatchView>,
    group_count: u64,
) -> nat {
    match found {
        None => 1,
        Some(found) => 2 + registrations(head_entries(text, found)) + registrations(
            named_entries(text, found.named_groups),
        ) + registrations(tail_entries(0, group_count)),
    }
}

/// How many types the evaluation to a shape registers: the two objects, the
/// union, and the number of groups where that is no reserved constant.
pub open spec fn shape_count(group_count: u64) -> nat {
    3 + registrations(tail_entries(0, group_count))
}

/// The counts are those of the evaluations, whatever store they are begun on.
pub proof fn lemma_match_count(
    count: nat,
    info: LocalInformationView,
    input: TypeId,
    text: Option<Seq<char>>,
    found: Option<RegExpMatchView>,
    group_count: u64,
    group_names: Seq<Seq<char>>,
)
    ensures
        text is Some ==> match_evaluation(
            count,
            info,
            input,
            text->0,
            found,
            group_count,
        ).registered.len() == match_count(text->0, found, group_count),
        shape_evaluation(count, info, group_count, group_names).registered.len() == shape_count(
            group_count,
        ),
{
    if text is Some {
        if let Some(found) = found {
            let head = lay_out(count + 1, head_entries(text->0, found));
            let groups_at = count + 1 + head.registered.len();
            let named = lay_out(groups_at + 1, named_entries(text->0, found.named_groups));
            lemma_lay_out_registrations(count + 1, head_entries(text->0, found));
            lemma_lay_out_registrations(groups_at + 1, named_entries(text->0, found.named_groups));
            lemma_lay_out_registrations(
                groups_at + 1 + named.registered.len(),
                tail_entries(groups_at as TypeId, group_count),
            );
            lemma_tail_registrations(groups_at as TypeId, group_count);
        }
    }
    let head = lay_out(count + 1, shape_head_entries(group_count));
    let groups_at = count + 1 + head.registered.len();
    let names = entries_of_type(distinct_names(group_names), STRING_TYPE);
    let named = lay_out(groups_at + 1, names);
    lemma_lay_out_registrations(count + 1, shape_head_entries(group_count));
    lemma_existing_register_nothing(shape_head_entries(group_count));
    lemma_lay_out_registrations(groups_at + 1, names);
    lemma_existing_register_nothing(names);
    lemma_lay_out_registrations(
        groups_at + 1 + named.registered.len(),
        tail_entries(groups_at as TypeId, group_count),
    );
    lemma_tail_registrations(groups_at as TypeId, group_count);
}

/// What closes a result registers the same whatever the object of the named groups is.
pub proof fn lemma_tail_registrations(groups_object: TypeId, group_count: u64)
    ensures
        registrations(tail_entries(groups_object, group_count)) == registrations(
            tail_entries(0, group_count),
        ),
        registrations(tail_entries(groups_object, group_count)) <= 1,
{
    let entries = tail_entries(groups_object, group_count);
    let others = tail_entries(0, group_count);
    assert(entries.drop_last().drop_last() =~= Seq::<EntryView>::empty());
    assert(others.drop_last().drop_last() =~= Seq::<EntryView>::empty());
    assert(registrations(entries.drop_last().drop_last()) == 0);
    assert(registrations(entries.drop_last()) == 0);
    assert(registrations(others.drop_last()) == 0);
}

fn count_registrations(entries: &Vec<Entry>) -> (count: usize)
    ensures
        count == registrations(entries_view(entries@)),
{
    let mut count: usize = 0;
    let mut idx: usize = 0;
    let ghost all = entries_view(entries@);
    while idx < entries.len()
        invariant
            idx <= entries@.len(),
            all == entries_view(entries@),
            count == registrations(all.take(idx as int)),
            count <= idx,
        decreases entries@.len() - idx,
    {
        proof {
            assert(all.take(idx + 1).drop_last() =~= all.take(idx as int));
        }
        let registers = match &entries[idx].1 {
            EntryValue::Existing(_) => false,
            EntryValue::Number(bits) => Constant::Number(*bits).get_reserved_id().is_none(),
            EntryValue::Text(text) => !text.as_str().is_empty(),
        };
        if registers {
            count += 1;
        }
        idx += 1;
    }
    assert(all.take(idx as int) =~= all);
    count
}

/// How many types the evaluation of a match registers.
pub fn count_of_match(found: &Option<RegExpMatch>, text: &str, group_count: u64) -> (count: u128)
    ensures
        count == match_count(text@, found_view(*found), group_count),
{
    match found {
        Some(found) => {
            let head = count_registrations(&head_entries_of(text, found));
            let named = count_registrations(&named_entries_of(text, found));
            let tail = count_registrations(&tail_entries_of(0, group_count));
            2 + head as u128 + named as u128 + tail as u128
        },
        None => 1,
    }
}

/// How many types the evaluation to a shape registers.
pub fn count_of_shape(group_count: u64) -> (count: u128)
    ensures
        count == shape_count(group_count),
{
    let tail = count_registrations(&tail_entries_of(0, group_count));
    3 + tail as u128
}

fn holds_name(names: &Vec<String>, name: &String) -> (held: bool)
    ensures
        held == names_view(names@).contains(name@),
{
    let mut idx: usize = 0;
    while idx < names.len()
        invariant
            idx <= names@.len(),
            forall|i: int| 0 <= i < idx ==> names_view(names@)[i] != name@,
        decreases names@.len() - idx,
    {
        if names[idx] == *name {
            assert(names_view(names@)[idx as int] == name@);
            return true;
        }
        idx += 1;
    }
    false
}

fn distinct_names_of(names: &Vec<String>) -> (distinct: Vec<String>)
    ensures
        names_view(distinct@) == distinct_names(names_view(names@)),
{
    let mut distinct: Vec<String> = Vec::new();
    let ghost all = names_view(names@);
    let mut idx: usize = 0;
    while idx < names.len()
        invariant
            idx <= names@.len(),
            all == names_view(names@),
            names_view(distinct@) == distinct_names(all.take(idx as int)),
        decreases names@.len() - idx,
    {
        proof {
            assert(all.take(idx + 1).drop_last() =~= all.take(idx as int));
        }
        let name = &names[idx];
        if !name.as_str().is_empty() && !holds_name(&distinct, name) {
            distinct.push(name.clone());
        }
        idx += 1;
    }
    assert(all.take(idx as int) =~= all);
    distinct
}

fn entries_of_type_of(keys: &Vec<String>, id: TypeId) -> (entries: Vec<Entry>)
    ensures
        entries_view(entries@) == entries_of_type(names_view(keys@), id),
{
    let mut entries: Vec<Entry> = Vec::new();
    let ghost all = entries_of_type(names_view(keys@), id);
    let mut idx: usize = 0;
    while idx < keys.len()
        invariant
            idx <= keys@.len(),
            all == entries_of_type(names_view(keys@), id),
            entries_view(entries@) == all.take(idx as int),
        decreases keys@.len() - idx,
    {
        let ghost before = entries@;
        entries.push((keys[idx].clone(), EntryValue::Existing(id)));
        assert(entries_view(entries@) =~= entries_view(before).push(
            entry_view(entries@[idx as int]),
        ));
        idx += 1;
    }
    entries
}

fn shape_head_entries_of(group_count: u64) -> (entries: Vec<Entry>)
    ensures
        entries_view(entries@) == shape_head_entries(group_count),
{
    let mut entries: Vec<Entry> = Vec::new();
    entries.push((String::from_str("input"), EntryValue::Existing(STRING_TYPE)));
    entries.push((String::from_str("index"), EntryValue::Existing(NUMBER_TYPE)));
    let ghost all = shape_head_entries(group_count);
    let mut idx: u64 = 0;
    while idx < group_count
        invariant
            idx <= group_count,
            all == shape_head_entries(group_count),
            entries_view(entries@) == all.take(idx + 2),
        decreases group_count - idx,
    {
        let ghost before = entries@;
        entries.push((decimal_string(idx), EntryValue::Existing(STRING_TYPE)));
        assert(entries_view(entries@) =~= entries_view(before).push(entry_view(entries@[idx + 2])));
        idx += 1;
    }
    entries
}

/// Builds the shape of the result of evaluating a regular expression with
/// `group_count` groups, whose capture groups have the names `group_names`.
pub fn evaluate_shape(
    group_count: u64,
    group_names: &Vec<String>,
    types: &mut TypeStore,
    environment: &mut Environment,
    call_site: SpanWithSource,
) -> (result: TypeId)
    requires
        old(types).wf(),
        old(types)@.types.len() + shape_evaluation(
            old(types)@.types.len(),
            old(environment).info@,
            group_count,
            names_view(group_names@),
        ).registered.len() <= MAX_TYPE_COUNT,
    ensures
        final(types).wf(),
        evaluated(
            old(types)@,
            final(types)@,
            final(environment).info@,
            shape_evaluation(
                old(types)@.types.len(),
                old(environment).info@,
                group_count,
                names_view(group_names@),
            ),
        ),
        result == shape_evaluation(
            old(types)@.types.len(),
            old(environment).info@,
            group_count,
            names_view(group_names@),
        ).result,
{
    let ghost count = types@.types.len();
    let ghost first = types@.types;
    let ghost one = seq![Registered::Exactly(Type::Object(ObjectNature::RealDeal))];
    let ghost head = lay_out(count + 1, shape_head_entries(group_count));
    let ghost groups_at = count + 1 + head.registered.len();
    let ghost named = lay_out(
        groups_at + 1,
        entries_of_type(distinct_names(names_view(group_names@)), STRING_TYPE),
    );
    let ghost tail = lay_out(
        groups_at + 1 + named.registered.len(),
        tail_entries(groups_at as TypeId, group_count),
    );
    let object = ObjectBuilder::new(Some(ARRAY_TYPE), types, call_site, &mut environment.info);
    let ghost second = types@.types;
    let entries = shape_head_entries_of(group_count);
    define_entries(types, environment, &object, &entries, call_site);
    let ghost third = types@.types;
    let groups = ObjectBuilder::new(Some(NULL_TYPE), types, call_site, &mut environment.info);
    let ghost fourth = types@.types;
    let entries = entries_of_type_of(&distinct_names_of(group_names), STRING_TYPE);
    define_entries(types, environment, &groups, &entries, call_site);
    let ghost fifth = types@.types;
    let entries = tail_entries_of(groups.object, group_count);
    define_entries(types, environment, &object, &entries, call_site);
    let ghost sixth = types@.types;
    proof {
        assert(second.subrange(0, count as int) =~= first);
        assert(fourth.subrange(0, third.len() as int) =~= third);
        lemma_registered_on_twice(third, second, first, one, head.registered);
        lemma_registered_on_twice(fourth, third, first, one + head.registered, one);
        lemma_registered_on_twice(
            fifth,
            fourth,
            first,
            one + head.registered + one,
            named.registered,
        );
        lemma_registered_on_twice(
            sixth,
            fifth,
            first,
            one + head.registered + one + named.registered,
            tail.registered,
        );
        lemma_extends_index(sixth, first, NULL_TYPE);
        assert(sixth[object.object as int] == Type::Object(ObjectNature::RealDeal)) by {
            lemma_extends_transitive(fourth, third, second);
            lemma_extends_transitive(fifth, fourth, second);
            lemma_extends_transitive(sixth, fifth, second);
            lemma_extends_index(sixth, second, object.object);
        }
    }
    let result = types.new_or_type(object.build_object(), NULL_TYPE);
    proof {
        let union = seq![Registered::Exactly(Type::Or(object.object, NULL_TYPE))];
        lemma_registered_on_twice(
            types@.types,
            sixth,
            first,
            one + head.registered + one + named.registered + tail.registered,
            union,
        );
    }
    result
}

} // verus!
