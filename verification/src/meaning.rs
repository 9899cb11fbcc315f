//! What the operations are for, stated over what goes in and what comes out: over
//! characters, numbers, members and the names of what Cedar returns.

use cedar_policy::{Response, Schema};
use vstd::prelude::*;

use crate::authzen::{EvaluationRequest, PartyModel, RequestModel};
use crate::cedar::{self, Attributes, EntityEntry, EntityRef, PolicyModel, QuestionModel};
use crate::config::{self, ConfigError, IpAddress, SocketAddress};
use crate::convert::{self, ConversionError, Refusal};
use crate::error::ApiError;
use crate::handlers::{self, Evaluation, LogTarget};
use crate::health;
use crate::json::{self, Json};
use crate::policy::{self, PolicyError, ReloadStep};
use crate::text;

verus! {

/// A list of texts holds what each of its texts holds, in its place.
pub proof fn texts_are_kept(list: Seq<String>)
    ensures
        text::texts(list).len() == list.len(),
        forall|i: int| 0 <= i < list.len() ==> #[trigger] text::texts(list)[i] == list[i]@,
{
}

/// `a` and `b` agree up to `at`, and there `a` has the smaller character.
pub open spec fn differ_at(a: Seq<char>, b: Seq<char>, at: int) -> bool {
    &&& 0 <= at < a.len()
    &&& at < b.len()
    &&& forall|i: int| 0 <= i < at ==> a[i] == b[i]
    &&& a[at] < b[at]
}

/// `b` begins with `a`.
pub open spec fn begins_with(b: Seq<char>, a: Seq<char>) -> bool {
    a.len() <= b.len() && forall|i: int| 0 <= i < a.len() ==> a[i] == b[i]
}

/// `a` comes before `b` in a dictionary, or is the same text: it is a beginning of
/// `b`, or has the smaller character where they first differ.
pub open spec fn dictionary_order(a: Seq<char>, b: Seq<char>) -> bool {
    begins_with(b, a) || exists|at: int| differ_at(a, b, at)
}

/// Texts are ordered as in a dictionary, by the code points of their characters.
pub proof fn texts_are_ordered_as_in_a_dictionary(a: Seq<char>, b: Seq<char>)
    ensures
        text::text_le(a, b) <==> dictionary_order(a, b),
        text::text_lt(a, b) <==> dictionary_order(a, b) && a != b,
    decreases a.len(),
{
    if a.len() > 0 && b.len() > 0 {
        let (x, y) = (a.drop_first(), b.drop_first());
        if a[0] == b[0] {
            texts_are_ordered_as_in_a_dictionary(x, y);
            if dictionary_order(x, y) {
                if begins_with(y, x) {
                    assert forall|i: int| 0 <= i < a.len() implies a[i] == b[i] by {
                        if i > 0 {
                            assert(a[i] == x[i - 1]);
                            assert(b[i] == y[i - 1]);
                        }
                    }
                    assert(begins_with(b, a));
                } else {
                    let at = choose|at: int| differ_at(x, y, at);
                    assert forall|i: int| 0 <= i < at + 1 implies a[i] == b[i] by {
                        if i > 0 {
                            assert(a[i] == x[i - 1]);
                            assert(b[i] == y[i - 1]);
                        }
                    }
                    assert(differ_at(a, b, at + 1));
                }
            }
            if dictionary_order(a, b) {
                if begins_with(b, a) {
                    assert(begins_with(y, x));
                } else {
                    let at = choose|at: int| differ_at(a, b, at);
                    assert(at > 0);
                    assert(differ_at(x, y, at - 1));
                }
            }
        } else {
            if a[0] < b[0] {
                assert(differ_at(a, b, 0));
            } else if exists|at: int| differ_at(a, b, at) {
                let at = choose|at: int| differ_at(a, b, at);
                assert(at == 0);
            }
        }
    } else if a.len() == 0 {
        assert(begins_with(b, a));
    } else {
        assert(!begins_with(b, a));
    }
}

/// Every text of an ordered list comes in dictionary order before those behind it.
pub proof fn ordered_lists_follow_the_dictionary(list: Seq<Seq<char>>)
    ensures
        text::in_order(list) <==> forall|i: int, j: int|
            0 <= i < j < list.len() ==> #[trigger] dictionary_order(list[i], list[j]),
{
    if text::in_order(list) {
        assert forall|i: int, j: int| 0 <= i < j < list.len() implies #[trigger] dictionary_order(
            list[i],
            list[j],
        ) by {
            assert(text::text_le(list[i], list[j]));
            texts_are_ordered_as_in_a_dictionary(list[i], list[j]);
        }
    }
    if forall|i: int, j: int|
        0 <= i < j < list.len() ==> #[trigger] dictionary_order(list[i], list[j]) {
        assert forall|i: int, j: int| 0 <= i < j < list.len() implies #[trigger] text::text_le(
            list[i],
            list[j],
        ) by {
            assert(dictionary_order(list[i], list[j]));
            texts_are_ordered_as_in_a_dictionary(list[i], list[j]);
        }
    }
}

/// Putting a list in order keeps every text as often as it is there, and no other.
pub proof fn ordering_keeps_every_text(list: Seq<Seq<char>>)
    ensures
        text::ordered(list).to_multiset() == list.to_multiset(),
        text::ordered(list).len() == list.len(),
        forall|i: int, j: int|
            0 <= i < j < list.len() ==> #[trigger] dictionary_order(
                text::ordered(list)[i],
                text::ordered(list)[j],
            ),
{
    text::ordered_is_in_order(list);
    ordered_lists_follow_the_dictionary(text::ordered(list));
    vstd::seq_lib::to_multiset_len(list);
    vstd::seq_lib::to_multiset_len(text::ordered(list));
}

/// Joining: nothing gives nothing, one text gives itself, and two lists in a row
/// give what each gives, with the separator once between them.
pub proof fn joining_separates_neighbours(
    a: Seq<Seq<char>>,
    b: Seq<Seq<char>>,
    one: Seq<char>,
    separator: Seq<char>,
)
    ensures
        text::joined(Seq::empty(), separator) == Seq::<char>::empty(),
        text::joined(seq![one], separator) == one,
        a.len() > 0 && b.len() > 0 ==> text::joined(a + b, separator) == text::joined(a, separator)
            + separator + text::joined(b, separator),
    decreases b.len(),
{
    if a.len() > 0 && b.len() > 0 {
        let whole = a + b;
        assert(whole.last() == b.last());
        assert(whole.drop_last() =~= a + b.drop_last());
        if b.len() == 1 {
            assert(whole.drop_last() =~= a);
            assert(text::joined(b, separator) == b[0]);
        } else {
            joining_separates_neighbours(a, b.drop_last(), one, separator);
            assert(text::joined(whole, separator) == text::joined(a + b.drop_last(), separator)
                + separator + b.last());
            assert(text::joined(b, separator) == text::joined(b.drop_last(), separator) + separator
                + b.last());
            assert(text::joined(whole, separator) =~= text::joined(a, separator) + separator
                + text::joined(b, separator));
        }
    }
}

/// The number that is read by going on from `so_far` through `digits`, front to
/// back.
pub open spec fn read_on(so_far: nat, digits: Seq<char>) -> nat
    decreases digits.len(),
{
    if digits.len() == 0 {
        so_far
    } else {
        read_on(so_far * 10 + (digits[0] as nat - '0' as nat) as nat, digits.drop_first())
    }
}

/// What stands in `raw` behind a `+` in front, or all of it.
pub open spec fn behind_plus(raw: Seq<char>) -> Seq<char> {
    if raw.len() > 0 && raw[0] == '+' {
        raw.drop_first()
    } else {
        raw
    }
}

/// All characters are ASCII digits.
pub open spec fn are_digits(digits: Seq<char>) -> bool {
    forall|i: int| 0 <= i < digits.len() ==> '0' <= (#[trigger] digits[i]) && digits[i] <= '9'
}

/// `raw` is one ASCII digit or more, with or without a `+` in front.
pub open spec fn is_numeral(raw: Seq<char>) -> bool {
    behind_plus(raw).len() > 0 && are_digits(behind_plus(raw))
}

/// The number that a numeral writes.
pub open spec fn numeral_value(raw: Seq<char>) -> nat {
    read_on(0, behind_plus(raw))
}

/// Reading on behind digits gives the number of all of them.
proof fn reading_on_reads_all(front: Seq<char>, digits: Seq<char>)
    requires
        are_digits(digits),
    ensures
        read_on(text::digits_value(front), digits) == text::digits_value(front + digits),
    decreases digits.len(),
{
    if digits.len() == 0 {
        assert(front + digits =~= front);
    } else {
        let more = front.push(digits[0]);
        assert(more.drop_last() =~= front);
        assert(text::digits_value(more) == 10 * text::digits_value(front) + (digits[0] as nat
            - '0' as nat) as nat);
        assert(front + digits =~= more + digits.drop_first());
        reading_on_reads_all(more, digits.drop_first());
    }
}

/// A text states a decimal number exactly where it is a numeral, and then the one
/// that its digits write.
pub proof fn decimals_are_numerals(raw: Seq<char>)
    ensures
        text::decimal(raw) is Some <==> is_numeral(raw),
        is_numeral(raw) ==> text::decimal(raw) == Some(numeral_value(raw)),
{
    let digits = text::unsigned_part(raw);
    if is_numeral(raw) {
        assert(forall|i: int| 0 <= i < digits.len() ==> text::is_digit(#[trigger] digits[i]));
        assert(text::digits_value(Seq::empty()) == 0);
        reading_on_reads_all(Seq::empty(), digits);
        assert(Seq::<char>::empty() + digits =~= digits);
    }
    if text::decimal(raw) is Some {
        assert(are_digits(digits));
    }
}

/// A numeral states the priority that it writes, for every number that a `u32` can
/// hold, and no other text states one.
pub proof fn priorities_are_their_numbers(raw: Seq<char>)
    ensures
        is_numeral(raw) && numeral_value(raw) <= 4_294_967_295 ==> convert::stated_priority(raw)
            == Some(numeral_value(raw) as u32),
        !is_numeral(raw) || numeral_value(raw) > 4_294_967_295 ==> convert::stated_priority(
            raw,
        ) is None,
{
    decimals_are_numerals(raw);
}

/// A numeral states the seconds that it writes, for every number that a `u64` can
/// hold, and no other text states any.
pub proof fn seconds_are_their_numbers(raw: Seq<char>)
    ensures
        is_numeral(raw) && numeral_value(raw) <= 18_446_744_073_709_551_615 ==> config::stated_u64(
            raw,
        ) == Some(numeral_value(raw)),
        !is_numeral(raw) || numeral_value(raw) > 18_446_744_073_709_551_615 ==> config::stated_u64(
            raw,
        ) is None,
{
    decimals_are_numerals(raw);
}

/// An array of texts has as many elements as there are texts, and each is the JSON
/// text of the text in its place.
pub proof fn arrays_hold_every_text(list: Seq<Seq<char>>)
    ensures
        json::text_array(list) matches Json::Array(elements) && elements.len() == list.len()
            && forall|i: int|
            0 <= i < list.len() ==> #[trigger] elements[i] == Json::Text(list[i]),
{
}

/// Values in a list hold what each of them holds, in its place.
pub proof fn lists_hold_every_value(values: Seq<serde_json::Value>)
    ensures
        json::json_list(values).len() == values.len(),
        forall|i: int|
            0 <= i < values.len() ==> #[trigger] json::json_list(values)[i] == json::content(
                values[i],
            ),
{
}

/// An object that is absent has no members, not even none.
pub proof fn absent_objects_stay_absent(
    object: Option<serde_json::Map<String, serde_json::Value>>,
    key: Seq<char>,
)
    ensures
        object is None <==> json::optional_members(object) is None,
        object matches Some(there) ==> json::optional_members(object) == Some(
            json::members(there),
        ),
        !json::no_members().dom().contains(key),
{
}

/// A request holds what its fields hold.
pub proof fn requests_hold_their_fields(request: EvaluationRequest)
    ensures
        request@.subject.entity_type == request.subject.entity_type@,
        request@.subject.id == request.subject.id@,
        request@.subject.properties == json::optional_members(request.subject.properties),
        request@.action == request.action.name@,
        request@.resource.entity_type == request.resource.entity_type@,
        request@.resource.id == request.resource.id@,
        request@.resource.properties == json::optional_members(request.resource.properties),
        request.context is None <==> request@.context is None,
        request.context matches Some(value) ==> request@.context == Some(json::content(value)),
{
}

/// The document of an entity: its type and id under `uid`, its properties under
/// `attrs`, nothing under `parents`.
pub open spec fn written(
    entity_type: Seq<char>,
    id: Seq<char>,
    properties: Map<Seq<char>, Json>,
) -> Json {
    Json::Object(
        map![
            "uid"@ => Json::Object(
                map!["type"@ => Json::Text(entity_type), "id"@ => Json::Text(id)],
            ),
            "attrs"@ => Json::Object(properties),
            "parents"@ => Json::Array(Seq::empty()),
        ],
    )
}

/// The keys of an entity's document are different.
proof fn document_keys_differ()
    ensures
        "uid"@ != "attrs"@,
        "uid"@ != "parents"@,
        "attrs"@ != "parents"@,
        "type"@ != "id"@,
{
    reveal_strlit("uid");
    reveal_strlit("attrs");
    reveal_strlit("parents");
    reveal_strlit("type");
    reveal_strlit("id");
    assert("uid"@.len() == 3 && "attrs"@.len() == 5 && "parents"@.len() == 7);
    assert("type"@.len() == 4 && "id"@.len() == 2);
}

/// A document of entities lists each entity in its place, with all of its
/// properties.
pub proof fn documents_list_every_entity(entries: Seq<EntityEntry>)
    ensures
        cedar::entities_document(entries) matches Json::Array(documents) && documents.len()
            == entries.len() && forall|i: int|
            0 <= i < entries.len() ==> #[trigger] documents[i] == written(
                entries[i].entity.entity_type,
                entries[i].entity.id,
                entries[i].attributes,
            ),
{
    document_keys_differ();
    let documents = match cedar::entities_document(entries) {
        Json::Array(documents) => documents,
        _ => Seq::empty(),
    };
    assert forall|i: int| 0 <= i < entries.len() implies #[trigger] documents[i] == written(
        entries[i].entity.entity_type,
        entries[i].entity.id,
        entries[i].attributes,
    ) by {
        let entry = entries[i];
        assert(json::no_members().insert("type"@, Json::Text(entry.entity.entity_type)).insert(
            "id"@,
            Json::Text(entry.entity.id),
        ) =~= map!["type"@ => Json::Text(entry.entity.entity_type), "id"@ => Json::Text(
            entry.entity.id,
        )]);
        let uid = Json::Object(
            map!["type"@ => Json::Text(entry.entity.entity_type), "id"@ => Json::Text(
                entry.entity.id,
            )],
        );
        assert(json::no_members().insert("uid"@, uid).insert(
            "attrs"@,
            Json::Object(entry.attributes),
        ).insert("parents"@, Json::Array(Seq::empty())) =~= map![
            "uid"@ => uid,
            "attrs"@ => Json::Object(entry.attributes),
            "parents"@ => Json::Array(Seq::empty()),
        ]);
        assert(documents[i] == cedar::entity_document(entry.entity, entry.attributes));
    }
}

/// The properties that a party brings along; none where they are absent.
pub open spec fn brought(party: PartyModel) -> Map<Seq<char>, Json> {
    if party.properties is Some {
        party.properties->0
    } else {
        Map::empty()
    }
}

/// The document of the entities of a request: the subject with its properties,
/// always, and behind it the resource with its properties, where it has any.
pub open spec fn written_request(request: RequestModel) -> Json {
    let subject = written(
        request.subject.entity_type,
        request.subject.id,
        brought(request.subject),
    );
    let resource = written(
        request.resource.entity_type,
        request.resource.id,
        brought(request.resource),
    );
    if exists|key: Seq<char>| brought(request.resource).dom().contains(key) {
        Json::Array(seq![subject, resource])
    } else {
        Json::Array(seq![subject])
    }
}

/// The entities that are handed to Cedar are those of the document of the request.
pub proof fn entities_are_those_of_the_request(request: RequestModel)
    ensures
        cedar::entities_document(convert::request_entries(request)) == written_request(request),
{
    let entries = convert::request_entries(request);
    documents_list_every_entity(entries);
    let properties = brought(request.resource);
    if exists|key: Seq<char>| properties.dom().contains(key) {
        let key = choose|key: Seq<char>| properties.dom().contains(key);
        assert(!json::no_members().dom().contains(key));
    } else {
        assert(properties =~= json::no_members());
    }
    match (cedar::entities_document(entries), written_request(request)) {
        (Json::Array(a), Json::Array(b)) => {
            assert(a =~= b);
        },
        _ => {},
    }
}

/// What is asked of Cedar with the given context: the subject as the principal, the
/// named action, and the resource, each with its own type and id.
pub open spec fn asked_with(request: RequestModel, context: Attributes) -> QuestionModel {
    QuestionModel {
        principal: EntityRef { entity_type: request.subject.entity_type, id: request.subject.id },
        action: EntityRef { entity_type: "Action"@, id: request.action },
        resource: EntityRef {
            entity_type: request.resource.entity_type,
            id: request.resource.id,
        },
        context,
    }
}

/// `context` is what Cedar makes of the context of a request: what it parses from
/// the value for the action, or the empty one where there is no value.
pub open spec fn is_context_of(
    context: Attributes,
    request: RequestModel,
    schema: Schema,
) -> bool {
    if request.context is Some {
        cedar::parsed_context(
            request.context->0,
            schema,
            EntityRef { entity_type: "Action"@, id: request.action },
        ) == Some(context)
    } else {
        context == Map::<Seq<char>, Seq<char>>::empty()
    }
}

/// Whatever its properties, a request is put to Cedar with exactly the context that
/// Cedar parses from its value, as its subject, its action and its resource.
pub proof fn question_is_that_of_the_request(
    request: RequestModel,
    schema: Schema,
    context: Attributes,
)
    ensures
        convert::request_context(request, schema) == Some(context) <==> is_context_of(
            context,
            request,
            schema,
        ),
        convert::request_context(request, schema) is None <==> request.context is Some
            && cedar::parsed_context(
            request.context->0,
            schema,
            EntityRef { entity_type: "Action"@, id: request.action },
        ) is None,
        convert::request_question(request, context) == asked_with(request, context),
{
}

/// The types of both parties of a request are names of types.
pub open spec fn names_types(request: RequestModel) -> bool {
    cedar::is_type_name(request.subject.entity_type) && cedar::is_type_name(
        request.resource.entity_type,
    )
}

/// A request is accepted exactly where both types are names, Cedar accepts the
/// context, the question conforms to the schema and Cedar accepts the entities; and
/// it is refused for the first of these that fails.
pub proof fn requests_are_refused_for_their_first_fault(request: RequestModel, schema: Schema)
    ensures
        ({
            let refusal = convert::refusal(request, schema);
            &&& refusal == Some(Refusal::Entity) <==> !names_types(request)
            &&& refusal == Some(Refusal::Context) <==> {
                &&& names_types(request)
                &&& forall|context: Attributes| !is_context_of(context, request, schema)
            }
            &&& refusal == Some(Refusal::Request) <==> {
                &&& names_types(request)
                &&& exists|context: Attributes|
                    is_context_of(context, request, schema) && !cedar::request_conforms(
                        #[trigger] asked_with(request, context),
                        schema,
                    )
            }
            &&& refusal == Some(Refusal::Properties) <==> {
                &&& names_types(request)
                &&& exists|context: Attributes|
                    is_context_of(context, request, schema) && cedar::request_conforms(
                        #[trigger] asked_with(request, context),
                        schema,
                    )
                &&& cedar::parsed_entities(written_request(request), schema) is None
            }
            &&& refusal is None <==> {
                &&& names_types(request)
                &&& exists|context: Attributes|
                    is_context_of(context, request, schema) && cedar::request_conforms(
                        #[trigger] asked_with(request, context),
                        schema,
                    )
                &&& cedar::parsed_entities(written_request(request), schema) is Some
            }
        }),
{
    entities_are_those_of_the_request(request);
    match convert::request_context(request, schema) {
        Some(context) => {
            question_is_that_of_the_request(request, schema, context);
            assert(is_context_of(context, request, schema));
            assert(asked_with(request, context) == convert::request_question(request, context));
            assert forall|other: Attributes| is_context_of(other, request, schema) implies other
                == context by {
                question_is_that_of_the_request(request, schema, other);
            }
        },
        None => {
            assert forall|other: Attributes| !is_context_of(other, request, schema) by {
                question_is_that_of_the_request(request, schema, other);
            }
        },
    }
}

/// Requests that differ in the properties of their parties alone are put to Cedar
/// as the same question, and are refused alike but for their properties.
pub proof fn properties_leave_the_question(a: RequestModel, b: RequestModel, schema: Schema)
    requires
        a.subject.entity_type == b.subject.entity_type,
        a.subject.id == b.subject.id,
        a.resource.entity_type == b.resource.entity_type,
        a.resource.id == b.resource.id,
        a.action == b.action,
        a.context == b.context,
    ensures
        convert::request_context(a, schema) == convert::request_context(b, schema),
        forall|context: Attributes| #[trigger]
            convert::request_question(a, context) == convert::request_question(b, context),
        convert::refusal(a, schema) == Some(Refusal::Entity) <==> convert::refusal(b, schema)
            == Some(Refusal::Entity),
        convert::refusal(a, schema) == Some(Refusal::Context) <==> convert::refusal(b, schema)
            == Some(Refusal::Context),
        convert::refusal(a, schema) == Some(Refusal::Request) <==> convert::refusal(b, schema)
            == Some(Refusal::Request),
{
}

/// A context that Cedar rejects always refuses the request, and what Cedar makes of
/// one that it accepts does not depend on anything but the value, the action and
/// the schema.
pub proof fn rejected_contexts_refuse(request: RequestModel, schema: Schema, value: Json)
    requires
        request.context == Some(value),
        cedar::parsed_context(
            value,
            schema,
            EntityRef { entity_type: "Action"@, id: request.action },
        ) is None,
    ensures
        convert::refusal(request, schema) is Some,
{
}

/// The error on a type tells the type with what Cedar says of it: the subject's
/// before the resource's.
pub proof fn type_errors_tell_the_type(
    error: ConversionError,
    detail: String,
    request: RequestModel,
    schema: Schema,
)
    requires
        convert::tells(error, request, schema),
        error == ConversionError::Entity(detail),
    ensures
        if !cedar::is_type_name(request.subject.entity_type) {
            detail@ == "type `"@ + request.subject.entity_type + "`: "@ + cedar::parse_message(
                cedar::type_name_errors(request.subject.entity_type),
            )
        } else {
            &&& !cedar::is_type_name(request.resource.entity_type)
            &&& detail@ == "type `"@ + request.resource.entity_type + "`: "@ + cedar::parse_message(
                cedar::type_name_errors(request.resource.entity_type),
            )
        },
{
}

/// The error on a request with a good context tells its fault: a question that does
/// not conform with what Cedar says of it, else that Cedar rejects the entities.
pub proof fn errors_tell_the_fault(
    error: ConversionError,
    request: RequestModel,
    schema: Schema,
    context: Attributes,
)
    requires
        convert::tells(error, request, schema),
        is_context_of(context, request, schema),
    ensures
        match error {
            ConversionError::Entity(_) => !names_types(request),
            ConversionError::Context(_) => false,
            ConversionError::Request(detail) => names_types(request) && !cedar::request_conforms(
                asked_with(request, context),
                schema,
            ) && detail@ == cedar::request_rejection(asked_with(request, context), schema),
            ConversionError::Properties(_) => names_types(request) && cedar::request_conforms(
                asked_with(request, context),
                schema,
            ) && cedar::parsed_entities(written_request(request), schema) is None,
        },
{
    question_is_that_of_the_request(request, schema, context);
    entities_are_those_of_the_request(request);
}

/// An error of a context tells that Cedar rejects the value.
pub proof fn context_errors_tell_the_value(
    error: ConversionError,
    request: RequestModel,
    schema: Schema,
)
    requires
        convert::tells(error, request, schema),
        error is Context,
    ensures
        names_types(request),
        request.context is Some,
        cedar::parsed_context(
            request.context->0,
            schema,
            EntityRef { entity_type: "Action"@, id: request.action },
        ) is None,
{
}

/// What an error is answered with, by its kind, whatever its detail.
pub proof fn conversion_errors_are_told_by_kind(detail: String)
    ensures
        ConversionError::Entity(detail).code_text() == "invalid_entity"@,
        ConversionError::Context(detail).code_text() == "invalid_context"@,
        ConversionError::Properties(detail).code_text() == "invalid_properties"@,
        ConversionError::Request(detail).code_text() == "invalid_request"@,
        ConversionError::Entity(detail).message_text() == "invalid entity reference: "@ + detail@,
        ConversionError::Context(detail).message_text() == "invalid context: "@ + detail@,
        ConversionError::Properties(detail).message_text() == "invalid properties: "@ + detail@,
        ConversionError::Request(detail).message_text() == "invalid request: "@ + detail@,
{
}

/// What a failed request is answered with: status, code and message.
pub proof fn api_errors_are_told_by_kind(
    unreadable: serde_json::Error,
    unconverted: ConversionError,
)
    ensures
        ApiError::InvalidJson(unreadable).number() == 400,
        ApiError::InvalidJson(unreadable).code_text() == "invalid_json"@,
        ApiError::InvalidJson(unreadable).message_text() == json::json_error_message(unreadable),
        ApiError::Conversion(unconverted).number() == 400,
        ApiError::Conversion(unconverted).code_text() == unconverted.code_text(),
        ApiError::Conversion(unconverted).message_text() == unconverted.message_text(),
        ApiError::Evaluation.number() == 500,
        ApiError::Evaluation.code_text() == "evaluation_failed"@,
        ApiError::Evaluation.message_text() == "authorization failed"@,
{
}

/// The value of an annotation is the one that is written, and is absent exactly
/// where none is.
pub proof fn annotations_are_read_by_name(
    annotations: Map<Seq<char>, Seq<char>>,
    key: Seq<char>,
)
    ensures
        annotations.dom().contains(key) ==> cedar::annotation_value(annotations, key) == Some(
            annotations[key],
        ),
        !annotations.dom().contains(key) ==> cedar::annotation_value(annotations, key) is None,
{
}

/// The policy at `at` is the frontmost of the list with its internal id.
pub open spec fn is_frontmost(list: Seq<PolicyModel>, at: int) -> bool {
    &&& 0 <= at < list.len()
    &&& forall|i: int| 0 <= i < at ==> (#[trigger] list[i]).key != list[at].key
}

/// A policy is found by its internal id, and nothing is found by any other.
pub proof fn policies_are_found_by_id(list: Seq<PolicyModel>, key: Seq<char>)
    ensures
        forall|at: int| #[trigger]
            is_frontmost(list, at) && list[at].key == key ==> cedar::find_policy(list, key) == Some(
                list[at],
            ),
        cedar::find_policy(list, key) matches Some(policy) ==> policy.key == key && exists|at: int|
            #[trigger] is_frontmost(list, at) && list[at] == policy,
        cedar::find_policy(list, key) is None <==> forall|i: int|
            0 <= i < list.len() ==> (#[trigger] list[i]).key != key,
{
    if cedar::has_policy(list, key) {
        let i = choose|i: int| 0 <= i < list.len() && (#[trigger] list[i]).key == key;
        some_stands_first(list, key, i);
        let at = choose|at: int| cedar::stands_first(list, key, at);
        assert(is_frontmost(list, at));
        assert forall|other: int| #[trigger]
            is_frontmost(list, other) && list[other].key == key implies cedar::find_policy(
            list,
            key,
        ) == Some(list[other]) by {
            assert(other == at);
        }
    } else {
        assert forall|i: int| 0 <= i < list.len() implies (#[trigger] list[i]).key != key by {}
    }
}

/// A policy that is listed has a frontmost one with its id.
proof fn some_stands_first(list: Seq<PolicyModel>, key: Seq<char>, upto: int)
    requires
        0 <= upto < list.len(),
        list[upto].key == key,
    ensures
        exists|at: int| cedar::stands_first(list, key, at),
    decreases upto,
{
    if exists|i: int| 0 <= i < upto && (#[trigger] list[i]).key == key {
        let i = choose|i: int| 0 <= i < upto && (#[trigger] list[i]).key == key;
        some_stands_first(list, key, i);
    } else {
        assert(cedar::stands_first(list, key, upto));
    }
}

/// References hold what the policies and ids that they refer to hold, each in its
/// place.
pub proof fn references_are_read_through(
    policies: Seq<&cedar_policy::Policy>,
    ids: Seq<&cedar_policy::PolicyId>,
)
    ensures
        cedar::policy_models(policies).len() == policies.len(),
        forall|i: int|
            0 <= i < policies.len() ==> #[trigger] cedar::policy_models(policies)[i]
                == cedar::policy_model(*policies[i]),
        cedar::policy_keys(ids).len() == ids.len(),
        forall|i: int|
            0 <= i < ids.len() ==> #[trigger] cedar::policy_keys(ids)[i] == cedar::policy_key(
                *ids[i],
            ),
{
}

/// The name of a policy: the value of its `@id` where it has one, else its internal
/// id as Cedar displays it.
pub open spec fn name_of(policy: PolicyModel) -> Seq<char> {
    if policy.annotations.dom().contains("id"@) {
        policy.annotations["id"@]
    } else {
        cedar::displayed_key(policy.key)
    }
}

/// A policy goes by its `@id`, whatever its other annotations, and without one by
/// its internal id.
pub proof fn policies_go_by_their_id(policy: PolicyModel)
    ensures
        convert::display_text(policy) == name_of(policy),
{
}

/// No annotation but `@id` has a say in the name of a policy.
pub proof fn other_annotations_leave_the_name(
    policy: PolicyModel,
    key: Seq<char>,
    value: Seq<char>,
)
    requires
        key != "id"@,
    ensures
        convert::display_text(
            PolicyModel {
                key: policy.key,
                annotations: policy.annotations.insert(key, value),
            },
        ) == convert::display_text(policy),
        convert::display_text(
            PolicyModel { key: policy.key, annotations: policy.annotations.remove(key) },
        ) == convert::display_text(policy),
        convert::display_text(
            PolicyModel {
                key: policy.key,
                annotations: policy.annotations.insert("id"@, value),
            },
        ) == value,
{
}

/// The number that the `@priority` of a policy writes; the greatest `u32` where it
/// has none, or one that writes no number that a `u32` can hold.
pub open spec fn number_of(policy: PolicyModel) -> nat {
    let raw = policy.annotations["priority"@];
    if policy.annotations.dom().contains("priority"@) && is_numeral(raw) && numeral_value(raw)
        <= 4_294_967_295 {
        numeral_value(raw)
    } else {
        4_294_967_295
    }
}

/// The priority of a policy is the number that its `@priority` writes.
pub proof fn policies_rank_by_their_number(policy: PolicyModel)
    ensures
        convert::policy_priority(policy) == number_of(policy),
        convert::policy_rank(policy).priority == number_of(policy),
        convert::policy_rank(policy).name == name_of(policy),
{
    if policy.annotations.dom().contains("priority"@) {
        priorities_are_their_numbers(policy.annotations["priority"@]);
    }
}

/// The policy at `at` supplies the context: no policy states a smaller number; none
/// with the same number has a name that comes first; and none with the same number
/// and the same name stands in front of it.
pub open spec fn supplies(policies: Seq<PolicyModel>, at: int) -> bool {
    &&& 0 <= at < policies.len()
    &&& forall|i: int|
        0 <= i < policies.len() ==> number_of(policies[at]) <= number_of(#[trigger] policies[i])
    &&& forall|i: int|
        0 <= i < policies.len() && number_of(#[trigger] policies[i]) == number_of(policies[at])
            ==> dictionary_order(name_of(policies[at]), name_of(policies[i]))
    &&& forall|i: int|
        0 <= i < at ==> number_of(#[trigger] policies[i]) != number_of(policies[at]) || name_of(
            policies[i],
        ) != name_of(policies[at])
}

/// Every text is in dictionary order with itself.
proof fn dictionary_holds_itself(a: Seq<char>)
    ensures
        dictionary_order(a, a),
{
    assert(begins_with(a, a));
}

/// One policy supplies the context, and which one is fixed by the numbers, the
/// names and the places of the policies.
pub proof fn the_smallest_number_supplies(policies: Seq<PolicyModel>)
    requires
        policies.len() > 0,
    ensures
        exists|at: int| #[trigger]
            supplies(policies, at) && convert::winner(policies) == policies[at],
        forall|a: int, b: int| #[trigger]
            supplies(policies, a) && #[trigger] supplies(policies, b) ==> a == b,
{
    let ranks = convert::policy_ranks(policies);
    convert::some_is_first(ranks);
    let at = choose|at: int| convert::is_first(ranks, at);
    let first = policies[at];
    policies_rank_by_their_number(first);
    assert(ranks[at] == convert::policy_rank(first));
    assert forall|i: int| 0 <= i < policies.len() implies number_of(first) <= number_of(
        #[trigger] policies[i],
    ) && (number_of(policies[i]) == number_of(first) ==> dictionary_order(
        name_of(first),
        name_of(policies[i]),
    )) && (i < at ==> number_of(policies[i]) != number_of(first) || name_of(policies[i])
        != name_of(first)) by {
        let (x, y) = (ranks[at], ranks[i]);
        assert(y == convert::policy_rank(policies[i]));
        policies_rank_by_their_number(policies[i]);
        texts_are_ordered_as_in_a_dictionary(x.name, y.name);
        texts_are_ordered_as_in_a_dictionary(y.name, x.name);
        text::text_lt_is_not_ge(x.name, y.name);
        text::text_lt_is_not_ge(y.name, x.name);
        dictionary_holds_itself(x.name);
        if i < at {
            assert(convert::precedes(x, y));
        } else if i > at {
            assert(!convert::precedes(y, x));
        }
    }
    assert(supplies(policies, at));
    assert forall|a: int, b: int| #[trigger]
        supplies(policies, a) && #[trigger] supplies(policies, b) implies a == b by {
        assert(number_of(policies[a]) == number_of(policies[b]));
        let (x, y) = (name_of(policies[a]), name_of(policies[b]));
        texts_are_ordered_as_in_a_dictionary(x, y);
        texts_are_ordered_as_in_a_dictionary(y, x);
        text::text_le_antisymmetric(x, y);
    }
}

/// Of two determining policies that state different numbers, the one with the
/// greater never supplies the context.
pub proof fn the_greater_number_never_supplies(policies: Seq<PolicyModel>, other: PolicyModel)
    requires
        policies.contains(other),
    ensures
        number_of(convert::winner(policies)) <= number_of(other),
{
    the_smallest_number_supplies(policies);
    let i = choose|i: int| 0 <= i < policies.len() && policies[i] == other;
    let at = choose|at: int| #[trigger]
        supplies(policies, at) && convert::winner(policies) == policies[at];
    assert(number_of(policies[at]) <= number_of(policies[i]));
}

/// What a policy puts under `key`: the value of `@decision_context_<key>`.
pub open spec fn says(policy: PolicyModel, key: Seq<char>) -> Option<Seq<char>> {
    if key.len() > 0 && policy.annotations.dom().contains("decision_context_"@ + key) {
        Some(policy.annotations["decision_context_"@ + key])
    } else {
        None
    }
}

/// The context that determining policies give a decision: there is one exactly
/// where the supplying policy says anything; it goes under that policy's name, and
/// holds what that policy says, all of it as texts, and nothing else.
pub proof fn context_is_what_one_policy_says(policies: Seq<PolicyModel>, at: int)
    requires
        supplies(policies, at),
    ensures
        convert::decision_context(policies) is None <==> forall|key: Seq<char>|
            (#[trigger] says(policies[at], key)) is None,
        convert::decision_context(policies) matches Some(given) ==> {
            &&& given.policy_id == name_of(policies[at])
            &&& forall|key: Seq<char>| #[trigger]
                given.context.dom().contains(key) <==> says(policies[at], key) is Some
            &&& forall|key: Seq<char>| #[trigger]
                given.context.dom().contains(key) ==> given.context[key] == Json::Text(
                    says(policies[at], key)->0,
                )
        },
{
    the_smallest_number_supplies(policies);
    let first = policies[at];
    let other = choose|other: int| #[trigger]
        supplies(policies, other) && convert::winner(policies) == policies[other];
    assert(convert::winner(policies) == first);
    policies_go_by_their_id(first);
    let context = convert::annotation_members(first.annotations);
    assert forall|key: Seq<char>| #[trigger] context.dom().contains(key) <==> says(
        first,
        key,
    ) is Some by {}
    if context == json::no_members() {
        assert forall|key: Seq<char>| (#[trigger] says(first, key)) is None by {
            assert(!context.dom().contains(key));
        }
    } else if forall|key: Seq<char>| (#[trigger] says(first, key)) is None {
        assert forall|key: Seq<char>| !context.dom().contains(key) by {
            assert(says(first, key) is None);
        }
        assert(context =~= json::no_members());
    }
}

/// Where there are no determining policies that are known, there is no context of
/// theirs.
pub proof fn no_policies_give_no_context()
    ensures
        convert::decision_context(Seq::empty()) is None,
{
}

/// The policies that the ids refer to, by their frontmost policy, in the order of
/// the ids: one id after the other.
pub proof fn candidates_follow_the_ids(
    list: Seq<PolicyModel>,
    a: Seq<Seq<char>>,
    b: Seq<Seq<char>>,
    key: Seq<char>,
)
    ensures
        convert::candidates(list, Seq::empty()).len() == 0,
        convert::candidates(list, a + b) == convert::candidates(list, a) + convert::candidates(
            list,
            b,
        ),
        forall|at: int| #[trigger]
            is_frontmost(list, at) && list[at].key == key ==> convert::candidates(list, seq![key])
                == seq![list[at]],
        (forall|i: int| 0 <= i < list.len() ==> (#[trigger] list[i]).key != key)
            ==> convert::candidates(list, seq![key]).len() == 0,
    decreases b.len(),
{
    policies_are_found_by_id(list, key);
    let one = seq![key];
    assert(one.drop_last() =~= Seq::empty());
    assert(one.last() == key);
    assert(convert::candidates(list, one.drop_last()) =~= Seq::empty());
    assert forall|at: int| #[trigger]
        is_frontmost(list, at) && list[at].key == key implies convert::candidates(list, one)
        == seq![list[at]] by {
        assert(convert::candidates(list, one) =~= seq![list[at]]);
    }
    if b.len() == 0 {
        assert(a + b =~= a);
        assert(convert::candidates(list, a) + convert::candidates(list, b) =~= convert::candidates(
            list,
            a,
        ));
    } else {
        candidates_follow_the_ids(list, a, b.drop_last(), key);
        assert((a + b).drop_last() =~= a + b.drop_last());
        assert((a + b).last() == b.last());
        assert(convert::candidates(list, a + b) =~= convert::candidates(list, a)
            + convert::candidates(list, b));
    }
}

/// Of priorities and names, the place that goes first has the smallest number; of
/// those with that number a name that no other comes before; and of those with that
/// name too it is the frontmost.
pub proof fn first_place_has_the_smallest_number(list: Seq<(u32, String)>, at: int)
    requires
        convert::is_first(convert::rank_list(list), at),
    ensures
        0 <= at < list.len(),
        forall|i: int| 0 <= i < list.len() ==> list[at].0 <= (#[trigger] list[i]).0,
        forall|i: int|
            0 <= i < list.len() && (#[trigger] list[i]).0 == list[at].0 ==> dictionary_order(
                list[at].1@,
                list[i].1@,
            ),
        forall|i: int|
            0 <= i < at ==> (#[trigger] list[i]).0 != list[at].0 || list[i].1@ != list[at].1@,
{
    let ranks = convert::rank_list(list);
    assert forall|i: int| 0 <= i < list.len() implies list[at].0 <= (#[trigger] list[i]).0 && (
    list[i].0 == list[at].0 ==> dictionary_order(list[at].1@, list[i].1@)) && (i < at ==> list[i].0
        != list[at].0 || list[i].1@ != list[at].1@) by {
        let (x, y) = (ranks[at], ranks[i]);
        assert(x.priority == list[at].0 && x.name == list[at].1@);
        assert(y.priority == list[i].0 && y.name == list[i].1@);
        texts_are_ordered_as_in_a_dictionary(x.name, y.name);
        texts_are_ordered_as_in_a_dictionary(y.name, x.name);
        text::text_lt_is_not_ge(x.name, y.name);
        text::text_lt_is_not_ge(y.name, x.name);
        dictionary_holds_itself(x.name);
        if i < at {
            assert(convert::precedes(x, y));
        } else if i > at {
            assert(!convert::precedes(y, x));
        }
    }
}

/// An annotation has a key exactly where it begins with `decision_context_`: what
/// stands behind.
pub proof fn keys_stand_behind_the_prefix(annotation: Seq<char>, key: Seq<char>)
    ensures
        convert::context_key(annotation) == Some(key) <==> annotation == "decision_context_"@ + key,
        convert::context_key(annotation) is None <==> forall|other: Seq<char>|
            annotation != #[trigger] ("decision_context_"@ + other),
{
    let prefix = "decision_context_"@;
    let length = prefix.len() as int;
    assert((prefix + key).take(length) =~= prefix);
    assert((prefix + key).skip(length) =~= key);
    if prefix.is_prefix_of(annotation) {
        assert(annotation =~= prefix + annotation.skip(length));
    } else {
        assert forall|other: Seq<char>| annotation != #[trigger] (prefix + other) by {
            assert((prefix + other).take(length) =~= prefix);
        }
    }
}

/// What annotations put into a context, one after the other: one with the prefix and
/// a key behind it puts its value there as a text, and every other leaves it as it
/// is.
pub proof fn annotations_are_put_one_by_one(
    list: Seq<(String, String)>,
    annotation: String,
    value: String,
)
    ensures
        convert::collected(Seq::empty()) == Map::<Seq<char>, Json>::empty(),
        forall|key: Seq<char>|
            key.len() > 0 && annotation@ == #[trigger] ("decision_context_"@ + key)
                ==> convert::collected(list.push((annotation, value))) == convert::collected(
                list,
            ).insert(key, Json::Text(value@)),
        (forall|key: Seq<char>|
            key.len() > 0 ==> annotation@ != #[trigger] ("decision_context_"@ + key))
            ==> convert::collected(list.push((annotation, value))) == convert::collected(list),
{
    let more = list.push((annotation, value));
    assert(more.drop_last() =~= list);
    assert(more.last() == (annotation, value));
    assert forall|key: Seq<char>|
        key.len() > 0 && annotation@ == #[trigger] ("decision_context_"@ + key) implies 
        convert::collected(more) == convert::collected(list).insert(key, Json::Text(value@)) by {
        keys_stand_behind_the_prefix(annotation@, key);
    }
    if forall|key: Seq<char>|
        key.len() > 0 ==> annotation@ != #[trigger] ("decision_context_"@ + key) {
        if let Some(key) = convert::context_key(annotation@) {
            keys_stand_behind_the_prefix(annotation@, key);
            assert(annotation@ == "decision_context_"@ + key);
        }
    }
}

/// The array of texts under a key of a context, if it holds one there.
pub open spec fn holds_texts(
    members: Map<Seq<char>, Json>,
    key: Seq<char>,
    texts: Seq<Seq<char>>,
) -> bool {
    &&& members.dom().contains(key)
    &&& members[key] is Array
    &&& members[key]->Array_0.len() == texts.len()
    &&& forall|i: int|
        0 <= i < texts.len() ==> #[trigger] members[key]->Array_0[i] == Json::Text(texts[i])
}

/// What annotations say under a key that is theirs: not `reason`, not `errors`.
pub open spec fn annotated(
    annotations: Option<Map<Seq<char>, Json>>,
    key: Seq<char>,
) -> Option<Json> {
    if key != "reason"@ && key != "errors"@ && annotations is Some
        && annotations->0.dom().contains(key) {
        Some(annotations->0[key])
    } else {
        None
    }
}

/// The context of a response: under `reason` an array of every name and under
/// `errors` one of every error, each in its place, where there are any; under every
/// other key what annotations say; and no context where that is nothing.
pub proof fn responses_report_everything(
    annotations: Option<Map<Seq<char>, Json>>,
    reason: Seq<Seq<char>>,
    errors: Seq<Seq<char>>,
)
    ensures
        convert::response_context(annotations, reason, errors) is None <==> reason.len() == 0
            && errors.len() == 0 && forall|key: Seq<char>|
            (#[trigger] annotated(annotations, key)) is None,
        convert::response_context(annotations, reason, errors) matches Some(members) ==> {
            &&& reason.len() > 0 ==> holds_texts(members, "reason"@, reason)
            &&& reason.len() == 0 ==> !members.dom().contains("reason"@)
            &&& errors.len() > 0 ==> holds_texts(members, "errors"@, errors)
            &&& errors.len() == 0 ==> !members.dom().contains("errors"@)
            &&& forall|key: Seq<char>|
                key != "reason"@ && key != "errors"@ ==> (#[trigger] members.dom().contains(key)
                    <==> annotated(annotations, key) is Some)
            &&& forall|key: Seq<char>|
                key != "reason"@ && key != "errors"@ && #[trigger] members.dom().contains(key)
                    ==> members[key] == annotated(annotations, key)->0
        },
{
    reveal_strlit("reason");
    reveal_strlit("errors");
    assert("reason"@[0] == 'r' && "errors"@[0] == 'e');
    let given = match annotations {
        Some(members) => members,
        None => json::no_members(),
    };
    let members = convert::response_members(given, reason, errors);
    arrays_hold_every_text(reason);
    arrays_hold_every_text(errors);
    assert forall|key: Seq<char>| key != "reason"@ && key != "errors"@ implies (
    #[trigger] members.dom().contains(key) <==> annotated(annotations, key) is Some) by {}
    if members == json::no_members() {
        assert(!members.dom().contains("reason"@) && !members.dom().contains("errors"@));
        assert forall|key: Seq<char>| (#[trigger] annotated(annotations, key)) is None by {
            assert(!members.dom().contains(key));
        }
    } else if reason.len() == 0 && errors.len() == 0 && (forall|key: Seq<char>|
        (#[trigger] annotated(annotations, key)) is None) {
        assert forall|key: Seq<char>| !members.dom().contains(key) by {
            assert(annotated(annotations, key) is None);
        }
        assert(members =~= json::no_members());
    }
}

/// The reserved keys that annotations give values are told, and no other.
pub proof fn overridden_keys_are_told(
    annotations: Option<Map<Seq<char>, Json>>,
    key: Seq<char>,
)
    ensures
        convert::overridden(annotations).contains(key) <==> (key == "reason"@ || key == "errors"@)
            && annotations is Some && annotations->0.dom().contains(key),
        convert::is_reserved_key(key) <==> key == "reason"@ || key == "errors"@,
        convert::overridden(annotations).len() <= 2,
{
    let told = convert::overridden(annotations);
    if annotations is Some {
        let members = annotations->0;
        if members.dom().contains("reason"@) {
            assert(told[0] == "reason"@);
        }
        if members.dom().contains("errors"@) {
            assert(told[told.len() - 1] == "errors"@);
        }
    }
}

/// The name that a policy is reported by: that of the frontmost policy with the id,
/// or the id as Cedar displays it where no such policy is known.
pub proof fn determining_policies_are_named(
    list: Option<Seq<PolicyModel>>,
    keys: Seq<Seq<char>>,
    i: int,
)
    requires
        0 <= i < keys.len(),
    ensures
        handlers::policy_names(list, keys).len() == keys.len(),
        list matches Some(known) ==> forall|at: int| #[trigger]
            is_frontmost(known, at) && known[at].key == keys[i] ==> handlers::policy_names(
                list,
                keys,
            )[i] == name_of(known[at]),
        (list matches Some(known) ==> forall|at: int|
            0 <= at < known.len() ==> (#[trigger] known[at]).key != keys[i])
            ==> handlers::policy_names(list, keys)[i] == cedar::displayed_key(keys[i]),
{
    if let Some(known) = list {
        policies_are_found_by_id(known, keys[i]);
        assert forall|at: int| #[trigger]
            is_frontmost(known, at) && known[at].key == keys[i] implies handlers::policy_names(
            list,
            keys,
        )[i] == name_of(known[at]) by {
            policies_go_by_their_id(known[at]);
        }
    }
}

/// `reason` holds the names of the determining policies, each as often as it is
/// listed and no other, in dictionary order.
pub proof fn reason_holds_every_name(list: Option<Seq<PolicyModel>>, keys: Seq<Seq<char>>)
    ensures
        handlers::reason_names(list, keys).to_multiset() == handlers::policy_names(
            list,
            keys,
        ).to_multiset(),
        handlers::reason_names(list, keys).len() == keys.len(),
        forall|i: int, j: int|
            0 <= i < j < keys.len() ==> #[trigger] dictionary_order(
                handlers::reason_names(list, keys)[i],
                handlers::reason_names(list, keys)[j],
            ),
{
    ordering_keeps_every_text(handlers::policy_names(list, keys));
}

/// The ids of the policies that determined a response are listed each once, and no
/// other.
pub proof fn determining_policies_are_listed_once(
    keys: Seq<Seq<char>>,
    response: Response,
    key: Seq<char>,
)
    requires
        handlers::lists_determining(keys, response),
    ensures
        (exists|i: int| 0 <= i < keys.len() && #[trigger] keys[i] == key)
            <==> cedar::determining(response).contains(key),
        forall|i: int, j: int|
            0 <= i < j < keys.len() ==> #[trigger] keys[i] != #[trigger] keys[j],
{
    assert(keys.to_set().contains(key) <==> keys.contains(key));
}

/// The policies among which the one is chosen that supplies the context.
pub open spec fn known_policies(
    list: Option<Seq<PolicyModel>>,
    keys: Seq<Seq<char>>,
) -> Seq<PolicyModel> {
    if list is Some {
        convert::candidates(list->0, keys)
    } else {
        Seq::empty()
    }
}

/// What is answered and recorded of a decision: Cedar's own decision; the names of
/// the determining policies and the errors, all of them; what the supplying policy
/// says under keys that are not reserved; and the parties by type and id.
pub proof fn evaluations_answer_and_record(
    evaluation: Evaluation,
    request: RequestModel,
    allowed: bool,
    list: Option<Seq<PolicyModel>>,
    keys: Seq<Seq<char>>,
    errors: Seq<Seq<char>>,
)
    requires
        evaluation.evaluates(request, allowed, list, keys, errors),
    ensures
        evaluation.response.decision == allowed,
        keys.len() > 0 || errors.len() > 0 ==> evaluation.response.context is Some,
        evaluation.response.context matches Some(context) ==> {
            &&& keys.len() > 0 ==> holds_texts(
                json::members(context),
                "reason"@,
                handlers::reason_names(list, keys),
            )
            &&& errors.len() > 0 ==> holds_texts(json::members(context), "errors"@, errors)
            &&& errors.len() == 0 ==> !json::members(context).dom().contains("errors"@)
        },
        evaluation.audit.target.subject@ == request.subject.entity_type + "::"@
            + request.subject.id,
        evaluation.audit.target.action@ == request.action,
        evaluation.audit.target.resource@ == request.resource.entity_type + "::"@
            + request.resource.id,
        allowed ==> evaluation.audit.decision@ == "allow"@,
        !allowed ==> evaluation.audit.decision@ == "deny"@,
        evaluation.audit.external_auth_forced == !allowed,
        evaluation.audit.determining_policies@ == text::joined(
            handlers::reason_names(list, keys),
            ","@,
        ),
        convert::decision_context(known_policies(list, keys)) is None
            ==> evaluation.audit.context_policy@ == "-"@,
        convert::decision_context(known_policies(list, keys)) matches Some(given)
            ==> evaluation.audit.context_policy@ == given.policy_id,
{
    let said = handlers::annotated_members(list, keys);
    let reason = handlers::reason_names(list, keys);
    reason_holds_every_name(list, keys);
    responses_report_everything(said, reason, errors);
}

/// Beside `reason` and `errors`, an answer holds what the supplying policy says
/// under the key, and nothing where it says nothing.
pub proof fn answers_say_what_one_policy_says(
    evaluation: Evaluation,
    request: RequestModel,
    allowed: bool,
    list: Option<Seq<PolicyModel>>,
    keys: Seq<Seq<char>>,
    errors: Seq<Seq<char>>,
    at: int,
    key: Seq<char>,
)
    requires
        evaluation.evaluates(request, allowed, list, keys, errors),
        supplies(known_policies(list, keys), at),
        key != "reason"@,
        key != "errors"@,
    ensures
        says(known_policies(list, keys)[at], key) matches Some(value) ==> {
            &&& evaluation.response.context matches Some(context)
            &&& json::members(context).dom().contains(key)
            &&& json::members(context)[key] == Json::Text(value)
        },
        says(known_policies(list, keys)[at], key) is None ==> {
            evaluation.response.context matches Some(context) ==> !json::members(
                context,
            ).dom().contains(key)
        },
{
    let policies = known_policies(list, keys);
    let said = handlers::annotated_members(list, keys);
    let reason = handlers::reason_names(list, keys);
    context_is_what_one_policy_says(policies, at);
    responses_report_everything(said, reason, errors);
    assert(says(policies[at], key) is Some <==> annotated(said, key) is Some);
}

/// Where no determining policy is known, an answer holds nothing but `reason` and
/// `errors`.
pub proof fn unknown_policies_say_nothing(
    evaluation: Evaluation,
    request: RequestModel,
    allowed: bool,
    list: Option<Seq<PolicyModel>>,
    keys: Seq<Seq<char>>,
    errors: Seq<Seq<char>>,
    key: Seq<char>,
)
    requires
        evaluation.evaluates(request, allowed, list, keys, errors),
        known_policies(list, keys).len() == 0,
        key != "reason"@,
        key != "errors"@,
    ensures
        evaluation.response.context matches Some(context) ==> !json::members(
            context,
        ).dom().contains(key),
{
    responses_report_everything(
        handlers::annotated_members(list, keys),
        handlers::reason_names(list, keys),
        errors,
    );
    assert(annotated(handlers::annotated_members(list, keys), key) is None);
}

/// Records name the parties of a request by type and id.
pub proof fn targets_name_the_parties(target: LogTarget, request: RequestModel)
    ensures
        target.names(request) <==> {
            &&& target.subject@ == request.subject.entity_type + "::"@ + request.subject.id
            &&& target.action@ == request.action
            &&& target.resource@ == request.resource.entity_type + "::"@ + request.resource.id
        },
{
}

/// The `@priority` of a policy writes no number that a `u32` can hold.
pub open spec fn misstates(policy: PolicyModel) -> bool {
    &&& policy.annotations.dom().contains("priority"@)
    &&& !is_numeral(policy.annotations["priority"@]) || numeral_value(
        policy.annotations["priority"@],
    ) > 4_294_967_295
}

/// What is said of the priorities of policies, one policy after the other: one that
/// misstates its priority is named with what it writes, and nothing is said of
/// another.
pub proof fn misstated_priorities_are_told(
    a: Seq<PolicyModel>,
    b: Seq<PolicyModel>,
    policy: PolicyModel,
)
    ensures
        policy::priority_faults(Seq::empty()).len() == 0,
        policy::priority_faults(a + b) == policy::priority_faults(a) + policy::priority_faults(b),
        misstates(policy) ==> policy::priority_faults(seq![policy]) == seq![
            "policy `"@ + name_of(policy) + "`: invalid @priority value "@ + text::quoted(
                policy.annotations["priority"@],
            ),
        ],
        !misstates(policy) ==> policy::priority_faults(seq![policy]).len() == 0,
        policy::has_bad_priority(policy) <==> misstates(policy),
    decreases b.len(),
{
    priorities_are_their_numbers(policy.annotations["priority"@]);
    policies_go_by_their_id(policy);
    let one = seq![policy];
    assert(one.drop_last() =~= Seq::empty());
    assert(one.last() == policy);
    assert(policy::priority_faults(one.drop_last()) =~= Seq::empty());
    if misstates(policy) {
        assert(policy::priority_faults(one) =~= seq![
            "policy `"@ + name_of(policy) + "`: invalid @priority value "@ + text::quoted(
                policy.annotations["priority"@],
            ),
        ]);
    }
    if b.len() == 0 {
        assert(a + b =~= a);
        assert(policy::priority_faults(a) + policy::priority_faults(b) =~= policy::priority_faults(
            a,
        ));
    } else {
        misstated_priorities_are_told(a, b.drop_last(), policy);
        assert((a + b).drop_last() =~= a + b.drop_last());
        assert((a + b).last() == b.last());
        assert(policy::priority_faults(a + b) =~= policy::priority_faults(a)
            + policy::priority_faults(b));
    }
}

/// There is nothing to say of the priorities of a list exactly where no policy
/// misstates its own.
pub proof fn well_stated_priorities_have_no_faults(list: Seq<PolicyModel>)
    ensures
        policy::priority_faults(list).len() == 0 <==> forall|i: int|
            0 <= i < list.len() ==> !misstates(#[trigger] list[i]),
    decreases list.len(),
{
    if list.len() > 0 {
        let (rest, last) = (list.drop_last(), list.last());
        well_stated_priorities_have_no_faults(rest);
        misstated_priorities_are_told(rest, seq![last], last);
        assert(list =~= rest + seq![last]);
        assert(list[list.len() - 1] == last);
        if forall|i: int| 0 <= i < list.len() ==> !misstates(#[trigger] list[i]) {
            assert forall|i: int| 0 <= i < rest.len() implies !misstates(#[trigger] rest[i]) by {
                assert(rest[i] == list[i]);
            }
        }
        if policy::priority_faults(list).len() == 0 {
            assert forall|i: int| 0 <= i < list.len() implies !misstates(#[trigger] list[i]) by {
                if i < rest.len() {
                    assert(rest[i] == list[i]);
                }
            }
        }
    }
}

/// What the policies of a file give: the reason where it cannot be read, Cedar's
/// errors where it holds no policies, a violation where they do not conform to the
/// schema, an annotation where one misstates its priority, and else their number.
pub proof fn policy_files_give_what_they_hold(
    result: Result<usize, PolicyError>,
    path: Seq<char>,
    contents: Result<String, String>,
    schema: Schema,
)
    requires
        policy::file_result(result, path, contents, schema),
    ensures
        match contents {
            Err(reason) => result matches Err(PolicyError::FileRead { path: told, source })
                && told@ == path && source@ == reason@,
            Ok(source) => match cedar::parsed_policies(source@) {
                Err(errors) => result matches Err(PolicyError::PolicyParse { path: told, source })
                    && told@ == path && *source == errors,
                Ok(set) => {
                    &&& !cedar::strictly_valid(set, schema) <==> result is Err
                        && result->Err_0 is Validation
                    &&& cedar::strictly_valid(set, schema) && (exists|i: int|
                        0 <= i < cedar::policy_list(set).len() && misstates(
                            #[trigger] cedar::policy_list(set)[i],
                        )) <==> result is Err && result->Err_0 is Annotation
                    &&& cedar::strictly_valid(set, schema) && (forall|i: int|
                        0 <= i < cedar::policy_list(set).len() ==> !misstates(
                            #[trigger] cedar::policy_list(set)[i],
                        )) <==> result is Ok
                    &&& result matches Ok(count) ==> count == cedar::policy_list(set).len()
                    &&& result matches Err(PolicyError::Annotation(detail)) ==> detail@
                        == text::joined(
                        policy::priority_faults(cedar::policy_list(set)),
                        "; "@,
                    )
                    &&& result matches Err(PolicyError::Validation(detail)) ==> exists|
                        found: cedar_policy::ValidationResult,
                    |
                        #![trigger cedar::validation_errors(found)]
                        cedar::validation_errors(found).len() > 0 && detail@ == text::joined(
                            cedar::validation_errors(found),
                            "; "@,
                        )
                },
            },
        },
{
    if let Ok(source) = contents {
        if let Ok(set) = cedar::parsed_policies(source@) {
            well_stated_priorities_have_no_faults(cedar::policy_list(set));
            if let Err(PolicyError::Validation(detail)) = result {
                let found = choose|found: cedar_policy::ValidationResult|
                    cedar::validation_errors(found).len() > 0 && detail@
                        == #[trigger] policy::validation_detail(found);
                assert(cedar::validation_errors(found).len() > 0);
            }
        }
    }
}

/// A conforming policy set passes where every `@priority` is a numeral up to the
/// greatest `u32`, whatever the numbers.
pub proof fn stated_numbers_pass(
    result: Result<usize, PolicyError>,
    path: Seq<char>,
    source: String,
    set: cedar_policy::PolicySet,
    schema: Schema,
)
    requires
        policy::file_result(result, path, Ok(source), schema),
        cedar::parsed_policies(source@) == Ok::<cedar_policy::PolicySet, cedar_policy::ParseErrors>(
            set,
        ),
        cedar::strictly_valid(set, schema),
        forall|i: int|
            0 <= i < cedar::policy_list(set).len() && (#[trigger] cedar::policy_list(
                set,
            )[i]).annotations.dom().contains("priority"@) ==> is_numeral(
                cedar::policy_list(set)[i].annotations["priority"@],
            ) && numeral_value(cedar::policy_list(set)[i].annotations["priority"@])
                <= 4_294_967_295,
    ensures
        result matches Ok(count) && count == cedar::policy_list(set).len(),
{
    policy_files_give_what_they_hold(result, path, Ok(source), schema);
}

/// A change of the policies makes the provider take them over exactly where they
/// pass, and the decision point is ready exactly where it then did.
pub proof fn changes_are_taken_over_when_valid(
    step: ReloadStep,
    updated: bool,
    path: Seq<char>,
    contents: Result<String, String>,
    schema: Schema,
)
    requires
        policy::is_reload_step(step, path, contents, schema),
    ensures
        step matches ReloadStep::Update(count) ==> policy::file_result(
            Ok(count),
            path,
            contents,
            schema,
        ),
        step matches ReloadStep::Reject(error) ==> policy::file_result(
            Err(error),
            path,
            contents,
            schema,
        ),
        policy::is_ready_after(step, updated) <==> updated && step is Update,
        handlers::readiness_number(true) == 200,
        handlers::readiness_number(false) == 503,
{
}

/// What is said of each error on policies.
pub proof fn policy_errors_are_told_by_kind(
    path: String,
    text: String,
    parse: Box<cedar_policy::ParseErrors>,
    schema: Box<cedar_policy::SchemaError>,
)
    ensures
        (PolicyError::FileRead { path, source: text }).message_text() == "read "@ + "`"@ + path@
            + "`: "@ + text@,
        (PolicyError::PolicyParse { path, source: parse }).message_text() == "parse "@ + "`"@ + path@
            + "`: "@ + cedar::parse_message(*parse),
        (PolicyError::SchemaParse { path, source: schema }).message_text() == "parse schema "@
            + "`"@ + path@ + "`: "@ + cedar::schema_message(*schema),
        PolicyError::ProviderConfig(text).message_text() == "policy provider configuration: "@
            + text@,
        PolicyError::Provider(text).message_text() == "policy provider: "@ + text@,
        PolicyError::Validation(text).message_text() == "schema validation: "@ + text@,
        PolicyError::Annotation(text).message_text() == "invalid annotation: "@ + text@,
{
}

/// What is said of each error of the environment, and what a variable that is not
/// set stands for.
pub proof fn variables_have_their_defaults(
    environment: config::Environment,
    value: Option<String>,
    default: Seq<char>,
    key: &'static str,
    reason: String,
)
    ensures
        value matches Some(set) ==> config::value_or(value, default) == set@,
        value is None ==> config::value_or(value, default) == default,
        environment.refresh_secs matches Some(set) ==> environment.seconds_text() == set@,
        environment.refresh_secs is None ==> environment.seconds_text() == "30"@,
        ConfigError::Missing(key).message_text() == "missing required environment variable: "@
            + key@,
        ConfigError::Invalid(key, reason).message_text() == "invalid value for "@ + key@ + ": "@
            + reason@,
{
}

/// Where the decision point is looked for: at its own address, at 127.0.0.1 with
/// its port where its address is all zeros, and at 127.0.0.1 with port 9000 where
/// there is none.
pub proof fn health_is_looked_for_at_the_address(
    target: SocketAddress,
    address: Option<SocketAddress>,
)
    requires
        config::resolves_to(target, address),
    ensures
        match address {
            Some(SocketAddress { ip: IpAddress::V4 { octets }, port }) => if octets@[0] == 0
                && octets@[1] == 0 && octets@[2] == 0 && octets@[3] == 0 {
                &&& target.port == port
                &&& target.ip matches IpAddress::V4 { octets: own }
                &&& own@ == seq![127u8, 0u8, 0u8, 1u8]
            } else {
                target == address->0
            },
            Some(SocketAddress { ip: IpAddress::V6 { segments, .. }, port }) => if segments@[0] == 0
                && segments@[1] == 0 && segments@[2] == 0 && segments@[3] == 0 && segments@[4] == 0
                && segments@[5] == 0 && segments@[6] == 0 && segments@[7] == 0 {
                &&& target.port == port
                &&& target.ip matches IpAddress::V4 { octets: own }
                &&& own@ == seq![127u8, 0u8, 0u8, 1u8]
            } else {
                target == address->0
            },
            None => {
                &&& target.port == 9000
                &&& target.ip matches IpAddress::V4 { octets: own }
                &&& own@ == seq![127u8, 0u8, 0u8, 1u8]
            },
        },
{
}

/// The first line of a text ends where the first line feed stands, or with the
/// text.
pub proof fn first_lines_end_at_the_line_feed(line: Seq<char>, rest: Seq<char>)
    requires
        forall|i: int| 0 <= i < line.len() ==> line[i] != '\n',
    ensures
        health::first_line(line) == line,
        health::first_line(line.push('\n') + rest) == line,
    decreases line.len(),
{
    let whole = line.push('\n') + rest;
    if line.len() == 0 {
        assert(whole[0] == '\n');
    } else {
        let tail = line.drop_first();
        assert forall|i: int| 0 <= i < tail.len() implies tail[i] != '\n' by {
            assert(tail[i] == line[i + 1]);
        }
        first_lines_end_at_the_line_feed(tail, rest);
        assert(whole[0] == line[0]);
        assert(whole.drop_first() =~= tail.push('\n') + rest);
        assert(line =~= seq![line[0]] + tail);
    }
}

/// A status line tells success exactly where its status is 200: three characters
/// behind the first space, with a space, a carriage return or nothing behind them.
pub proof fn status_is_the_second_field(
    version: Seq<char>,
    status: Seq<char>,
    tail: Seq<char>,
)
    requires
        version.len() > 0,
        forall|i: int| 0 <= i < version.len() ==> version[i] != ' ',
        status.len() == 3,
        tail.len() == 0 || tail[0] == ' ' || tail[0] == '\r',
    ensures
        health::status_is_200(version + seq![' '] + status + tail) <==> status == seq!['2', '0', '0'],
{
    reveal_strlit(" 200");
    let line = version + seq![' '] + status + tail;
    let at = version.len() as int;
    assert(line[at] == ' ');
    assert(line.subrange(at, at + 4) =~= seq![' '] + status);
    assert(forall|i: int| 0 <= i < at ==> line[i] == version[i]);
    assert(" 200"@ =~= seq![' '] + seq!['2', '0', '0']);
    if status == seq!['2', '0', '0'] {
        assert(health::good_status_at(line, at));
    }
    if health::status_is_200(line) {
        let other = choose|other: int| health::good_status_at(line, other);
        assert(line.subrange(other, other + 4)[0] == ' ');
        assert(line[other] == ' ');
        assert(other == at);
        let found = line.subrange(at, at + 4);
        assert(found[1] == status[0] && found[2] == status[1] && found[3] == status[2]);
        assert(status =~= seq!['2', '0', '0']);
    }
}

/// A line without a field of three characters behind its first space never tells
/// success.
pub proof fn other_lines_tell_no_success(line: Seq<char>)
    requires
        health::status_is_200(line),
    ensures
        exists|version: Seq<char>, tail: Seq<char>|
            #![trigger version + tail]
            {
                &&& line == version + seq![' ', '2', '0', '0'] + tail
                &&& version.len() > 0
                &&& forall|i: int| 0 <= i < version.len() ==> version[i] != ' '
                &&& tail.len() == 0 || tail[0] == ' ' || tail[0] == '\r'
            },
{
    reveal_strlit(" 200");
    let at = choose|at: int| health::good_status_at(line, at);
    let (version, tail) = (line.take(at), line.skip(at + 4));
    assert(line.subrange(at, at + 4) =~= seq![' ', '2', '0', '0']);
    assert(line =~= version + seq![' ', '2', '0', '0'] + tail);
    let both = version + tail;
}

/// A text without colons names a type exactly where it is letters, digits and
/// underscores without a digit in front, and none of the reserved words.
pub proof fn plain_type_names_are_identifiers(name: Seq<char>)
    requires
        forall|i: int| 0 <= i < name.len() ==> name[i] != ':',
    ensures
        cedar::is_type_name(name) <==> {
            &&& name.len() > 0
            &&& !('0' <= name[0] && name[0] <= '9')
            &&& forall|i: int|
                0 <= i < name.len() ==> {
                    ||| 'a' <= (#[trigger] name[i]) && name[i] <= 'z'
                    ||| 'A' <= name[i] && name[i] <= 'Z'
                    ||| '0' <= name[i] && name[i] <= '9'
                    ||| name[i] == '_'
                }
            &&& name != "true"@ && name != "false"@ && name != "if"@ && name != "then"@ && name
                != "else"@ && name != "in"@ && name != "is"@ && name != "like"@ && name != "has"@
                && name != "__cedar"@
        },
{
    reveal_strlit("::");
    if cedar::is_type_name(name) {
        let parts = choose|parts: Seq<Seq<char>>|
            cedar::is_type_path(parts) && #[trigger] text::joined(parts, "::"@) == name;
        if parts.len() > 1 {
            let front = text::joined(parts.drop_last(), "::"@);
            assert(name == front + "::"@ + parts.last());
            assert(name[front.len() as int] == ':');
        }
        assert(name == parts[0]);
        assert(cedar::is_identifier(parts[0]));
    } else if cedar::is_identifier(name) && !cedar::is_reserved_word(name) {
        assert(text::joined(seq![name], "::"@) == name);
        assert(cedar::is_type_path(seq![name]));
    }
}

/// Names of types with `::` between them name a type.
pub proof fn namespaces_make_type_names(a: Seq<char>, b: Seq<char>)
    requires
        cedar::is_type_name(a),
        cedar::is_type_name(b),
    ensures
        cedar::is_type_name(a + "::"@ + b),
{
    let x = choose|parts: Seq<Seq<char>>|
        cedar::is_type_path(parts) && #[trigger] text::joined(parts, "::"@) == a;
    let y = choose|parts: Seq<Seq<char>>|
        cedar::is_type_path(parts) && #[trigger] text::joined(parts, "::"@) == b;
    joining_separates_neighbours(x, y, a, "::"@);
    assert(cedar::is_type_path(x + y));
    assert(text::joined(x + y, "::"@) == a + "::"@ + b);
}

/// The document of one entity.
pub proof fn entities_are_written_with_their_properties(
    entity: EntityRef,
    properties: Map<Seq<char>, Json>,
)
    ensures
        cedar::entity_document(entity, properties) == written(
            entity.entity_type,
            entity.id,
            properties,
        ),
{
    let entries = seq![EntityEntry { entity, attributes: properties }];
    documents_list_every_entity(entries);
    match cedar::entities_document(entries) {
        Json::Array(documents) => {
            assert(documents[0] == cedar::entity_document(entity, properties));
            assert(documents[0] == written(
                entries[0].entity.entity_type,
                entries[0].entity.id,
                entries[0].attributes,
            ));
        },
        _ => {},
    }
}

/// What may be absent is absent where it is, and holds what it holds where it is
/// there.
pub proof fn absence_is_kept(
    policy: Option<&cedar_policy::Policy>,
    set: Option<&cedar_policy::PolicySet>,
    text: Option<&str>,
    context: Option<convert::DecisionContext>,
)
    ensures
        policy matches Some(there) ==> cedar::optional_policy(policy) == Some(
            cedar::policy_model(*there),
        ),
        policy is None ==> cedar::optional_policy(policy) is None,
        set matches Some(there) ==> handlers::optional_list(set) == Some(
            cedar::policy_list(*there),
        ),
        set is None ==> handlers::optional_list(set) is None,
        text matches Some(there) ==> cedar::optional_text(text) == Some(there@),
        text is None ==> cedar::optional_text(text) is None,
        context matches Some(there) ==> {
            &&& convert::optional_context(context) matches Some(held)
            &&& held.policy_id == there.policy_id@
            &&& held.context == json::members(there.context)
        },
        context is None ==> convert::optional_context(context) is None,
{
}

/// What is said of a text that names no type: the text, and what Cedar says of it.
pub proof fn types_are_told_with_what_cedar_says(entity_type: Seq<char>, message: Seq<char>)
    ensures
        convert::rejected_type(entity_type, message) == "type `"@ + entity_type + "`: "@ + message,
        convert::type_detail(entity_type) == "type `"@ + entity_type + "`: "@
            + cedar::parse_message(cedar::type_name_errors(entity_type)),
{
}

/// The errors on a context and on properties tell what an error of Cedar says.
pub proof fn errors_say_what_cedar_says(
    error: ConversionError,
    request: RequestModel,
    schema: Schema,
)
    requires
        convert::tells(error, request, schema),
    ensures
        error matches ConversionError::Context(detail) ==> exists|
            told: cedar_policy::ContextJsonError,
        | detail@ == #[trigger] cedar::context_message(told),
        error matches ConversionError::Properties(detail) ==> exists|
            told: cedar_policy::entities_errors::EntitiesError,
        | detail@ == #[trigger] cedar::entities_message(told),
{
}

/// The reserved keys that the supplying policy gives values are told with an
/// evaluation, and no other.
pub proof fn evaluations_tell_overridden_keys(
    evaluation: Evaluation,
    request: RequestModel,
    allowed: bool,
    list: Option<Seq<PolicyModel>>,
    keys: Seq<Seq<char>>,
    errors: Seq<Seq<char>>,
    at: int,
    key: Seq<char>,
)
    requires
        evaluation.evaluates(request, allowed, list, keys, errors),
        supplies(known_policies(list, keys), at),
    ensures
        text::texts(evaluation.overridden@).contains(key) <==> (key == "reason"@ || key
            == "errors"@) && says(known_policies(list, keys)[at], key) is Some,
{
    let policies = known_policies(list, keys);
    let said = handlers::annotated_members(list, keys);
    context_is_what_one_policy_says(policies, at);
    overridden_keys_are_told(said, key);
    if let Some(members) = said {
        assert(members.dom().contains(key) <==> says(policies[at], key) is Some);
    } else {
        assert(says(policies[at], key) is None);
    }
}

/// A record of an evaluation names the supplying policy where it says anything, and
/// a dash where it says nothing.
pub proof fn records_name_the_supplying_policy(
    evaluation: Evaluation,
    request: RequestModel,
    allowed: bool,
    list: Option<Seq<PolicyModel>>,
    keys: Seq<Seq<char>>,
    errors: Seq<Seq<char>>,
    at: int,
)
    requires
        evaluation.evaluates(request, allowed, list, keys, errors),
        supplies(known_policies(list, keys), at),
    ensures
        (exists|key: Seq<char>| (#[trigger] says(known_policies(list, keys)[at], key)) is Some)
            ==> evaluation.audit.context_policy@ == name_of(known_policies(list, keys)[at]),
        (forall|key: Seq<char>| (#[trigger] says(known_policies(list, keys)[at], key)) is None)
            ==> evaluation.audit.context_policy@ == "-"@,
{
    context_is_what_one_policy_says(known_policies(list, keys), at);
    evaluations_answer_and_record(evaluation, request, allowed, list, keys, errors);
}

/// Where the decision point is looked for follows from the address that it listens
/// on, and from nothing where there is none.
pub proof fn health_target_follows_the_address(
    target: SocketAddress,
    bind: Result<SocketAddress, String>,
)
    ensures
        bind matches Ok(address) ==> (config::is_health_target(target, bind)
            <==> config::resolves_to(target, Some(address))),
        bind is Err ==> (config::is_health_target(target, bind) <==> config::resolves_to(
            target,
            None,
        )),
{
}

/// Errors of reading and of conversion are answered as what they are.
pub proof fn errors_are_taken_over(
    unreadable: serde_json::Error,
    unconverted: ConversionError,
)
    ensures
        <ApiError as vstd::std_specs::convert::FromSpec<serde_json::Error>>::from_spec(unreadable)
            == ApiError::InvalidJson(unreadable),
        <ApiError as vstd::std_specs::convert::FromSpec<ConversionError>>::from_spec(unconverted)
            == ApiError::Conversion(unconverted),
{
}

/// A request to Cedar asks of each part what was put in its place.
pub proof fn parts_keep_their_places(
    principal: cedar_policy::EntityUid,
    action: cedar_policy::EntityUid,
    resource: cedar_policy::EntityUid,
    context: cedar_policy::Context,
)
    ensures
        cedar::asked(principal, action, resource, context).principal == cedar::reference(principal),
        cedar::asked(principal, action, resource, context).action == cedar::reference(action),
        cedar::asked(principal, action, resource, context).resource == cedar::reference(resource),
        cedar::asked(principal, action, resource, context).context == cedar::context_attributes(
            context,
        ),
{
}

/// A list of annotations has each annotation once, with its value, and no other.
pub proof fn annotations_are_listed_once(
    list: Seq<(String, String)>,
    annotations: Map<Seq<char>, Seq<char>>,
    key: Seq<char>,
)
    requires
        cedar::lists_annotations(list, annotations),
    ensures
        annotations.dom().contains(key) <==> exists|i: int|
            0 <= i < list.len() && (#[trigger] list[i]).0@ == key,
        forall|i: int|
            0 <= i < list.len() && (#[trigger] list[i]).0@ == key ==> annotations[key]
                == list[i].1@,
        forall|i: int, j: int|
            0 <= i < j < list.len() ==> (#[trigger] list[i]).0@ != (#[trigger] list[j]).0@,
{
}

/// Stored entities are the listed ones, with an attribute for each property and no
/// other, and beside them only entities whose type is `Action` in some namespace.
pub proof fn listed_entities_are_stored(
    store: Map<EntityRef, Attributes>,
    entries: Seq<EntityEntry>,
    entity: EntityRef,
    key: Seq<char>,
)
    requires
        cedar::holds_entries(store, entries),
    ensures
        forall|i: int|
            0 <= i < entries.len() && (#[trigger] entries[i]).entity == entity
                ==> store.dom().contains(entity),
        forall|i: int|
            0 <= i < entries.len() && (#[trigger] entries[i]).entity == entity
                && entity.entity_type != "Action"@ && (forall|front: Seq<char>|
                entity.entity_type != #[trigger] (front + "::Action"@)) ==> (
            store[entity].dom().contains(key) <==> entries[i].attributes.dom().contains(key)),
        store.dom().contains(entity) ==> entity.entity_type == "Action"@ || (exists|
            front: Seq<char>,
        | entity.entity_type == #[trigger] (front + "::Action"@)) || exists|i: int|
            0 <= i < entries.len() && (#[trigger] entries[i]).entity == entity,
{
    let (name, suffix) = (entity.entity_type, "::Action"@);
    if suffix.is_suffix_of(name) {
        let front = name.take(name.len() - suffix.len());
        assert(name =~= front + suffix);
    }
}

} // verus!
