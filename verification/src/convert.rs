//! From AuthZEN to Cedar and back: the request and the entities that a decision
//! is made on, and the context that goes with it.

use cedar_policy::{
    Context, ContextJsonError, Entities, EntityUid, Policy, PolicyId, PolicySet, Request, Schema,
};
use serde_json::{Map as JsonMap, Value};
use vstd::prelude::*;

use crate::authzen::{EvaluationRequest, PartyModel, RequestModel};
use crate::cedar::{self, Attributes, EntityEntry, EntityRef, PolicyModel, QuestionModel};
use crate::json::{self, Json};
use crate::text;

verus! {

/// The annotation that holds the readable id of a policy.
pub const ID_ANNOTATION: &'static str = "id";

/// The annotation that holds the priority of a policy.
pub const PRIORITY_ANNOTATION: &'static str = "priority";

/// What the annotations begin with that go into the context of a response.
pub const DECISION_CONTEXT_PREFIX: &'static str = "decision_context_";

/// The priority of a policy that states none.
pub const LOWEST_PRIORITY: u32 = u32::MAX;

/// The key of the context that lists the determining policies.
pub const RESERVED_REASON_KEY: &'static str = "reason";

/// The key of the context that lists the errors of the evaluation.
pub const RESERVED_ERRORS_KEY: &'static str = "errors";

/// Why a request cannot be put to Cedar.
#[derive(Debug)]
pub enum ConversionError {
    /// A type that names no entity type.
    Entity(String),
    /// A context that the schema rejects.
    Context(String),
    /// Properties that the schema rejects.
    Properties(String),
    /// A principal, an action, a resource and a context that the schema does not
    /// put together.
    Request(String),
}

impl ConversionError {
    /// The code that the error is answered with.
    pub open spec fn code_text(self) -> Seq<char> {
        match self {
            ConversionError::Entity(_) => "invalid_entity"@,
            ConversionError::Context(_) => "invalid_context"@,
            ConversionError::Properties(_) => "invalid_properties"@,
            ConversionError::Request(_) => "invalid_request"@,
        }
    }

    /// The message that the error is answered with.
    pub open spec fn message_text(self) -> Seq<char> {
        match self {
            ConversionError::Entity(detail) => "invalid entity reference: "@ + detail@,
            ConversionError::Context(detail) => "invalid context: "@ + detail@,
            ConversionError::Properties(detail) => "invalid properties: "@ + detail@,
            ConversionError::Request(detail) => "invalid request: "@ + detail@,
        }
    }

    /// The code that the error is answered with.
    pub fn code(&self) -> (code: &'static str)
        ensures
            code@ == self.code_text(),
    {
        match self {
            ConversionError::Entity(_) => "invalid_entity",
            ConversionError::Context(_) => "invalid_context",
            ConversionError::Properties(_) => "invalid_properties",
            ConversionError::Request(_) => "invalid_request",
        }
    }

    /// The message that the error is answered with.
    pub fn message(&self) -> (message: String)
        ensures
            message@ == self.message_text(),
    {
        match self {
            ConversionError::Entity(detail) => text::concatenate(
                "invalid entity reference: ",
                detail.as_str(),
            ),
            ConversionError::Context(detail) => text::concatenate("invalid context: ", detail.as_str()),
            ConversionError::Properties(detail) => text::concatenate(
                "invalid properties: ",
                detail.as_str(),
            ),
            ConversionError::Request(detail) => text::concatenate("invalid request: ", detail.as_str()),
        }
    }
}

/// What is said of a type that is rejected with a message.
pub open spec fn rejected_type(entity_type: Seq<char>, message: Seq<char>) -> Seq<char> {
    "type `"@ + entity_type + "`: "@ + message
}

/// What is said of a text that names no type.
pub open spec fn type_detail(entity_type: Seq<char>) -> Seq<char> {
    rejected_type(entity_type, cedar::parse_message(cedar::type_name_errors(entity_type)))
}

/// The error on a type that is rejected with a message.
pub fn type_error(entity_type: &str, message: &str) -> (error: ConversionError)
    ensures
        error matches ConversionError::Entity(detail) && detail@ == rejected_type(
            entity_type@,
            message@,
        ),
{
    let mut detail = text::concatenate("type `", entity_type);
    detail.append("`: ");
    detail.append(message);
    ConversionError::Entity(detail)
}

/// A reference to the entity with the given type and id.
pub fn entity_uid(entity_type: &str, id: &str) -> (result: Result<EntityUid, ConversionError>)
    ensures
        result is Ok <==> cedar::is_type_name(entity_type@),
        result matches Ok(uid) ==> cedar::reference(uid) == (EntityRef {
            entity_type: entity_type@,
            id: id@,
        }),
        result matches Err(error) ==> (error matches ConversionError::Entity(detail) && detail@
            == type_detail(entity_type@)),
{
    match cedar::parse_type_name(entity_type) {
        Ok(name) => Ok(cedar::new_uid(name, cedar::new_entity_id(id))),
        Err(errors) => {
            let message = cedar::parse_errors_text(&errors);
            Err(type_error(entity_type, message.as_str()))
        },
    }
}

/// The document of an entity with the given properties and no parents.
pub fn entity_json(entity_type: &str, id: &str, properties: &JsonMap<String, Value>) -> (document:
    Value)
    ensures
        json::content(document) == cedar::entity_document(
            EntityRef { entity_type: entity_type@, id: id@ },
            json::members(*properties),
        ),
{
    let mut uid = json::new_object();
    json::insert(&mut uid, "type".to_string(), json::text_value(entity_type.to_string()));
    json::insert(&mut uid, "id".to_string(), json::text_value(id.to_string()));
    let mut entity = json::new_object();
    json::insert(&mut entity, "uid".to_string(), json::object_value(uid));
    json::insert(
        &mut entity,
        "attrs".to_string(),
        json::object_value(json::clone_object(properties)),
    );
    let parents: Vec<Value> = Vec::new();
    assert(json::json_list(parents@) =~= Seq::<Json>::empty());
    json::insert(&mut entity, "parents".to_string(), json::array_value(parents));
    json::object_value(entity)
}

/// What a request refers to as its subject or its resource.
pub open spec fn party_ref(party: PartyModel) -> EntityRef {
    EntityRef { entity_type: party.entity_type, id: party.id }
}

/// What a request refers to as its action.
pub open spec fn action_ref(request: RequestModel) -> EntityRef {
    EntityRef { entity_type: "Action"@, id: request.action }
}

/// The properties of a subject or a resource; none where they are absent.
pub open spec fn party_properties(party: PartyModel) -> Map<Seq<char>, Json> {
    match party.properties {
        Some(properties) => properties,
        None => json::no_members(),
    }
}

/// A subject or a resource with its properties.
pub open spec fn party_entry(party: PartyModel) -> EntityEntry {
    EntityEntry { entity: party_ref(party), attributes: party_properties(party) }
}

/// The entities that a request brings along: the subject, and the resource where
/// it has properties.
pub open spec fn request_entries(request: RequestModel) -> Seq<EntityEntry> {
    if party_properties(request.resource) == json::no_members() {
        seq![party_entry(request.subject)]
    } else {
        seq![party_entry(request.subject), party_entry(request.resource)]
    }
}

/// What Cedar makes of the context of a request; none where it rejects it. A
/// request without a context has the empty one.
pub open spec fn request_context(request: RequestModel, schema: Schema) -> Option<Attributes> {
    match request.context {
        Some(value) => cedar::parsed_context(value, schema, action_ref(request)),
        None => Some(cedar::no_attributes()),
    }
}

/// What a request asks of Cedar, with what Cedar made of its context.
pub open spec fn request_question(request: RequestModel, context: Attributes) -> QuestionModel {
    QuestionModel {
        principal: party_ref(request.subject),
        action: action_ref(request),
        resource: party_ref(request.resource),
        context,
    }
}

/// What a request is refused for.
pub enum Refusal {
    Entity,
    Context,
    Request,
    Properties,
}

/// What a request is refused for, if it is: the first of its faults, in the
/// order in which they are looked for.
pub open spec fn refusal(request: RequestModel, schema: Schema) -> Option<Refusal> {
    if !cedar::is_type_name(request.subject.entity_type) || !cedar::is_type_name(
        request.resource.entity_type,
    ) {
        Some(Refusal::Entity)
    } else {
        match request_context(request, schema) {
            None => Some(Refusal::Context),
            Some(context) => if !cedar::request_conforms(
                request_question(request, context),
                schema,
            ) {
                Some(Refusal::Request)
            } else if cedar::parsed_entities(
                cedar::entities_document(request_entries(request)),
                schema,
            ) is None {
                Some(Refusal::Properties)
            } else {
                None
            },
        }
    }
}

/// The type that a request is refused for, where it is refused for one: that of
/// its subject before that of its resource.
pub open spec fn faulty_type(request: RequestModel) -> Seq<char> {
    if cedar::is_type_name(request.subject.entity_type) {
        request.resource.entity_type
    } else {
        request.subject.entity_type
    }
}

/// The error that a request is refused with says what it is refused for.
pub open spec fn tells(error: ConversionError, request: RequestModel, schema: Schema) -> bool {
    let refusal = refusal(request, schema);
    match error {
        ConversionError::Entity(detail) => refusal == Some(Refusal::Entity) && detail@
            == type_detail(faulty_type(request)),
        ConversionError::Context(detail) => refusal == Some(Refusal::Context) && exists|
            error: ContextJsonError,
        | detail@ == #[trigger] cedar::context_message(error),
        ConversionError::Request(detail) => refusal == Some(Refusal::Request) && (
        request_context(request, schema) matches Some(context) && detail@
            == cedar::request_rejection(request_question(request, context), schema)),
        ConversionError::Properties(detail) => refusal == Some(Refusal::Properties) && exists|
            error: cedar_policy::entities_errors::EntitiesError,
        | detail@ == #[trigger] cedar::entities_message(error),
    }
}

/// The name of the type of actions names a type.
proof fn action_is_type_name()
    ensures
        cedar::is_type_name("Action"@),
{
    reveal_strlit("Action");
    reveal_strlit("true");
    reveal_strlit("false");
    reveal_strlit("if");
    reveal_strlit("then");
    reveal_strlit("else");
    reveal_strlit("in");
    reveal_strlit("is");
    reveal_strlit("like");
    reveal_strlit("has");
    reveal_strlit("__cedar");
    let parts = seq!["Action"@];
    assert(text::joined(parts, "::"@) == "Action"@);
    assert("Action"@[0] == 'A');
    assert("__cedar"@.len() == 7);
    assert("true"@.len() == 4);
    assert("false"@.len() == 5);
    assert(cedar::is_type_path(parts));
}

/// The context of a request, as the schema declares it for the action.
fn cedar_context(context: &Option<Value>, schema: &Schema, action: &EntityUid) -> (result: Result<
    Context,
    ConversionError,
>)
    ensures
        match (result, *context) {
            (Ok(made), Some(value)) => cedar::parsed_context(
                json::content(value),
                *schema,
                cedar::reference(*action),
            ) == Some(cedar::context_attributes(made)),
            (Ok(made), None) => cedar::context_attributes(made) == cedar::no_attributes(),
            (Err(error), Some(value)) => cedar::parsed_context(
                json::content(value),
                *schema,
                cedar::reference(*action),
            ) is None && (error matches ConversionError::Context(detail) && exists|
                error: ContextJsonError,
            | detail@ == #[trigger] cedar::context_message(error)),
            (Err(_), None) => false,
        },
{
    match context {
        Some(value) => match cedar::context_from_json(json::clone_value(value), schema, action) {
            Ok(context) => Ok(context),
            Err(error) => Err(ConversionError::Context(cedar::context_error_text(&error))),
        },
        None => Ok(cedar::empty_context()),
    }
}

/// The document of the entities that a request brings along.
pub fn entities_json(request: &EvaluationRequest) -> (document: Value)
    ensures
        json::content(document) == cedar::entities_document(request_entries(request@)),
{
    let mut documents: Vec<Value> = Vec::new();
    let no_properties = json::new_object();
    let subject_properties = match &request.subject.properties {
        Some(properties) => properties,
        None => &no_properties,
    };
    documents.push(
        entity_json(
            request.subject.entity_type.as_str(),
            request.subject.id.as_str(),
            subject_properties,
        ),
    );
    if let Some(properties) = &request.resource.properties {
        if !json::is_empty(properties) {
            documents.push(
                entity_json(
                    request.resource.entity_type.as_str(),
                    request.resource.id.as_str(),
                    properties,
                ),
            );
        }
    }
    assert(json::json_list(documents@) =~= request_entries(request@).map_values(
        |entry: EntityEntry| cedar::entity_document(entry.entity, entry.attributes),
    ));
    json::array_value(documents)
}

/// The request and the entities that Cedar decides an AuthZEN request on, or the
/// error that the request is refused with.
pub fn to_cedar(request: &EvaluationRequest, schema: &Schema) -> (result: Result<
    (Request, Entities),
    ConversionError,
>)
    ensures
        result is Ok <==> refusal(request@, *schema) is None,
        result matches Err(error) ==> tells(error, request@, *schema),
        result matches Ok((made, entities)) ==> {
            &&& request_context(request@, *schema) matches Some(context)
            &&& cedar::question(made) == request_question(request@, context)
            &&& cedar::parsed_entities(
                cedar::entities_document(request_entries(request@)),
                *schema,
            ) == Some(cedar::stored(entities))
            &&& cedar::holds_entries(cedar::stored(entities), request_entries(request@))
        },
        result matches Ok((made, _)) ==> {
            let asked = cedar::question(made);
            &&& asked.principal.entity_type == request.subject.entity_type@
            &&& asked.principal.id == request.subject.id@
            &&& asked.action.entity_type == "Action"@
            &&& asked.action.id == request.action.name@
            &&& asked.resource.entity_type == request.resource.entity_type@
            &&& asked.resource.id == request.resource.id@
            &&& request.context matches Some(value) ==> cedar::parsed_context(
                json::content(value),
                *schema,
                asked.action,
            ) == Some(asked.context)
            &&& request.context is None ==> asked.context == Map::<Seq<char>, Seq<char>>::empty()
        },
{
    proof {
        action_is_type_name();
    }
    let principal = match entity_uid(
        request.subject.entity_type.as_str(),
        request.subject.id.as_str(),
    ) {
        Ok(uid) => uid,
        Err(error) => {
            return Err(error);
        },
    };
    let action = match entity_uid("Action", request.action.name.as_str()) {
        Ok(uid) => uid,
        Err(error) => {
            return Err(error);
        },
    };
    let resource = match entity_uid(
        request.resource.entity_type.as_str(),
        request.resource.id.as_str(),
    ) {
        Ok(uid) => uid,
        Err(error) => {
            return Err(error);
        },
    };
    let context = match cedar_context(&request.context, schema, &action) {
        Ok(context) => context,
        Err(error) => {
            return Err(error);
        },
    };
    let made = match cedar::new_request(principal, action, resource, context, schema) {
        Ok(made) => made,
        Err(error) => {
            return Err(ConversionError::Request(cedar::request_error_text(&error)));
        },
    };
    match cedar::entities_from_json(entities_json(request), schema) {
        Ok(entities) => Ok((made, entities)),
        Err(error) => Err(ConversionError::Properties(cedar::entities_error_text(&error))),
    }
}

/// The name that a policy goes by: its `@id`, else its internal id.
pub open spec fn display_text(policy: PolicyModel) -> Seq<char> {
    match cedar::annotation_value(policy.annotations, ID_ANNOTATION@) {
        Some(id) => id,
        None => cedar::displayed_key(policy.key),
    }
}

/// The priority that a text states: a decimal number that a `u32` can hold.
pub open spec fn stated_priority(raw: Seq<char>) -> Option<u32> {
    match text::decimal(raw) {
        Some(value) => if value <= u32::MAX {
            Some(value as u32)
        } else {
            None
        },
        None => None,
    }
}

/// The priority of an annotation that may be absent.
pub open spec fn annotated_priority(raw: Option<Seq<char>>) -> u32 {
    match raw {
        Some(raw) => match stated_priority(raw) {
            Some(priority) => priority,
            None => LOWEST_PRIORITY,
        },
        None => LOWEST_PRIORITY,
    }
}

/// The priority of a policy.
pub open spec fn policy_priority(policy: PolicyModel) -> u32 {
    annotated_priority(cedar::annotation_value(policy.annotations, PRIORITY_ANNOTATION@))
}

/// The keys of the annotations that are read by name are identifiers.
proof fn annotation_keys_are_identifiers()
    ensures
        cedar::is_identifier(ID_ANNOTATION@),
        cedar::is_identifier(PRIORITY_ANNOTATION@),
{
    reveal_strlit("id");
    reveal_strlit("priority");
}

/// The name that a policy with the given `@id` and internal id goes by.
pub fn display_name(annotated: Option<&str>, internal: String) -> (name: String)
    ensures
        name@ == (match annotated {
            Some(id) => id@,
            None => internal@,
        }),
{
    match annotated {
        Some(id) => id.to_string(),
        None => internal,
    }
}

/// The name that a policy goes by: its `@id`, else its internal id.
pub fn display_id(policy: &Policy) -> (name: String)
    ensures
        name@ == display_text(cedar::policy_model(*policy)),
{
    proof {
        annotation_keys_are_identifiers();
    }
    display_name(
        cedar::annotation_of(policy, ID_ANNOTATION),
        cedar::displayed_id(cedar::id_of(policy)),
    )
}

/// The priority that a text states, if it states one.
pub fn parse_priority(raw: &str) -> (priority: Option<u32>)
    ensures
        priority == stated_priority(raw@),
{
    text::parse_decimal(raw, u32::MAX)
}

/// The priority of a policy with the given `@priority`: the lowest where it is
/// absent, or states none.
pub fn effective_priority(raw: Option<&str>) -> (priority: u32)
    ensures
        priority == annotated_priority(cedar::optional_text(raw)),
{
    match raw {
        Some(raw) => match parse_priority(raw) {
            Some(priority) => priority,
            None => LOWEST_PRIORITY,
        },
        None => LOWEST_PRIORITY,
    }
}

/// The priority of a policy.
pub fn priority_of(policy: &Policy) -> (priority: u32)
    ensures
        priority == policy_priority(cedar::policy_model(*policy)),
{
    proof {
        annotation_keys_are_identifiers();
    }
    effective_priority(cedar::annotation_of(policy, PRIORITY_ANNOTATION))
}

/// Where a policy stands among those that determine a decision.
pub struct Rank {
    pub priority: u32,
    pub name: Seq<char>,
}

/// The rank of a policy.
pub open spec fn policy_rank(policy: PolicyModel) -> Rank {
    Rank { priority: policy_priority(policy), name: display_text(policy) }
}

/// `a` goes before `b`: its priority is the smaller number or, with the same
/// number, its name comes first.
pub open spec fn precedes(a: Rank, b: Rank) -> bool {
    a.priority < b.priority || (a.priority == b.priority && text::text_lt(a.name, b.name))
}

/// The rank at `at` goes before those in front of it, and none behind it goes
/// before it.
pub open spec fn is_first(ranks: Seq<Rank>, at: int) -> bool {
    &&& 0 <= at < ranks.len()
    &&& forall|i: int| 0 <= i < at ==> precedes(ranks[at], #[trigger] ranks[i])
    &&& forall|i: int| at < i < ranks.len() ==> !precedes(#[trigger] ranks[i], ranks[at])
}

/// What a list of priorities and names says of ranks.
pub open spec fn rank_list(list: Seq<(u32, String)>) -> Seq<Rank> {
    list.map_values(|entry: (u32, String)| Rank { priority: entry.0, name: entry.1@ })
}

/// Where `a` goes before `b` and `c` does not go before `b`, `a` goes before `c`.
proof fn precedes_what_follows(a: Rank, b: Rank, c: Rank)
    requires
        precedes(a, b),
        !precedes(c, b),
    ensures
        precedes(a, c),
{
    text::text_lt_is_not_ge(a.name, b.name);
    text::text_lt_is_not_ge(c.name, b.name);
    text::text_lt_is_not_ge(a.name, c.name);
    if text::text_le(c.name, a.name) && text::text_le(b.name, c.name) {
        text::text_le_transitive(b.name, c.name, a.name);
    }
}

/// Of two different ranks one goes before the other.
pub proof fn precedes_one_or_other(a: Rank, b: Rank)
    requires
        a != b,
    ensures
        precedes(a, b) || precedes(b, a),
{
    text::text_le_total(a.name, b.name);
}

/// No two ranks go before each other.
pub proof fn precedes_one_way(a: Rank, b: Rank)
    requires
        precedes(a, b),
    ensures
        !precedes(b, a),
{
    text::text_lt_is_not_ge(a.name, b.name);
    text::text_lt_is_not_ge(b.name, a.name);
}

/// Whether a policy with one priority and name goes before another.
fn goes_before(a: &(u32, String), b: &(u32, String)) -> (before: bool)
    ensures
        before == precedes(
            Rank { priority: a.0, name: a.1@ },
            Rank { priority: b.0, name: b.1@ },
        ),
{
    proof {
        text::text_lt_is_not_ge(a.1@, b.1@);
    }
    a.0 < b.0 || (a.0 == b.0 && !text::is_text_le(b.1.as_str(), a.1.as_str()))
}

/// Which of the given priorities and names goes first; the frontmost of those
/// that no other goes before.
pub fn first_in_rank(list: &Vec<(u32, String)>) -> (first: Option<usize>)
    ensures
        first is None <==> list@.len() == 0,
        first matches Some(at) ==> is_first(rank_list(list@), at as int),
{
    if list.len() == 0 {
        return None;
    }
    let mut best: usize = 0;
    let mut i: usize = 1;
    let ghost ranks = rank_list(list@);
    while i < list.len()
        invariant
            1 <= i <= list@.len(),
            ranks == rank_list(list@),
            best < i,
            is_first(ranks.take(i as int), best as int),
        decreases list@.len() - i,
    {
        let ghost seen = ranks.take(i as int);
        let ghost more = ranks.take(i + 1);
        assert(forall|k: int| 0 <= k < i ==> more[k] == seen[k]);
        if goes_before(&list[i], &list[best]) {
            proof {
                assert forall|k: int| 0 <= k < i implies precedes(more[i as int], #[trigger] more[k]) by {
                    assert(more[k] == seen[k]);
                    if k < best {
                        precedes_one_way(seen[best as int], seen[k]);
                    }
                    if k != best {
                        precedes_what_follows(more[i as int], seen[best as int], seen[k]);
                    }
                }
            }
            best = i;
        }
        i += 1;
    }
    assert(ranks.take(list@.len() as int) =~= ranks);
    Some(best)
}

/// The key of the context that an annotation gives a value, if it gives one.
pub open spec fn context_key(annotation: Seq<char>) -> Option<Seq<char>> {
    if DECISION_CONTEXT_PREFIX@.is_prefix_of(annotation) {
        Some(annotation.skip(DECISION_CONTEXT_PREFIX@.len() as int))
    } else {
        None
    }
}

/// What the annotations of a policy put into the context of a response: the value
/// of each that has the prefix and a key behind it, under that key.
pub open spec fn annotation_members(annotations: Map<Seq<char>, Seq<char>>) -> Map<
    Seq<char>,
    Json,
> {
    Map::new(
        |key: Seq<char>|
            key.len() > 0 && annotations.dom().contains(DECISION_CONTEXT_PREFIX@ + key),
        |key: Seq<char>| Json::Text(annotations[DECISION_CONTEXT_PREFIX@ + key]),
    )
}

/// `members` with what an annotation puts there.
pub open spec fn with_annotation(
    members: Map<Seq<char>, Json>,
    annotation: Seq<char>,
    value: Seq<char>,
) -> Map<Seq<char>, Json> {
    match context_key(annotation) {
        Some(key) => if key.len() > 0 {
            members.insert(key, Json::Text(value))
        } else {
            members
        },
        None => members,
    }
}

/// What a list of annotations puts into the context, one after the other.
pub open spec fn collected(list: Seq<(String, String)>) -> Map<Seq<char>, Json>
    decreases list.len(),
{
    if list.len() == 0 {
        json::no_members()
    } else {
        with_annotation(collected(list.drop_last()), list.last().0@, list.last().1@)
    }
}

/// A text with the prefix in front has what was behind it as its key.
proof fn context_key_of_prefixed(key: Seq<char>)
    ensures
        context_key(DECISION_CONTEXT_PREFIX@ + key) == Some(key),
{
    let whole = DECISION_CONTEXT_PREFIX@ + key;
    assert(whole.take(DECISION_CONTEXT_PREFIX@.len() as int) =~= DECISION_CONTEXT_PREFIX@);
    assert(whole.skip(DECISION_CONTEXT_PREFIX@.len() as int) =~= key);
}

/// A text that has a key is the key with the prefix in front.
proof fn prefixed_has_context_key(annotation: Seq<char>)
    ensures
        context_key(annotation) matches Some(key) ==> annotation == DECISION_CONTEXT_PREFIX@ + key,
{
    if DECISION_CONTEXT_PREFIX@.is_prefix_of(annotation) {
        let length = DECISION_CONTEXT_PREFIX@.len() as int;
        assert(annotation =~= annotation.take(length) + annotation.skip(length));
    }
}

/// What a list puts into the context that holds every annotation once.
proof fn collected_from_listing(
    list: Seq<(String, String)>,
    annotations: Map<Seq<char>, Seq<char>>,
)
    requires
        cedar::lists_annotations(list, annotations),
    ensures
        collected(list) == annotation_members(annotations),
    decreases list.len(),
{
    if list.len() == 0 {
        assert forall|key: Seq<char>| !annotation_members(annotations).dom().contains(key) by {
            if annotations.dom().contains(DECISION_CONTEXT_PREFIX@ + key) {
                let i = choose|i: int|
                    0 <= i < list.len() && (#[trigger] list[i]).0@ == DECISION_CONTEXT_PREFIX@ + key;
                assert(false);
            }
        }
        assert(annotation_members(annotations) =~= json::no_members());
    } else {
        let rest = list.drop_last();
        let (name, value) = list.last();
        let others = annotations.remove(name@);
        assert forall|key: Seq<char>| #[trigger] others.dom().contains(key) implies exists|i: int|
            0 <= i < rest.len() && (#[trigger] rest[i]).0@ == key by {
            let i = choose|i: int| 0 <= i < list.len() && (#[trigger] list[i]).0@ == key;
            assert(rest[i].0@ == key);
        }
        assert forall|i: int| 0 <= i < rest.len() implies others.dom().contains(
            (#[trigger] rest[i]).0@,
        ) && others[rest[i].0@] == rest[i].1@ by {
            assert(rest[i] == list[i]);
            assert(list[i].0@ != list[list.len() - 1].0@);
        }
        collected_from_listing(rest, others);
        prefixed_has_context_key(name@);
        assert(annotations[name@] == value@);
        assert forall|key: Seq<char>|
            #![trigger DECISION_CONTEXT_PREFIX@ + key]
            DECISION_CONTEXT_PREFIX@ + key == name@ implies context_key(name@) == Some(key) by {
            context_key_of_prefixed(key);
        }
        assert(collected(list) =~= annotation_members(annotations));
    }
}

/// The key of the context that an annotation gives a value, if it gives one.
pub fn decision_context_key(annotation: &str) -> (key: Option<&str>)
    ensures
        cedar::optional_text(key) == context_key(annotation@),
{
    text::strip_prefix(annotation, DECISION_CONTEXT_PREFIX)
}

/// Whether a key of the context is kept for what the decision point reports.
pub fn is_reserved_context_key(key: &str) -> (reserved: bool)
    ensures
        reserved == is_reserved_key(key@),
{
    text::is_same_text(key, RESERVED_REASON_KEY) || text::is_same_text(key, RESERVED_ERRORS_KEY)
}

/// `key` is kept for what the decision point reports.
pub open spec fn is_reserved_key(key: Seq<char>) -> bool {
    key == RESERVED_REASON_KEY@ || key == RESERVED_ERRORS_KEY@
}

/// Puts what an annotation says into a context.
fn insert_annotation_entry(context: &mut JsonMap<String, Value>, annotation: &str, value: &str)
    ensures
        json::members(*final(context)) == with_annotation(
            json::members(*old(context)),
            annotation@,
            value@,
        ),
{
    if let Some(key) = decision_context_key(annotation) {
        if key.unicode_len() > 0 {
            json::insert(context, key.to_string(), json::text_value(value.to_string()));
        }
    }
}

/// The context that a list of annotations makes.
pub fn annotation_context(list: &Vec<(String, String)>) -> (context: JsonMap<String, Value>)
    ensures
        json::members(context) == collected(list@),
{
    let mut context = json::new_object();
    let mut i: usize = 0;
    while i < list.len()
        invariant
            i <= list@.len(),
            json::members(context) == collected(list@.take(i as int)),
        decreases list@.len() - i,
    {
        assert(list@.take(i + 1).drop_last() =~= list@.take(i as int));
        insert_annotation_entry(&mut context, list[i].0.as_str(), list[i].1.as_str());
        i += 1;
    }
    assert(list@.take(list@.len() as int) =~= list@);
    context
}

/// The context that a policy gives a decision.
#[derive(Debug, PartialEq)]
pub struct DecisionContext {
    /// The name that the policy goes by.
    pub policy_id: String,
    /// What its annotations say.
    pub context: JsonMap<String, Value>,
}

/// What a [`DecisionContext`] holds.
pub struct DecisionContextModel {
    pub policy_id: Seq<char>,
    pub context: Map<Seq<char>, Json>,
}

impl View for DecisionContext {
    type V = DecisionContextModel;

    open spec fn view(&self) -> DecisionContextModel {
        DecisionContextModel {
            policy_id: self.policy_id@,
            context: json::members(self.context),
        }
    }
}

/// The policies of `list` with the given internal ids, in the order of the ids;
/// an id that `list` does not know is passed over.
pub open spec fn candidates(list: Seq<PolicyModel>, keys: Seq<Seq<char>>) -> Seq<PolicyModel>
    decreases keys.len(),
{
    if keys.len() == 0 {
        Seq::empty()
    } else {
        match cedar::find_policy(list, keys.last()) {
            Some(policy) => candidates(list, keys.drop_last()).push(policy),
            None => candidates(list, keys.drop_last()),
        }
    }
}

/// The ranks of a list of policies.
pub open spec fn policy_ranks(list: Seq<PolicyModel>) -> Seq<Rank> {
    list.map_values(|policy: PolicyModel| policy_rank(policy))
}

/// The policy of a list that goes first.
pub open spec fn winner(list: Seq<PolicyModel>) -> PolicyModel {
    list[choose|at: int| is_first(policy_ranks(list), at)]
}

/// The context that a policy gives a decision, if its annotations say anything.
pub open spec fn policy_context(policy: PolicyModel) -> Option<DecisionContextModel> {
    let context = annotation_members(policy.annotations);
    if context == json::no_members() {
        None
    } else {
        Some(DecisionContextModel { policy_id: display_text(policy), context })
    }
}

/// The context that the policies that determine a decision give it: that of the
/// policy that goes first, and of no other.
pub open spec fn decision_context(list: Seq<PolicyModel>) -> Option<DecisionContextModel> {
    if list.len() == 0 {
        None
    } else {
        policy_context(winner(list))
    }
}

/// At most one place of a list goes first.
pub proof fn first_is_unique(ranks: Seq<Rank>, a: int, b: int)
    requires
        is_first(ranks, a),
        is_first(ranks, b),
    ensures
        a == b,
{
    if a < b {
        assert(precedes(ranks[b], ranks[a]));
    } else if b < a {
        assert(precedes(ranks[a], ranks[b]));
    }
}

/// Some place of a list that is not empty goes first.
pub proof fn some_is_first(ranks: Seq<Rank>)
    requires
        ranks.len() > 0,
    ensures
        exists|at: int| is_first(ranks, at),
    decreases ranks.len(),
{
    let last = ranks.len() - 1;
    if last == 0 {
        assert(is_first(ranks, 0));
    } else {
        let rest = ranks.drop_last();
        some_is_first(rest);
        let best = choose|at: int| is_first(rest, at);
        assert(forall|i: int| 0 <= i < last ==> rest[i] == #[trigger] ranks[i]);
        if precedes(ranks[last], ranks[best]) {
            assert forall|i: int| 0 <= i < last implies precedes(
                ranks[last],
                #[trigger] ranks[i],
            ) by {
                if i < best {
                    assert(precedes(rest[best], rest[i]));
                    precedes_one_way(rest[best], rest[i]);
                } else if i > best {
                    assert(!precedes(rest[i], rest[best]));
                }
                if i != best {
                    precedes_what_follows(ranks[last], ranks[best], ranks[i]);
                }
            }
            assert(is_first(ranks, last));
        } else {
            assert forall|i: int| 0 <= i < best implies precedes(
                ranks[best],
                #[trigger] ranks[i],
            ) by {
                assert(precedes(rest[best], rest[i]));
            }
            assert forall|i: int| best < i < ranks.len() implies !precedes(
                #[trigger] ranks[i],
                ranks[best],
            ) by {
                if i < last {
                    assert(!precedes(rest[i], rest[best]));
                }
            }
            assert(is_first(ranks, best));
        }
    }
}

/// A context that may be absent.
pub open spec fn optional_context(context: Option<DecisionContext>) -> Option<
    DecisionContextModel,
> {
    match context {
        Some(context) => Some(context@),
        None => None,
    }
}

/// The context that a policy gives a decision, if its annotations say anything.
fn context_of_policy(policy: &Policy) -> (context: Option<DecisionContext>)
    ensures
        optional_context(context) == policy_context(cedar::policy_model(*policy)),
{
    let annotations = cedar::annotations_of(policy);
    let context = annotation_context(&annotations);
    proof {
        collected_from_listing(annotations@, cedar::policy_model(*policy).annotations);
    }
    if json::is_empty(&context) {
        None
    } else {
        Some(DecisionContext { policy_id: display_id(policy), context })
    }
}

/// The context that the policies that determine a decision give it. All of it
/// comes from one policy: the one with the smallest priority, of those the one
/// whose name comes first, of those the one whose id is given first.
pub fn to_decision_context(policy_set: &PolicySet, reason_ids: &[&PolicyId]) -> (context: Option<
    DecisionContext,
>)
    ensures
        optional_context(context) == decision_context(
            candidates(cedar::policy_list(*policy_set), cedar::policy_keys(reason_ids@)),
        ),
{
    let ghost list = cedar::policy_list(*policy_set);
    let ghost keys = cedar::policy_keys(reason_ids@);
    let mut policies: Vec<&Policy> = Vec::new();
    let mut ranks: Vec<(u32, String)> = Vec::new();
    let mut i: usize = 0;
    assert(cedar::policy_models(policies@) =~= candidates(list, keys.take(0)));
    assert(rank_list(ranks@) =~= policy_ranks(cedar::policy_models(policies@)));
    while i < reason_ids.len()
        invariant
            i <= reason_ids@.len(),
            list == cedar::policy_list(*policy_set),
            keys == cedar::policy_keys(reason_ids@),
            cedar::policy_models(policies@) == candidates(list, keys.take(i as int)),
            rank_list(ranks@) == policy_ranks(cedar::policy_models(policies@)),
        decreases reason_ids@.len() - i,
    {
        assert(keys.take(i + 1).drop_last() =~= keys.take(i as int));
        if let Some(policy) = cedar::policy_with_id(policy_set, reason_ids[i]) {
            let rank = (priority_of(policy), display_id(policy));
            let ghost before = cedar::policy_models(policies@);
            let ghost ranks_before = rank_list(ranks@);
            policies.push(policy);
            ranks.push(rank);
            assert(cedar::policy_models(policies@) =~= before.push(cedar::policy_model(*policy)));
            assert(rank_list(ranks@) =~= ranks_before.push(
                policy_rank(cedar::policy_model(*policy)),
            ));
            assert(policy_ranks(cedar::policy_models(policies@)) =~= policy_ranks(before).push(
                policy_rank(cedar::policy_model(*policy)),
            ));
        }
        i += 1;
    }
    assert(keys.take(keys.len() as int) =~= keys);
    match first_in_rank(&ranks) {
        Some(at) => {
            assert(rank_list(ranks@).len() == ranks@.len());
            proof {
                let models = cedar::policy_models(policies@);
                first_is_unique(
                    policy_ranks(models),
                    at as int,
                    choose|at: int| is_first(policy_ranks(models), at),
                );
            }
            context_of_policy(policies[at])
        },
        None => {
            assert(rank_list(ranks@).len() == ranks@.len());
            None
        },
    }
}

/// What a response reports beside its decision: what annotations say, under keys
/// that are not reserved, and under the reserved keys the determining policies and
/// the errors of the evaluation, each where there are any.
pub open spec fn response_members(
    annotations: Map<Seq<char>, Json>,
    reason: Seq<Seq<char>>,
    errors: Seq<Seq<char>>,
) -> Map<Seq<char>, Json> {
    let own = annotations.remove(RESERVED_REASON_KEY@).remove(RESERVED_ERRORS_KEY@);
    let with_reason = if reason.len() > 0 {
        own.insert(RESERVED_REASON_KEY@, json::text_array(reason))
    } else {
        own
    };
    if errors.len() > 0 {
        with_reason.insert(RESERVED_ERRORS_KEY@, json::text_array(errors))
    } else {
        with_reason
    }
}

/// The context of a response; none where there is nothing to report.
pub open spec fn response_context(
    annotations: Option<Map<Seq<char>, Json>>,
    reason: Seq<Seq<char>>,
    errors: Seq<Seq<char>>,
) -> Option<Map<Seq<char>, Json>> {
    let members = response_members(
        match annotations {
            Some(members) => members,
            None => json::no_members(),
        },
        reason,
        errors,
    );
    if members == json::no_members() {
        None
    } else {
        Some(members)
    }
}

/// The reserved keys that annotations give values, in vain.
pub open spec fn overridden(annotations: Option<Map<Seq<char>, Json>>) -> Seq<Seq<char>> {
    match annotations {
        Some(members) => {
            let reason = if members.dom().contains(RESERVED_REASON_KEY@) {
                seq![RESERVED_REASON_KEY@]
            } else {
                Seq::empty()
            };
            if members.dom().contains(RESERVED_ERRORS_KEY@) {
                reason.push(RESERVED_ERRORS_KEY@)
            } else {
                reason
            }
        },
        None => Seq::empty(),
    }
}

/// The reserved keys that annotations give values, in vain.
pub fn overridden_keys(annotation_context: &Option<JsonMap<String, Value>>) -> (keys: Vec<String>)
    ensures
        text::texts(keys@) == overridden(json::optional_members(*annotation_context)),
{
    let mut keys: Vec<String> = Vec::new();
    if let Some(context) = annotation_context {
        if json::has_member(context, RESERVED_REASON_KEY) {
            keys.push(RESERVED_REASON_KEY.to_string());
        }
        if json::has_member(context, RESERVED_ERRORS_KEY) {
            keys.push(RESERVED_ERRORS_KEY.to_string());
        }
    }
    assert(text::texts(keys@) =~= overridden(json::optional_members(*annotation_context)));
    keys
}

/// The context of a response: what annotations say, with the determining policies
/// under `reason` and the errors of the evaluation under `errors`. Annotations
/// have no say in these two.
pub fn build_response_context(
    annotation_context: Option<JsonMap<String, Value>>,
    reason: &[String],
    errors: &[String],
) -> (context: Option<JsonMap<String, Value>>)
    ensures
        json::optional_members(context) == response_context(
            json::optional_members(annotation_context),
            text::texts(reason@),
            text::texts(errors@),
        ),
{
    let mut context = match annotation_context {
        Some(context) => context,
        None => json::new_object(),
    };
    json::remove(&mut context, RESERVED_REASON_KEY);
    json::remove(&mut context, RESERVED_ERRORS_KEY);
    if reason.len() > 0 {
        json::insert(
            &mut context,
            RESERVED_REASON_KEY.to_string(),
            json::json_string_array(reason),
        );
    }
    if errors.len() > 0 {
        json::insert(
            &mut context,
            RESERVED_ERRORS_KEY.to_string(),
            json::json_string_array(errors),
        );
    }
    if json::is_empty(&context) {
        None
    } else {
        Some(context)
    }
}

} // verus!
