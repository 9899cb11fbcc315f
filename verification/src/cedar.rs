//! The part of `cedar_policy` that the library works with, and the models of
//! its values that contracts speak of.
//!
//! Values of Cedar are opaque to the verifier. Each is described by a function
//! from the value to what it holds, and the functions below that call Cedar say
//! over those descriptions what the calls do.

use std::str::FromStr;

use cedar_policy::{
    Context, ContextJsonError, Decision, Entities, EntityId, EntityTypeName, EntityUid, ParseErrors,
    Policy, PolicyId, PolicySet, Request, RequestValidationError, Response, Schema, SchemaError,
    ValidationMode, ValidationResult, Validator,
};
use vstd::prelude::*;

use crate::json::{self, Json};
use crate::text;

verus! {

/// `cedar_policy::EntityTypeName`, the name of an entity type.
#[verifier::external_type_specification]
#[verifier::external_body]
pub struct ExEntityTypeName(EntityTypeName);

/// `cedar_policy::EntityId`, what tells an entity from others of its type.
#[verifier::external_type_specification]
#[verifier::external_body]
pub struct ExEntityId(EntityId);

/// `cedar_policy::EntityUid`, a reference to an entity.
#[verifier::external_type_specification]
#[verifier::external_body]
pub struct ExEntityUid(EntityUid);

/// `cedar_policy::Context`, the environment of a request.
#[verifier::external_type_specification]
#[verifier::external_body]
pub struct ExContext(Context);

/// `cedar_policy::Request`, a question to the authorizer.
#[verifier::external_type_specification]
#[verifier::external_body]
pub struct ExRequest(Request);

/// `cedar_policy::Entities`, the entities that a request is evaluated with.
#[verifier::external_type_specification]
#[verifier::external_body]
pub struct ExEntities(Entities);

/// `cedar_policy::Schema`, what requests, entities and policies must conform to.
#[verifier::external_type_specification]
#[verifier::external_body]
pub struct ExSchema(Schema);

/// `cedar_policy::PolicySet`, a collection of policies.
#[verifier::external_type_specification]
#[verifier::external_body]
pub struct ExPolicySet(PolicySet);

/// `cedar_policy::Policy`, one policy with its annotations.
#[verifier::external_type_specification]
#[verifier::external_body]
pub struct ExPolicy(Policy);

/// `cedar_policy::PolicyId`, what tells a policy from the others of its set.
#[verifier::external_type_specification]
#[verifier::external_body]
pub struct ExPolicyId(PolicyId);

/// `cedar_policy::Response`, what the authorizer answers.
#[verifier::external_type_specification]
#[verifier::external_body]
pub struct ExResponse(Response);

/// `cedar_policy::ValidationResult`, what validating a policy set found.
#[verifier::external_type_specification]
#[verifier::external_body]
pub struct ExValidationResult(ValidationResult);

/// `cedar_policy::ParseErrors`, why a text is no Cedar.
#[verifier::external_type_specification]
#[verifier::external_body]
pub struct ExParseErrors(ParseErrors);

/// `cedar_policy::SchemaError`, why a document is no schema.
#[verifier::external_type_specification]
#[verifier::external_body]
pub struct ExSchemaError(SchemaError);

/// `cedar_policy::ContextJsonError`, why a JSON value is no context.
#[verifier::external_type_specification]
#[verifier::external_body]
pub struct ExContextJsonError(ContextJsonError);

/// `cedar_policy::RequestValidationError`, why a request does not conform.
#[verifier::external_type_specification]
#[verifier::external_body]
pub struct ExRequestValidationError(RequestValidationError);

/// `cedar_policy::entities_errors::EntitiesError`, why a JSON value gives no
/// entities.
#[verifier::external_type_specification]
#[verifier::external_body]
pub struct ExEntitiesError(cedar_policy::entities_errors::EntitiesError);

/// A reference to an entity: its type and its id.
pub struct EntityRef {
    pub entity_type: Seq<char>,
    pub id: Seq<char>,
}

/// The attributes of a record or an entity: the value of each, as Cedar writes
/// it.
pub type Attributes = Map<Seq<char>, Seq<char>>;

/// What a request to the authorizer holds.
pub struct QuestionModel {
    pub principal: EntityRef,
    pub action: EntityRef,
    pub resource: EntityRef,
    pub context: Attributes,
}

/// What the library reads of a policy.
pub struct PolicyModel {
    /// The internal id.
    pub key: Seq<char>,
    /// The value of each annotation; one without a value has the empty text.
    pub annotations: Map<Seq<char>, Seq<char>>,
}

/// The name that an `EntityTypeName` holds.
pub uninterp spec fn type_text(name: EntityTypeName) -> Seq<char>;

/// The text that an `EntityId` holds.
pub uninterp spec fn entity_id(id: EntityId) -> Seq<char>;

/// What an `EntityUid` refers to.
pub uninterp spec fn reference(uid: EntityUid) -> EntityRef;

/// What a `Context` holds.
pub uninterp spec fn context_attributes(context: Context) -> Attributes;

/// What a `Request` holds.
pub uninterp spec fn question(request: Request) -> QuestionModel;

/// What an `Entities` holds: the attributes of each entity.
pub uninterp spec fn stored(entities: Entities) -> Map<EntityRef, Attributes>;

/// The text that a `PolicyId` holds.
pub uninterp spec fn policy_key(id: PolicyId) -> Seq<char>;

/// What a `Policy` holds.
pub uninterp spec fn policy_model(policy: Policy) -> PolicyModel;

/// What a `PolicySet` holds: its policies, in the order of their addition.
pub uninterp spec fn policy_list(set: PolicySet) -> Seq<PolicyModel>;

/// Whether a `Response` allows the request.
pub uninterp spec fn allows(response: Response) -> bool;

/// The ids of the policies that determined a `Response`.
pub uninterp spec fn determining(response: Response) -> Set<Seq<char>>;

/// The errors that a `Response` reports, as they display.
pub uninterp spec fn evaluation_errors(response: Response) -> Seq<Seq<char>>;

/// The errors that a `ValidationResult` reports, as they display.
pub uninterp spec fn validation_errors(result: ValidationResult) -> Seq<Seq<char>>;

/// What `Context::from_json_value` makes of a JSON value for an action of a
/// schema; none where it rejects the value.
pub uninterp spec fn parsed_context(value: Json, schema: Schema, action: EntityRef) -> Option<
    Attributes,
>;

/// Whether `Request::new` finds that a request conforms to a schema.
pub uninterp spec fn request_conforms(request: QuestionModel, schema: Schema) -> bool;

/// The text that the error displays which `Request::new` rejects a request with
/// that does not conform.
pub uninterp spec fn request_rejection(request: QuestionModel, schema: Schema) -> Seq<char>;

/// What `Entities::from_json_value` makes of a JSON value under a schema; none
/// where it rejects the value.
pub uninterp spec fn parsed_entities(value: Json, schema: Schema) -> Option<
    Map<EntityRef, Attributes>,
>;

/// What `Schema::from_json_file` makes of a document; none where it rejects it.
pub uninterp spec fn parsed_schema(document: Seq<u8>) -> Option<Schema>;

/// What `PolicySet::from_str` makes of a text: the policies, or the errors that it
/// rejects the text with.
pub uninterp spec fn parsed_policies(source: Seq<char>) -> Result<PolicySet, ParseErrors>;

/// The errors that `EntityTypeName::from_str` rejects a text with that names no
/// type.
pub uninterp spec fn type_name_errors(name: Seq<char>) -> ParseErrors;

/// Whether `Validator::validate` finds no error in a policy set, in strict mode.
pub uninterp spec fn strictly_valid(set: PolicySet, schema: Schema) -> bool;

/// How `PolicyId` displays the id that it holds.
pub uninterp spec fn displayed_key(key: Seq<char>) -> Seq<char>;

/// The text that a `ParseErrors` displays.
pub uninterp spec fn parse_message(errors: ParseErrors) -> Seq<char>;

/// The text that a `SchemaError` displays.
pub uninterp spec fn schema_message(error: SchemaError) -> Seq<char>;

/// The text that a `ContextJsonError` displays.
pub uninterp spec fn context_message(error: ContextJsonError) -> Seq<char>;

/// The text that a `RequestValidationError` displays.
pub uninterp spec fn request_message(error: RequestValidationError) -> Seq<char>;

/// The text that an `EntitiesError` displays.
pub uninterp spec fn entities_message(
    error: cedar_policy::entities_errors::EntitiesError,
) -> Seq<char>;

/// The attributes of a record that has none.
pub open spec fn no_attributes() -> Attributes {
    Map::empty()
}

/// `c` may begin an identifier.
pub open spec fn is_identifier_start(c: char) -> bool {
    ('a' <= c && c <= 'z') || ('A' <= c && c <= 'Z') || c == '_'
}

/// `part` is an identifier: ASCII letters, digits and underscores, without a
/// digit in front.
pub open spec fn is_identifier(part: Seq<char>) -> bool {
    &&& part.len() > 0
    &&& is_identifier_start(part[0])
    &&& forall|i: int|
        0 <= i < part.len() ==> is_identifier_start(#[trigger] part[i]) || text::is_digit(part[i])
}

/// `part` is one of the words that name no type.
pub open spec fn is_reserved_word(part: Seq<char>) -> bool {
    ||| part == "true"@
    ||| part == "false"@
    ||| part == "if"@
    ||| part == "then"@
    ||| part == "else"@
    ||| part == "in"@
    ||| part == "is"@
    ||| part == "like"@
    ||| part == "has"@
    ||| part == "__cedar"@
}

/// `parts` are the steps of a path to a type.
pub open spec fn is_type_path(parts: Seq<Seq<char>>) -> bool {
    &&& parts.len() > 0
    &&& forall|i: int|
        0 <= i < parts.len() ==> is_identifier(#[trigger] parts[i]) && !is_reserved_word(parts[i])
}

/// `name` is a name of an entity type: identifiers with `::` between them.
pub open spec fn is_type_name(name: Seq<char>) -> bool {
    exists|parts: Seq<Seq<char>>|
        is_type_path(parts) && #[trigger] text::joined(parts, "::"@) == name
}

/// `name` names a type of actions: `Action`, in any namespace.
pub open spec fn is_action_type(name: Seq<char>) -> bool {
    name == "Action"@ || "::Action"@.is_suffix_of(name)
}

/// A JSON document of an entity: its uid, its attributes and no parents.
pub open spec fn entity_document(
    entity: EntityRef,
    attributes: Map<Seq<char>, Json>,
) -> Json {
    Json::Object(
        json::no_members().insert(
            "uid"@,
            Json::Object(
                json::no_members().insert("type"@, Json::Text(entity.entity_type)).insert(
                    "id"@,
                    Json::Text(entity.id),
                ),
            ),
        ).insert("attrs"@, Json::Object(attributes)).insert("parents"@, Json::Array(Seq::empty())),
    )
}

/// An entity with its attributes still in JSON.
pub struct EntityEntry {
    pub entity: EntityRef,
    pub attributes: Map<Seq<char>, Json>,
}

/// A JSON document of a list of entities.
pub open spec fn entities_document(entries: Seq<EntityEntry>) -> Json {
    Json::Array(
        entries.map_values(|entry: EntityEntry| entity_document(entry.entity, entry.attributes)),
    )
}

/// What a document of entities gives, by the entries that it was made of: every
/// listed entity is there, with one attribute for each listed one where it is no
/// action, and nothing else but actions of the schema.
pub open spec fn holds_entries(
    store: Map<EntityRef, Attributes>,
    entries: Seq<EntityEntry>,
) -> bool {
    &&& forall|i: int|
        0 <= i < entries.len() ==> store.dom().contains((#[trigger] entries[i]).entity)
    &&& forall|i: int|
        0 <= i < entries.len() && !is_action_type((#[trigger] entries[i]).entity.entity_type)
            ==> store[entries[i].entity].dom() == entries[i].attributes.dom()
    &&& forall|entity: EntityRef| #[trigger]
        store.dom().contains(entity) ==> is_action_type(entity.entity_type) || exists|i: int|
            0 <= i < entries.len() && (#[trigger] entries[i]).entity == entity
}

/// The entries of a document of entities name types, all of them.
pub open spec fn entries_name_types(entries: Seq<EntityEntry>) -> bool {
    forall|i: int|
        0 <= i < entries.len() ==> is_type_name((#[trigger] entries[i]).entity.entity_type)
}

/// `list` holds a policy with the internal id `key`.
pub open spec fn has_policy(list: Seq<PolicyModel>, key: Seq<char>) -> bool {
    exists|i: int| 0 <= i < list.len() && (#[trigger] list[i]).key == key
}

/// The frontmost policy of `list` with the internal id `key` stands at `at`.
pub open spec fn stands_first(list: Seq<PolicyModel>, key: Seq<char>, at: int) -> bool {
    &&& 0 <= at < list.len()
    &&& list[at].key == key
    &&& forall|i: int| 0 <= i < at ==> (#[trigger] list[i]).key != key
}

/// The policy of `list` with the internal id `key`, if there is one.
pub open spec fn find_policy(list: Seq<PolicyModel>, key: Seq<char>) -> Option<PolicyModel> {
    if has_policy(list, key) {
        Some(list[choose|at: int| stands_first(list, key, at)])
    } else {
        None
    }
}

/// What the policies of a list of references hold.
pub open spec fn policy_models(list: Seq<&Policy>) -> Seq<PolicyModel> {
    list.map_values(|policy: &Policy| policy_model(*policy))
}

/// What the ids of a list of references hold.
pub open spec fn policy_keys(list: Seq<&PolicyId>) -> Seq<Seq<char>> {
    list.map_values(|id: &PolicyId| policy_key(*id))
}

/// What a policy that may be absent holds.
pub open spec fn optional_policy(policy: Option<&Policy>) -> Option<PolicyModel> {
    match policy {
        Some(policy) => Some(policy_model(*policy)),
        None => None,
    }
}

/// The value of an annotation, if there is one.
pub open spec fn annotation_value(
    annotations: Map<Seq<char>, Seq<char>>,
    key: Seq<char>,
) -> Option<Seq<char>> {
    if annotations.dom().contains(key) {
        Some(annotations[key])
    } else {
        None
    }
}

/// A text that may be absent.
pub open spec fn optional_text(text: Option<&str>) -> Option<Seq<char>> {
    match text {
        Some(text) => Some(text@),
        None => None,
    }
}

/// `list` holds every annotation of `annotations` once, and nothing else.
pub open spec fn lists_annotations(
    list: Seq<(String, String)>,
    annotations: Map<Seq<char>, Seq<char>>,
) -> bool {
    &&& forall|i: int|
        0 <= i < list.len() ==> annotations.dom().contains((#[trigger] list[i]).0@)
            && annotations[list[i].0@] == list[i].1@
    &&& forall|key: Seq<char>| #[trigger]
        annotations.dom().contains(key) ==> exists|i: int|
            0 <= i < list.len() && (#[trigger] list[i]).0@ == key
    &&& forall|i: int, j: int|
        0 <= i < j < list.len() ==> (#[trigger] list[i]).0@ != (#[trigger] list[j]).0@
}

/// `EntityTypeName::from_str` takes a text that names a type, keeps it as it
/// stands, and rejects every other text, with errors that are named
/// [`type_name_errors`].
#[verifier::external_body]
pub(crate) fn parse_type_name(text: &str) -> (result: Result<EntityTypeName, ParseErrors>)
    ensures
        result is Ok <==> is_type_name(text@),
        result matches Ok(name) ==> type_text(name) == text@,
        result matches Err(errors) ==> errors == type_name_errors(text@),
{
    EntityTypeName::from_str(text)
}

/// `EntityId::from_str` takes every text, and keeps it as it stands.
#[verifier::external_body]
pub(crate) fn new_entity_id(text: &str) -> (id: EntityId)
    ensures
        entity_id(id) == text@,
{
    match EntityId::from_str(text) {
        Ok(id) => id,
        Err(never) => match never {},
    }
}

/// `EntityUid::from_type_name_and_id` refers to the entity of the given type
/// with the given id.
#[verifier::external_body]
pub(crate) fn new_uid(name: EntityTypeName, id: EntityId) -> (uid: EntityUid)
    ensures
        reference(uid) == (EntityRef { entity_type: type_text(name), id: entity_id(id) }),
{
    EntityUid::from_type_name_and_id(name, id)
}

/// `Context::empty` makes a context without attributes.
#[verifier::external_body]
pub(crate) fn empty_context() -> (context: Context)
    ensures
        context_attributes(context) == no_attributes(),
{
    Context::empty()
}

/// `Context::from_json_value` reads a context as the schema declares it for the
/// action; what it makes of a value is named [`parsed_context`]. Which error it
/// rejects one with is left unsaid.
#[verifier::external_body]
pub(crate) fn context_from_json(
    value: serde_json::Value,
    schema: &Schema,
    action: &EntityUid,
) -> (result: Result<Context, ContextJsonError>)
    ensures
        match result {
            Ok(context) => parsed_context(json::content(value), *schema, reference(*action)) == Some(
                context_attributes(context),
            ),
            Err(_) => parsed_context(json::content(value), *schema, reference(*action)) is None,
        },
{
    Context::from_json_value(value, Some((schema, action)))
}

/// `Request::new` puts a request together and holds it to the schema; whether it
/// conforms is named [`request_conforms`]. A request that is made holds what it
/// was made of. The text of the error that another is rejected with is named
/// [`request_rejection`]; what else the error holds is left unsaid, as it lists
/// types in the order of a hash set.
#[verifier::external_body]
pub(crate) fn new_request(
    principal: EntityUid,
    action: EntityUid,
    resource: EntityUid,
    context: Context,
    schema: &Schema,
) -> (result: Result<Request, RequestValidationError>)
    ensures
        result is Ok <==> request_conforms(
            asked(principal, action, resource, context),
            *schema,
        ),
        result matches Ok(request) ==> question(request) == asked(
            principal,
            action,
            resource,
            context,
        ),
        result matches Err(error) ==> request_message(error) == request_rejection(
            asked(principal, action, resource, context),
            *schema,
        ),
{
    Request::new(principal, action, resource, context, Some(schema))
}

/// What a request that is made of the given parts asks.
pub open spec fn asked(
    principal: EntityUid,
    action: EntityUid,
    resource: EntityUid,
    context: Context,
) -> QuestionModel {
    QuestionModel {
        principal: reference(principal),
        action: reference(action),
        resource: reference(resource),
        context: context_attributes(context),
    }
}

/// `Entities::from_json_value` reads entities as the schema declares them; what
/// it makes of a value is named [`parsed_entities`]. Where the value is a list of
/// entity documents, what comes out holds the listed entities and, beside them,
/// only actions. Which error it rejects a value with is left unsaid.
#[verifier::external_body]
pub(crate) fn entities_from_json(
    value: serde_json::Value,
    schema: &Schema,
) -> (result: Result<Entities, cedar_policy::entities_errors::EntitiesError>)
    ensures
        match result {
            Ok(entities) => parsed_entities(json::content(value), *schema) == Some(stored(entities)),
            Err(_) => parsed_entities(json::content(value), *schema) is None,
        },
        result matches Ok(entities) ==> (forall|entries: Seq<EntityEntry>|
            json::content(value) == #[trigger] entities_document(entries) && entries_name_types(
                entries,
            ) ==> holds_entries(stored(entities), entries)),
{
    Entities::from_json_value(value, Some(schema))
}

/// `Schema::from_json_file` reads a schema from the bytes of a document; what it
/// makes of them is named [`parsed_schema`]. Which error it rejects a document
/// with is left unsaid.
#[verifier::external_body]
pub(crate) fn schema_from_json(document: &Vec<u8>) -> (result: Result<Schema, SchemaError>)
    ensures
        match result {
            Ok(schema) => parsed_schema(document@) == Some(schema),
            Err(_) => parsed_schema(document@) is None,
        },
{
    Schema::from_json_file(document.as_slice())
}

/// `PolicySet::from_str` reads policies from a text; what it makes of the text is
/// named [`parsed_policies`].
#[verifier::external_body]
pub(crate) fn policies_from_text(source: &str) -> (result: Result<PolicySet, ParseErrors>)
    ensures
        result == parsed_policies(source@),
{
    PolicySet::from_str(source)
}

/// `PolicySet::policies` hands out the policies of a set, in the order of their
/// addition.
#[verifier::external_body]
pub(crate) fn policies_of(set: &PolicySet) -> (list: Vec<&Policy>)
    ensures
        policy_models(list@) == policy_list(*set),
{
    set.policies().collect()
}

/// `PolicySet::policy` finds the policy with the given id; a set holds no two with
/// the same one.
#[verifier::external_body]
pub(crate) fn policy_with_id<'a>(set: &'a PolicySet, id: &PolicyId) -> (found: Option<&'a Policy>)
    ensures
        optional_policy(found) == find_policy(policy_list(*set), policy_key(*id)),
{
    set.policy(id)
}

/// `Policy::id` gives the internal id of a policy.
#[verifier::external_body]
pub(crate) fn id_of(policy: &Policy) -> (id: &PolicyId)
    ensures
        policy_key(*id) == policy_model(*policy).key,
{
    policy.id()
}

/// `Policy::annotation` gives the value of an annotation, the empty text where it
/// has none. Keys of annotations are identifiers; what comes back for another key
/// is left out.
#[verifier::external_body]
pub(crate) fn annotation_of<'a>(policy: &'a Policy, key: &str) -> (value: Option<&'a str>)
    requires
        is_identifier(key@),
    ensures
        optional_text(value) == annotation_value(policy_model(*policy).annotations, key@),
{
    policy.annotation(key)
}

/// `Policy::annotations` hands out the annotations of a policy, each once. The
/// order is left unsaid.
#[verifier::external_body]
pub(crate) fn annotations_of(policy: &Policy) -> (list: Vec<(String, String)>)
    ensures
        lists_annotations(list@, policy_model(*policy).annotations),
{
    policy.annotations().map(|(key, value)| (key.to_string(), value.to_string())).collect()
}

/// `to_string` of `PolicyId` gives the text that the id displays.
#[verifier::external_body]
pub(crate) fn displayed_id(id: &PolicyId) -> (text: String)
    ensures
        text@ == displayed_key(policy_key(*id)),
{
    id.to_string()
}

/// `Validator::validate` holds policies to a schema, in strict mode; whether it
/// finds no error is named [`strictly_valid`]. The errors that it finds are left
/// unsaid.
#[verifier::external_body]
pub(crate) fn validate_strictly(set: &PolicySet, schema: &Schema) -> (result: ValidationResult)
    ensures
        validation_errors(result).len() == 0 <==> strictly_valid(*set, *schema),
{
    Validator::new(schema.clone()).validate(set, ValidationMode::Strict)
}

/// `ValidationResult::validation_passed` tells whether there is no error.
#[verifier::external_body]
pub(crate) fn validation_passed(result: &ValidationResult) -> (passed: bool)
    ensures
        passed == (validation_errors(*result).len() == 0),
{
    result.validation_passed()
}

/// `ValidationResult::validation_errors` hands out the errors; `to_string` gives
/// the text that each displays.
#[verifier::external_body]
pub(crate) fn validation_error_texts(result: &ValidationResult) -> (list: Vec<String>)
    ensures
        text::texts(list@) == validation_errors(*result),
{
    result.validation_errors().map(ToString::to_string).collect()
}

/// `Response::decision` gives the decision.
#[verifier::external_body]
pub(crate) fn is_allowed(response: &Response) -> (allowed: bool)
    ensures
        allowed == allows(*response),
{
    match response.decision() {
        Decision::Allow => true,
        Decision::Deny => false,
    }
}

/// `Diagnostics::reason` hands out the ids of the policies that determined the
/// decision, each once. The order differs from one response to another.
#[verifier::external_body]
pub(crate) fn reason_of(response: &Response) -> (ids: Vec<&PolicyId>)
    ensures
        policy_keys(ids@).to_set() == determining(*response),
        policy_keys(ids@).no_duplicates(),
{
    response.diagnostics().reason().collect()
}

/// `Diagnostics::errors` hands out the errors of the evaluation; `to_string`
/// gives the text that each displays.
#[verifier::external_body]
pub(crate) fn error_texts_of(response: &Response) -> (list: Vec<String>)
    ensures
        text::texts(list@) == evaluation_errors(*response),
{
    response.diagnostics().errors().map(ToString::to_string).collect()
}

/// `to_string` of `ParseErrors` gives the text that the errors display.
#[verifier::external_body]
pub(crate) fn parse_errors_text(errors: &ParseErrors) -> (text: String)
    ensures
        text@ == parse_message(*errors),
{
    errors.to_string()
}

/// `to_string` of `SchemaError` gives the text that the error displays.
#[verifier::external_body]
pub(crate) fn schema_error_text(error: &SchemaError) -> (text: String)
    ensures
        text@ == schema_message(*error),
{
    error.to_string()
}

/// `to_string` of `ContextJsonError` gives the text that the error displays.
#[verifier::external_body]
pub(crate) fn context_error_text(error: &ContextJsonError) -> (text: String)
    ensures
        text@ == context_message(*error),
{
    error.to_string()
}

/// `to_string` of `RequestValidationError` gives the text that the error
/// displays.
#[verifier::external_body]
pub(crate) fn request_error_text(error: &RequestValidationError) -> (text: String)
    ensures
        text@ == request_message(*error),
{
    error.to_string()
}

/// `to_string` of `EntitiesError` gives the text that the error displays.
#[verifier::external_body]
pub(crate) fn entities_error_text(
    error: &cedar_policy::entities_errors::EntitiesError,
) -> (text: String)
    ensures
        text@ == entities_message(*error),
{
    error.to_string()
}

} // verus!
