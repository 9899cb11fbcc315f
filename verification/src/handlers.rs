//! What the endpoints answer, and what is recorded of an evaluation.

use axum::http::StatusCode;
use cedar_policy::{Entities, PolicyId, PolicySet, Request, Response, Schema};
use vstd::prelude::*;

use crate::authzen::{AuthzenConfiguration, EvaluationRequest, EvaluationResponse, RequestModel};
use crate::cedar::{self, PolicyModel};
use crate::convert::{self, DecisionContextModel};
use crate::error::{self, ApiError};
use crate::json::{self, Json};
use crate::text;

verus! {

/// The path of the endpoint that evaluates requests.
pub const EVALUATION_PATH: &'static str = "/access/v1/evaluation";

/// What stands for the policy that gave the context where none did.
pub const NO_CONTEXT_POLICY: &'static str = "-";

/// The parties of a request, as records name them.
#[derive(Debug)]
pub struct LogTarget {
    pub subject: String,
    pub action: String,
    pub resource: String,
}

/// How records name an entity: its type, `::` and its id.
pub open spec fn entity_label(entity_type: Seq<char>, id: Seq<char>) -> Seq<char> {
    entity_type + "::"@ + id
}

impl LogTarget {
    /// These are the parties of `request`. Of its properties and its context
    /// nothing is recorded.
    pub open spec fn names(self, request: RequestModel) -> bool {
        &&& self.subject@ == entity_label(request.subject.entity_type, request.subject.id)
        &&& self.action@ == request.action
        &&& self.resource@ == entity_label(request.resource.entity_type, request.resource.id)
    }

    /// The parties of a request.
    pub fn new(request: &EvaluationRequest) -> (target: Self)
        ensures
            target.names(request@),
    {
        let mut subject = text::concatenate(request.subject.entity_type.as_str(), "::");
        subject.append(request.subject.id.as_str());
        let mut resource = text::concatenate(request.resource.entity_type.as_str(), "::");
        resource.append(request.resource.id.as_str());
        LogTarget { subject, action: request.action.name.clone(), resource }
    }
}

/// The request and the entities that Cedar decides on, or the error that the
/// request is answered with.
pub fn convert_request(request: &EvaluationRequest, schema: &Schema) -> (result: Result<
    (Request, Entities),
    ApiError,
>)
    ensures
        result is Ok <==> convert::refusal(request@, *schema) is None,
        result matches Err(error) ==> (error matches ApiError::Conversion(error)
            && convert::tells(error, request@, *schema)),
        result matches Ok((made, entities)) ==> {
            &&& convert::request_context(request@, *schema) matches Some(context)
            &&& cedar::question(made) == convert::request_question(request@, context)
            &&& cedar::parsed_entities(
                cedar::entities_document(convert::request_entries(request@)),
                *schema,
            ) == Some(cedar::stored(entities))
            &&& cedar::holds_entries(cedar::stored(entities), convert::request_entries(request@))
        },
        result matches Ok((made, _)) ==> {
            let asked = cedar::question(made);
            &&& asked.principal.entity_type == request.subject.entity_type@
            &&& asked.principal.id == request.subject.id@
            &&& asked.action.entity_type == "Action"@
            &&& asked.action.id == request.action.name@
            &&& asked.resource.entity_type == request.resource.entity_type@
            &&& asked.resource.id == request.resource.id@
            &&& request.context matches Some(value) ==> cedar::parsed_context(
                json::content(value),
                *schema,
                asked.action,
            ) == Some(asked.context)
            &&& request.context is None ==> asked.context == Map::<Seq<char>, Seq<char>>::empty()
        },
{
    match convert::to_cedar(request, schema) {
        Ok(made) => Ok(made),
        Err(error) => Err(ApiError::from(error)),
    }
}

/// The policies of a set that may be absent.
pub open spec fn optional_list(set: Option<&PolicySet>) -> Option<Seq<PolicyModel>> {
    match set {
        Some(set) => Some(cedar::policy_list(*set)),
        None => None,
    }
}

/// The name that the policy with the given internal id goes by; the id itself
/// where no such policy is known.
pub open spec fn policy_name(list: Option<Seq<PolicyModel>>, key: Seq<char>) -> Seq<char> {
    match list {
        Some(list) => match cedar::find_policy(list, key) {
            Some(policy) => convert::display_text(policy),
            None => cedar::displayed_key(key),
        },
        None => cedar::displayed_key(key),
    }
}

/// The names that the policies with the given internal ids go by.
pub open spec fn policy_names(list: Option<Seq<PolicyModel>>, keys: Seq<Seq<char>>) -> Seq<
    Seq<char>,
> {
    keys.map_values(|key: Seq<char>| policy_name(list, key))
}

/// The name that the policy with the given id goes by.
fn name_of(id: &PolicyId, policy_set: Option<&PolicySet>) -> (name: String)
    ensures
        name@ == policy_name(optional_list(policy_set), cedar::policy_key(*id)),
{
    if let Some(set) = policy_set {
        if let Some(policy) = cedar::policy_with_id(set, id) {
            return convert::display_id(policy);
        }
    }
    cedar::displayed_id(id)
}

/// The names that the policies with the given ids go by, in order.
pub fn resolve_reason(reason_ids: &[&PolicyId], policy_set: Option<&PolicySet>) -> (names: Vec<
    String,
>)
    ensures
        text::texts(names@) == text::ordered(
            policy_names(optional_list(policy_set), cedar::policy_keys(reason_ids@)),
        ),
        text::in_order(text::texts(names@)),
        names@.len() == reason_ids@.len(),
{
    let ghost wanted = policy_names(
        optional_list(policy_set),
        cedar::policy_keys(reason_ids@),
    );
    let mut names: Vec<String> = Vec::new();
    let mut i: usize = 0;
    while i < reason_ids.len()
        invariant
            i <= reason_ids@.len(),
            wanted == policy_names(
                optional_list(policy_set),
                cedar::policy_keys(reason_ids@),
            ),
            names@.len() == i,
            forall|k: int| 0 <= k < i ==> (#[trigger] names@[k])@ == wanted[k],
        decreases reason_ids@.len() - i,
    {
        names.push(name_of(reason_ids[i], policy_set));
        i += 1;
    }
    assert(text::texts(names@) =~= wanted);
    let sorted = text::sort(names);
    proof {
        broadcast use vstd::seq_lib::group_to_multiset_ensures;

        assert(text::texts(sorted@).to_multiset().len() == wanted.to_multiset().len());
    }
    sorted
}

/// The errors of an evaluation, as they display.
pub fn collect_policy_errors(response: &Response) -> (errors: Vec<String>)
    ensures
        text::texts(errors@) == cedar::evaluation_errors(*response),
{
    cedar::error_texts_of(response)
}

/// A time in milliseconds as records hold it; the greatest that they can hold
/// where it is greater.
pub fn latency_ms(elapsed: u128) -> (latency: u64)
    ensures
        latency == (if elapsed <= u64::MAX {
            elapsed as u64
        } else {
            u64::MAX
        }),
{
    if elapsed <= u64::MAX as u128 {
        elapsed as u64
    } else {
        u64::MAX
    }
}

/// What is recorded of an evaluation.
#[derive(Debug)]
pub struct AuditRecord {
    pub target: LogTarget,
    /// `allow` or `deny`.
    pub decision: &'static str,
    /// Whether the decision forces an external authentication.
    pub external_auth_forced: bool,
    /// The names of the determining policies, with commas between them.
    pub determining_policies: String,
    /// The name of the policy that gave the context.
    pub context_policy: String,
    pub latency_ms: u64,
}

/// An evaluation: what is answered, and what is recorded.
#[derive(Debug)]
pub struct Evaluation {
    pub response: EvaluationResponse,
    pub audit: AuditRecord,
    /// The reserved keys that annotations gave values, in vain.
    pub overridden: Vec<String>,
}

/// The names of the policies that determined a decision, in order.
pub open spec fn reason_names(list: Option<Seq<PolicyModel>>, keys: Seq<Seq<char>>) -> Seq<
    Seq<char>,
> {
    text::ordered(policy_names(list, keys))
}

/// The context that the policies that determined a decision give it.
pub open spec fn annotated_context(
    list: Option<Seq<PolicyModel>>,
    keys: Seq<Seq<char>>,
) -> Option<DecisionContextModel> {
    match list {
        Some(list) => convert::decision_context(convert::candidates(list, keys)),
        None => None,
    }
}

/// What annotations say, of the policies that determined a decision.
pub open spec fn annotated_members(
    list: Option<Seq<PolicyModel>>,
    keys: Seq<Seq<char>>,
) -> Option<Map<Seq<char>, Json>> {
    match annotated_context(list, keys) {
        Some(given) => Some(given.context),
        None => None,
    }
}

/// The context of the response to a decision that the policies with the given
/// ids determined.
pub open spec fn answered_context(
    list: Option<Seq<PolicyModel>>,
    keys: Seq<Seq<char>>,
    errors: Seq<Seq<char>>,
) -> Option<Map<Seq<char>, Json>> {
    convert::response_context(annotated_members(list, keys), reason_names(list, keys), errors)
}

impl AuditRecord {
    /// This is recorded of a decision that the policies with the given ids
    /// determined.
    pub open spec fn records(
        self,
        request: RequestModel,
        allowed: bool,
        list: Option<Seq<PolicyModel>>,
        keys: Seq<Seq<char>>,
    ) -> bool {
        &&& self.target.names(request)
        &&& self.decision@ == if allowed {
            "allow"@
        } else {
            "deny"@
        }
        &&& self.external_auth_forced == !allowed
        &&& self.determining_policies@ == text::joined(reason_names(list, keys), ","@)
        &&& self.context_policy@ == match annotated_context(list, keys) {
            Some(given) => given.policy_id,
            None => NO_CONTEXT_POLICY@,
        }
    }
}

impl Evaluation {
    /// This is the evaluation of a request that Cedar allowed or denied, as the
    /// policies with the given ids determined.
    pub open spec fn evaluates(
        self,
        request: RequestModel,
        allowed: bool,
        list: Option<Seq<PolicyModel>>,
        keys: Seq<Seq<char>>,
        errors: Seq<Seq<char>>,
    ) -> bool {
        &&& self.response.decision == allowed
        &&& json::optional_members(self.response.context) == answered_context(list, keys, errors)
        &&& self.audit.records(request, allowed, list, keys)
        &&& text::texts(self.overridden@) == convert::overridden(annotated_members(list, keys))
    }
}

/// What is answered and recorded of a decision that the policies with the given
/// ids determined.
pub fn answer(
    request: &EvaluationRequest,
    allowed: bool,
    reason_ids: &[&PolicyId],
    policy_set: Option<&PolicySet>,
    errors: &[String],
    elapsed: u128,
) -> (evaluation: Evaluation)
    ensures
        evaluation.evaluates(
            request@,
            allowed,
            optional_list(policy_set),
            cedar::policy_keys(reason_ids@),
            text::texts(errors@),
        ),
        evaluation.audit.latency_ms == (if elapsed <= u64::MAX {
            elapsed as u64
        } else {
            u64::MAX
        }),
{
    let reason = resolve_reason(reason_ids, policy_set);
    let given = match policy_set {
        Some(set) => convert::to_decision_context(set, reason_ids),
        None => None,
    };
    let (context_policy, annotation_context) = match given {
        Some(given) => (given.policy_id, Some(given.context)),
        None => (NO_CONTEXT_POLICY.to_string(), None),
    };
    let overridden = convert::overridden_keys(&annotation_context);
    let context = convert::build_response_context(annotation_context, reason.as_slice(), errors);
    let audit = AuditRecord {
        target: LogTarget::new(request),
        decision: if allowed {
            "allow"
        } else {
            "deny"
        },
        external_auth_forced: !allowed,
        determining_policies: text::join(&reason, ","),
        context_policy,
        latency_ms: latency_ms(elapsed),
    };
    Evaluation {
        response: EvaluationResponse::new(allowed).with_context(context),
        audit,
        overridden,
    }
}

/// `keys` lists the ids of the policies that determined a response.
pub open spec fn lists_determining(keys: Seq<Seq<char>>, response: Response) -> bool {
    keys.no_duplicates() && keys.to_set() == cedar::determining(response)
}

/// What is answered and recorded once the authorizer has been asked: an error
/// where it gave no response, else what the response and the policies say.
pub fn evaluate(
    request: &EvaluationRequest,
    response: Option<&Response>,
    policy_set: Option<&PolicySet>,
    elapsed: u128,
) -> (result: Result<Evaluation, ApiError>)
    ensures
        response is None <==> result is Err,
        result matches Err(error) ==> error == ApiError::Evaluation,
        (response, result) matches (Some(response), Ok(evaluation)) ==> exists|
            keys: Seq<Seq<char>>,
        | #[trigger]
            lists_determining(keys, *response) && evaluation.evaluates(
                request@,
                cedar::allows(*response),
                optional_list(policy_set),
                keys,
                cedar::evaluation_errors(*response),
            ),
        result matches Ok(evaluation) ==> evaluation.audit.latency_ms == (if elapsed <= u64::MAX {
            elapsed as u64
        } else {
            u64::MAX
        }),
{
    match response {
        Some(response) => {
            let allowed = cedar::is_allowed(response);
            let reason_ids = cedar::reason_of(response);
            let errors = collect_policy_errors(response);
            assert(lists_determining(cedar::policy_keys(reason_ids@), *response));
            Ok(
                answer(
                    request,
                    allowed,
                    reason_ids.as_slice(),
                    policy_set,
                    errors.as_slice(),
                    elapsed,
                ),
            )
        },
        None => Err(ApiError::Evaluation),
    }
}

/// Where clients that reached the decision point by `host` find it.
pub fn metadata(host: Option<&str>) -> (configuration: AuthzenConfiguration)
    ensures
        configuration.policy_decision_point@ == "http://"@ + (match host {
            Some(host) => host@,
            None => "localhost"@,
        }),
        configuration.access_evaluation_endpoint@ == configuration.policy_decision_point@
            + EVALUATION_PATH@,
{
    let base = text::concatenate(
        "http://",
        match host {
            Some(host) => host,
            None => "localhost",
        },
    );
    AuthzenConfiguration {
        access_evaluation_endpoint: text::concatenate(base.as_str(), EVALUATION_PATH),
        policy_decision_point: base,
    }
}

/// What a probe for life is answered.
pub fn healthz() -> (status: StatusCode)
    ensures
        error::status_number(status) == 200,
{
    error::status_code(200)
}

/// The number of the status that a probe for readiness is answered with.
pub open spec fn readiness_number(ready: bool) -> u16 {
    if ready {
        200
    } else {
        503
    }
}

/// What a probe for readiness is answered.
pub fn readyz(ready: bool) -> (status: StatusCode)
    ensures
        error::status_number(status) == readiness_number(ready),
{
    if ready {
        error::status_code(200)
    } else {
        error::status_code(503)
    }
}

} // verus!
