//! The messages of the AuthZEN Access Evaluation API.

use vstd::prelude::*;

use crate::json::{self, Json};

verus! {

/// A request to decide whether the subject may perform the action on the
/// resource.
#[derive(Clone, Debug)]
pub struct EvaluationRequest {
    pub subject: Subject,
    pub action: Action,
    pub resource: Resource,
    /// The environment of the request.
    pub context: Option<serde_json::Value>,
}

/// Who asks.
#[derive(Clone, Debug)]
pub struct Subject {
    pub entity_type: String,
    pub id: String,
    pub properties: Option<serde_json::Map<String, serde_json::Value>>,
}

/// What the subject asks for.
#[derive(Clone, Debug)]
pub struct Resource {
    pub entity_type: String,
    pub id: String,
    pub properties: Option<serde_json::Map<String, serde_json::Value>>,
}

/// What the subject means to do.
#[derive(Clone, Debug)]
pub struct Action {
    pub name: String,
    pub properties: Option<serde_json::Map<String, serde_json::Value>>,
}

/// The decision on an [`EvaluationRequest`].
#[derive(Clone, Debug)]
pub struct EvaluationResponse {
    pub decision: bool,
    pub context: Option<serde_json::Map<String, serde_json::Value>>,
}

/// Where a client finds the decision point and its endpoint.
#[derive(Clone, Debug)]
pub struct AuthzenConfiguration {
    pub policy_decision_point: String,
    pub access_evaluation_endpoint: String,
}

/// What a refused request is answered.
#[derive(Clone, Debug)]
pub struct ErrorBody {
    pub error: String,
    pub message: String,
}

/// What a subject or a resource holds.
pub struct PartyModel {
    pub entity_type: Seq<char>,
    pub id: Seq<char>,
    pub properties: Option<Map<Seq<char>, Json>>,
}

/// What an [`EvaluationRequest`] holds.
pub struct RequestModel {
    pub subject: PartyModel,
    pub action: Seq<char>,
    /// No decision reads these.
    pub action_properties: Option<Map<Seq<char>, Json>>,
    pub resource: PartyModel,
    pub context: Option<Json>,
}

impl View for Subject {
    type V = PartyModel;

    open spec fn view(&self) -> PartyModel {
        PartyModel {
            entity_type: self.entity_type@,
            id: self.id@,
            properties: json::optional_members(self.properties),
        }
    }
}

impl View for Resource {
    type V = PartyModel;

    open spec fn view(&self) -> PartyModel {
        PartyModel {
            entity_type: self.entity_type@,
            id: self.id@,
            properties: json::optional_members(self.properties),
        }
    }
}

impl View for EvaluationRequest {
    type V = RequestModel;

    open spec fn view(&self) -> RequestModel {
        RequestModel {
            subject: self.subject@,
            action: self.action.name@,
            action_properties: json::optional_members(self.action.properties),
            resource: self.resource@,
            context: match self.context {
                Some(value) => Some(json::content(value)),
                None => None,
            },
        }
    }
}

impl EvaluationResponse {
    /// A bare decision.
    pub fn new(decision: bool) -> (response: Self)
        ensures
            response.decision == decision,
            response.context is None,
    {
        EvaluationResponse { decision, context: None }
    }

    /// The same decision with another context.
    pub fn with_context(
        self,
        context: Option<serde_json::Map<String, serde_json::Value>>,
    ) -> (response: Self)
        ensures
            response.decision == self.decision,
            response.context == context,
    {
        EvaluationResponse { decision: self.decision, context }
    }
}

impl ErrorBody {
    /// An answer with an error code and a message for people.
    pub fn new(error: &str, message: String) -> (body: Self)
        ensures
            body.error@ == error@,
            body.message@ == message@,
    {
        ErrorBody { error: error.to_string(), message }
    }
}

} // verus!
