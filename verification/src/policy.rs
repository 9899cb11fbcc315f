//! Schema and policies: how they are read, what they must meet to be served, and
//! what a change of them leads to.

use cedar_policy::{ParseErrors, PolicySet, Schema, SchemaError, ValidationResult};
use vstd::prelude::*;

use crate::cedar::{self, PolicyModel};
use crate::convert;
use crate::text;

verus! {

/// Why a schema or policies cannot be served.
#[derive(Debug)]
pub enum PolicyError {
    /// A file cannot be read.
    FileRead { path: String, source: String },
    /// A file holds no policies.
    PolicyParse { path: String, source: Box<ParseErrors> },
    /// A file holds no schema.
    SchemaParse { path: String, source: Box<SchemaError> },
    /// The provider of policies cannot be configured.
    ProviderConfig(String),
    /// The provider of policies cannot be made.
    Provider(String),
    /// The policies do not conform to the schema.
    Validation(String),
    /// An annotation of a policy does not hold what it must.
    Annotation(String),
}

/// `what` and the path in backquotes, then a colon and the detail.
pub open spec fn file_message(what: Seq<char>, path: Seq<char>, detail: Seq<char>) -> Seq<char> {
    what + "`"@ + path + "`: "@ + detail
}

fn file_text(what: &str, path: &str, detail: &str) -> (message: String)
    ensures
        message@ == file_message(what@, path@, detail@),
{
    let mut message = text::concatenate(what, "`");
    message.append(path);
    message.append("`: ");
    message.append(detail);
    message
}

impl PolicyError {
    /// What is said of the error.
    pub open spec fn message_text(self) -> Seq<char> {
        match self {
            PolicyError::FileRead { path, source } => file_message("read "@, path@, source@),
            PolicyError::PolicyParse { path, source } => file_message(
                "parse "@,
                path@,
                cedar::parse_message(*source),
            ),
            PolicyError::SchemaParse { path, source } => file_message(
                "parse schema "@,
                path@,
                cedar::schema_message(*source),
            ),
            PolicyError::ProviderConfig(detail) => "policy provider configuration: "@ + detail@,
            PolicyError::Provider(detail) => "policy provider: "@ + detail@,
            PolicyError::Validation(detail) => "schema validation: "@ + detail@,
            PolicyError::Annotation(detail) => "invalid annotation: "@ + detail@,
        }
    }

    /// What is said of the error.
    pub fn message(&self) -> (message: String)
        ensures
            message@ == self.message_text(),
    {
        match self {
            PolicyError::FileRead { path, source } => file_text(
                "read ",
                path.as_str(),
                source.as_str(),
            ),
            PolicyError::PolicyParse { path, source } => file_text(
                "parse ",
                path.as_str(),
                cedar::parse_errors_text(source).as_str(),
            ),
            PolicyError::SchemaParse { path, source } => file_text(
                "parse schema ",
                path.as_str(),
                cedar::schema_error_text(source).as_str(),
            ),
            PolicyError::ProviderConfig(detail) => text::concatenate(
                "policy provider configuration: ",
                detail.as_str(),
            ),
            PolicyError::Provider(detail) => text::concatenate("policy provider: ", detail.as_str()),
            PolicyError::Validation(detail) => text::concatenate(
                "schema validation: ",
                detail.as_str(),
            ),
            PolicyError::Annotation(detail) => text::concatenate(
                "invalid annotation: ",
                detail.as_str(),
            ),
        }
    }
}

/// What came of reading the file of a schema.
#[derive(Debug)]
pub enum SchemaFile {
    /// The file cannot be opened, for this reason.
    Unopened(String),
    /// The file was opened and could not be read to its end. The error is that of
    /// a schema read from it.
    Unread(SchemaError),
    /// What the file holds.
    Read(Vec<u8>),
}

/// The schema that a file holds, by what came of reading it.
pub fn load_schema(path: &str, file: SchemaFile) -> (result: Result<Schema, PolicyError>)
    ensures
        match file {
            SchemaFile::Unopened(reason) => result matches Err(
                PolicyError::FileRead { path: told, source },
            ) && told@ == path@ && source@ == reason@,
            SchemaFile::Unread(error) => result matches Err(
                PolicyError::SchemaParse { path: told, source },
            ) && told@ == path@ && *source == error,
            SchemaFile::Read(document) => match cedar::parsed_schema(document@) {
                Some(schema) => result == Ok::<Schema, PolicyError>(schema),
                None => result matches Err(PolicyError::SchemaParse { path: told, .. }) && told@
                    == path@,
            },
        },
{
    match file {
        SchemaFile::Read(document) => match cedar::schema_from_json(&document) {
            Ok(schema) => Ok(schema),
            Err(error) => Err(
                PolicyError::SchemaParse { path: path.to_string(), source: Box::new(error) },
            ),
        },
        SchemaFile::Unread(error) => Err(
            PolicyError::SchemaParse { path: path.to_string(), source: Box::new(error) },
        ),
        SchemaFile::Unopened(reason) => Err(
            PolicyError::FileRead { path: path.to_string(), source: reason },
        ),
    }
}

/// What is said of a policy with a given name whose `@priority` states none.
pub open spec fn priority_fault(name: Seq<char>, raw: Seq<char>) -> Seq<char> {
    "policy `"@ + name + "`: invalid @priority value "@ + text::quoted(raw)
}

/// The policy has an `@priority` that states none.
pub open spec fn has_bad_priority(policy: PolicyModel) -> bool {
    cedar::annotation_value(policy.annotations, convert::PRIORITY_ANNOTATION@) matches Some(raw)
        && convert::stated_priority(raw) is None
}

/// What is said of the policies of a list whose `@priority` states none, in the
/// order of the list.
pub open spec fn priority_faults(list: Seq<PolicyModel>) -> Seq<Seq<char>>
    decreases list.len(),
{
    if list.len() == 0 {
        Seq::empty()
    } else if has_bad_priority(list.last()) {
        priority_faults(list.drop_last()).push(
            priority_fault(
                convert::display_text(list.last()),
                list.last().annotations[convert::PRIORITY_ANNOTATION@],
            ),
        )
    } else {
        priority_faults(list.drop_last())
    }
}

/// What is said of a policy with the given name and `@priority`, if the latter is
/// there and states none.
pub fn check_priority(name: &str, raw: Option<&str>) -> (fault: Option<String>)
    ensures
        match (fault, raw) {
            (Some(fault), Some(raw)) => convert::stated_priority(raw@) is None && fault@
                == priority_fault(name@, raw@),
            (Some(_), None) => false,
            (None, Some(raw)) => convert::stated_priority(raw@) is Some,
            (None, None) => true,
        },
{
    match raw {
        Some(raw) => match convert::parse_priority(raw) {
            Some(_) => None,
            None => {
                let mut fault = text::concatenate("policy `", name);
                fault.append("`: invalid @priority value ");
                fault.append(text::quote(raw).as_str());
                Some(fault)
            },
        },
        None => None,
    }
}

/// Holds every `@priority` of a policy set to being a number.
pub fn validate_priorities(policy_set: &PolicySet) -> (result: Result<(), PolicyError>)
    ensures
        result is Ok <==> priority_faults(cedar::policy_list(*policy_set)).len() == 0,
        result matches Err(error) ==> (error matches PolicyError::Annotation(detail) && detail@
            == text::joined(priority_faults(cedar::policy_list(*policy_set)), "; "@)),
{
    let policies = cedar::policies_of(policy_set);
    let ghost list = cedar::policy_list(*policy_set);
    let mut faults: Vec<String> = Vec::new();
    let mut i: usize = 0;
    assert(text::texts(faults@) =~= priority_faults(list.take(0)));
    while i < policies.len()
        invariant
            i <= policies@.len(),
            cedar::policy_models(policies@) == list,
            text::texts(faults@) == priority_faults(list.take(i as int)),
        decreases policies@.len() - i,
    {
        let policy = policies[i];
        proof {
            assert(list.take(i + 1).drop_last() =~= list.take(i as int));
            assert(list[i as int] == cedar::policy_model(*policy));
            reveal_strlit("priority");
            assert(cedar::is_identifier(convert::PRIORITY_ANNOTATION@));
        }
        let name = convert::display_id(policy);
        let raw = cedar::annotation_of(policy, convert::PRIORITY_ANNOTATION);
        if let Some(fault) = check_priority(name.as_str(), raw) {
            let ghost before = text::texts(faults@);
            let ghost said = fault@;
            faults.push(fault);
            assert(text::texts(faults@) =~= before.push(said));
        }
        i += 1;
    }
    assert(list.take(list.len() as int) =~= list);
    reject_faults(&faults)
}

/// An error on the given faults of annotations, if there are any.
pub fn reject_faults(faults: &Vec<String>) -> (result: Result<(), PolicyError>)
    ensures
        result is Ok <==> text::texts(faults@).len() == 0,
        result matches Err(error) ==> (error matches PolicyError::Annotation(detail) && detail@
            == text::joined(text::texts(faults@), "; "@)),
{
    assert(text::texts(faults@).len() == faults@.len());
    if faults.len() == 0 {
        Ok(())
    } else {
        Err(PolicyError::Annotation(text::join(faults, "; ")))
    }
}

/// The error on policies in which a validation found the given errors.
pub fn schema_violation(errors: &Vec<String>) -> (error: PolicyError)
    ensures
        error matches PolicyError::Validation(detail) && detail@ == text::joined(
            text::texts(errors@),
            "; "@,
        ),
{
    PolicyError::Validation(text::join(errors, "; "))
}

/// What is said of policies in which a validation found errors.
pub open spec fn validation_detail(result: ValidationResult) -> Seq<char> {
    text::joined(cedar::validation_errors(result), "; "@)
}

/// Holds policies to the schema and to their annotations, and counts them.
pub fn validate_policies(policy_set: &PolicySet, schema: &Schema) -> (result: Result<
    usize,
    PolicyError,
>)
    ensures
        validation_result(result, *policy_set, *schema),
{
    let validation = cedar::validate_strictly(policy_set, schema);
    if !cedar::validation_passed(&validation) {
        let errors = cedar::validation_error_texts(&validation);
        assert(text::joined(text::texts(errors@), "; "@) == validation_detail(validation));
        return Err(schema_violation(&errors));
    }
    match validate_priorities(policy_set) {
        Ok(_) => {
            let policies = cedar::policies_of(policy_set);
            assert(cedar::policy_models(policies@).len() == policies@.len());
            Ok(policies.len())
        },
        Err(error) => Err(error),
    }
}

/// `result` is what holding policies to a schema and to their annotations gives:
/// their number where they conform and every `@priority` is a number, else an
/// error on the first of these two that fails.
pub open spec fn validation_result(
    result: Result<usize, PolicyError>,
    policy_set: PolicySet,
    schema: Schema,
) -> bool {
    let list = cedar::policy_list(policy_set);
    if !cedar::strictly_valid(policy_set, schema) {
        result matches Err(PolicyError::Validation(detail)) && exists|found: ValidationResult|
            cedar::validation_errors(found).len() > 0 && detail@ == #[trigger] validation_detail(
                found,
            )
    } else if priority_faults(list).len() > 0 {
        result matches Err(PolicyError::Annotation(detail)) && detail@ == text::joined(
            priority_faults(list),
            "; "@,
        )
    } else {
        result matches Ok(count) && count == list.len()
    }
}

/// `result` is what the policies of a file give: an error where the file cannot
/// be read or holds no policies, else what holding them to the schema and to their
/// annotations gives.
pub open spec fn file_result(
    result: Result<usize, PolicyError>,
    policy_path: Seq<char>,
    contents: Result<String, String>,
    schema: Schema,
) -> bool {
    match contents {
        Err(reason) => result matches Err(PolicyError::FileRead { path, source }) && path@
            == policy_path && source@ == reason@,
        Ok(source) => match cedar::parsed_policies(source@) {
            Err(errors) => result matches Err(PolicyError::PolicyParse { path, source }) && path@
                == policy_path && *source == errors,
            Ok(set) => validation_result(result, set, schema),
        },
    }
}

/// Holds the policies of a file to the schema and to their annotations, and counts
/// them. `contents` is what the file was read as, or the reason why it could not
/// be read.
pub fn validate(policy_path: &str, contents: Result<String, String>, schema: &Schema) -> (result:
    Result<usize, PolicyError>)
    ensures
        file_result(result, policy_path@, contents, *schema),
{
    match contents {
        Ok(source) => match cedar::policies_from_text(source.as_str()) {
            Ok(policy_set) => validate_policies(&policy_set, schema),
            Err(errors) => Err(
                PolicyError::PolicyParse {
                    path: policy_path.to_string(),
                    source: Box::new(errors),
                },
            ),
        },
        Err(reason) => Err(
            PolicyError::FileRead { path: policy_path.to_string(), source: reason },
        ),
    }
}

/// What a change of the policies leads to.
#[derive(Debug)]
pub enum ReloadStep {
    /// The provider is to take over so many policies.
    Update(usize),
    /// The policies served so far stay.
    Reject(PolicyError),
}

/// `step` is what a change of the policies leads to: the provider is to take them
/// over where they pass validation, and only there.
pub open spec fn is_reload_step(
    step: ReloadStep,
    policy_path: Seq<char>,
    contents: Result<String, String>,
    schema: Schema,
) -> bool {
    match step {
        ReloadStep::Update(count) => file_result(Ok(count), policy_path, contents, schema),
        ReloadStep::Reject(error) => file_result(Err(error), policy_path, contents, schema),
    }
}

/// What a change of the policies leads to. `contents` is what their file was read
/// as, or the reason why it could not be read.
pub fn reload(policy_path: &str, contents: Result<String, String>, schema: &Schema) -> (step:
    ReloadStep)
    ensures
        is_reload_step(step, policy_path@, contents, *schema),
{
    match validate(policy_path, contents, schema) {
        Ok(count) => ReloadStep::Update(count),
        Err(error) => ReloadStep::Reject(error),
    }
}

/// The decision point is ready after a change of the policies where the provider
/// was to take them over, and did.
pub open spec fn is_ready_after(step: ReloadStep, updated: bool) -> bool {
    step is Update && updated
}

/// Whether the decision point is ready after a change of the policies.
pub fn ready_after(step: &ReloadStep, updated: bool) -> (ready: bool)
    ensures
        ready == is_ready_after(*step, updated),
{
    match step {
        ReloadStep::Update(_) => updated,
        ReloadStep::Reject(_) => false,
    }
}

} // verus!
