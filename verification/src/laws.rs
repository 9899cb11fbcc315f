//! What holds of the library as a whole.

use cedar_policy::{ParseErrors, PolicySet, Response, Schema};
use vstd::prelude::*;

use crate::authzen::RequestModel;
use crate::cedar::{self, Attributes, EntityRef, PolicyModel};
use crate::config::{self, SocketAddress};
use crate::convert::{self, ConversionError, Refusal};
use crate::error::ApiError;
use crate::handlers::{self, Evaluation, LogTarget};
use crate::json::{self, Json};
use crate::policy::{self, PolicyError, ReloadStep};
use crate::text;

verus! {

/// Two lists with the same texts, each as often, name the same policies as often.
proof fn names_of_permutation(
    list: Option<Seq<PolicyModel>>,
    a: Seq<Seq<char>>,
    b: Seq<Seq<char>>,
)
    requires
        a.to_multiset() == b.to_multiset(),
    ensures
        handlers::policy_names(list, a).to_multiset() == handlers::policy_names(
            list,
            b,
        ).to_multiset(),
    decreases a.len(),
{
    broadcast use vstd::seq_lib::group_to_multiset_ensures;

    broadcast use vstd::multiset::group_multiset_axioms;

    vstd::seq_lib::to_multiset_len(a);
    vstd::seq_lib::to_multiset_len(b);
    if a.len() == 0 {
        assert(handlers::policy_names(list, a) =~= handlers::policy_names(list, b));
    } else {
        let key = a.last();
        assert(a.drop_last() =~= a.remove(a.len() - 1));
        assert(a.to_multiset().count(key) > 0);
        assert(b.contains(key));
        let at = choose|at: int| 0 <= at < b.len() && b[at] == key;
        let (a_rest, b_rest) = (a.drop_last(), b.remove(at));
        names_of_permutation(list, a_rest, b_rest);
        let (a_names, b_names) = (
            handlers::policy_names(list, a),
            handlers::policy_names(list, b),
        );
        assert(handlers::policy_names(list, a_rest) =~= a_names.remove(a.len() - 1));
        assert(handlers::policy_names(list, b_rest) =~= b_names.remove(at));
        let name = handlers::policy_name(list, key);
        vstd::seq_lib::to_multiset_remove(a_names, a.len() - 1);
        vstd::seq_lib::to_multiset_remove(b_names, at);
        vstd::seq_lib::to_multiset_contains(a_names, name);
        vstd::seq_lib::to_multiset_contains(b_names, name);
        assert(a_names[a.len() - 1] == name);
        assert(b_names[at] == name);
        assert(a_names.to_multiset() =~= a_names.to_multiset().remove(name).insert(name));
        assert(b_names.to_multiset() =~= b_names.to_multiset().remove(name).insert(name));
    }
}

/// Lists without duplicates that hold the same texts hold each as often.
proof fn same_texts_once(a: Seq<Seq<char>>, b: Seq<Seq<char>>)
    requires
        a.no_duplicates(),
        b.no_duplicates(),
        a.to_set() == b.to_set(),
    ensures
        a.to_multiset() == b.to_multiset(),
{
    broadcast use vstd::seq_lib::group_to_multiset_ensures;

    a.lemma_multiset_has_no_duplicates();
    b.lemma_multiset_has_no_duplicates();
    assert forall|x: Seq<char>| a.to_multiset().count(x) == b.to_multiset().count(x) by {
        assert(a.contains(x) <==> a.to_set().contains(x));
        assert(b.contains(x) <==> b.to_set().contains(x));
        assert(a.to_multiset().contains(x) <==> a.to_multiset().count(x) > 0);
        assert(b.to_multiset().contains(x) <==> b.to_multiset().count(x) > 0);
    }
    assert(a.to_multiset() =~= b.to_multiset());
}

/// The names of policies, in order, do not depend on the order of their ids.
pub proof fn names_ignore_order(
    list: Option<Seq<PolicyModel>>,
    a: Seq<Seq<char>>,
    b: Seq<Seq<char>>,
)
    requires
        a.to_multiset() == b.to_multiset(),
    ensures
        handlers::reason_names(list, a) == handlers::reason_names(list, b),
{
    names_of_permutation(list, a, b);
    text::ordered_is_in_order(handlers::policy_names(list, a));
    text::ordered_is_in_order(handlers::policy_names(list, b));
    text::ordered_lists_agree(handlers::reason_names(list, a), handlers::reason_names(list, b));
}

/// The `reason` of a response does not depend on the order in which the authorizer
/// lists the policies that determined it: one response has one `reason`.
pub proof fn reason_ignores_order(
    response: Response,
    list: Option<Seq<PolicyModel>>,
    a: Seq<Seq<char>>,
    b: Seq<Seq<char>>,
)
    requires
        handlers::lists_determining(a, response),
        handlers::lists_determining(b, response),
    ensures
        handlers::reason_names(list, a) == handlers::reason_names(list, b),
{
    same_texts_once(a, b);
    names_ignore_order(list, a, b);
}

/// The `reason` of a response names every policy that determined it, as often as
/// it is listed, in the order of the names.
pub proof fn every_determining_policy_is_named(
    list: Option<Seq<PolicyModel>>,
    keys: Seq<Seq<char>>,
)
    ensures
        text::in_order(handlers::reason_names(list, keys)),
        handlers::reason_names(list, keys).to_multiset() == handlers::policy_names(
            list,
            keys,
        ).to_multiset(),
        handlers::reason_names(list, keys).len() == keys.len(),
{
    text::ordered_is_in_order(handlers::policy_names(list, keys));
    vstd::seq_lib::to_multiset_len(handlers::policy_names(list, keys));
    vstd::seq_lib::to_multiset_len(handlers::reason_names(list, keys));
}

/// A policy is a candidate exactly where one of the ids is its own.
proof fn candidates_are_found(
    list: Seq<PolicyModel>,
    keys: Seq<Seq<char>>,
    policy: PolicyModel,
)
    ensures
        convert::candidates(list, keys).contains(policy) <==> exists|i: int|
            0 <= i < keys.len() && cedar::find_policy(list, #[trigger] keys[i]) == Some(policy),
    decreases keys.len(),
{
    let found = convert::candidates(list, keys);
    if keys.len() > 0 {
        let rest = keys.drop_last();
        let earlier = convert::candidates(list, rest);
        candidates_are_found(list, rest, policy);
        assert(forall|i: int| 0 <= i < rest.len() ==> rest[i] == #[trigger] keys[i]);
        assert(keys[keys.len() - 1] == keys.last());
        if earlier.contains(policy) {
            let at = choose|at: int| 0 <= at < earlier.len() && earlier[at] == policy;
            assert(found[at] == policy);
            let i = choose|i: int|
                0 <= i < rest.len() && cedar::find_policy(list, #[trigger] rest[i]) == Some(policy);
            assert(keys[i] == rest[i]);
        }
        if cedar::find_policy(list, keys.last()) == Some(policy) {
            assert(found[found.len() - 1] == policy);
        }
        if found.contains(policy) && !earlier.contains(policy) {
            let at = choose|at: int| 0 <= at < found.len() && found[at] == policy;
            if at < earlier.len() {
                assert(earlier[at] == policy);
            }
            assert(cedar::find_policy(list, keys.last()) == Some(policy));
        }
        if exists|i: int|
            0 <= i < keys.len() && cedar::find_policy(list, #[trigger] keys[i]) == Some(policy) {
            let i = choose|i: int|
                0 <= i < keys.len() && cedar::find_policy(list, #[trigger] keys[i]) == Some(policy);
            if i < rest.len() {
                assert(rest[i] == keys[i]);
            }
        }
    }
}

/// No two of the policies have the same priority and the same name.
pub open spec fn distinct_ranks(policies: Seq<PolicyModel>) -> bool {
    forall|p: PolicyModel, q: PolicyModel| #[trigger]
        policies.contains(p) && #[trigger] policies.contains(q) && p != q ==> convert::policy_rank(p)
            != convert::policy_rank(q)
}

/// The policy that goes first is one of the list, and no other goes before it.
pub proof fn winner_goes_first(policies: Seq<PolicyModel>)
    requires
        policies.len() > 0,
    ensures
        policies.contains(convert::winner(policies)),
        forall|other: PolicyModel| #[trigger]
            policies.contains(other) ==> !convert::precedes(
                convert::policy_rank(other),
                convert::policy_rank(convert::winner(policies)),
            ),
{
    let ranks = convert::policy_ranks(policies);
    convert::some_is_first(ranks);
    let at = choose|at: int| convert::is_first(ranks, at);
    assert(policies[at] == convert::winner(policies));
    assert forall|other: PolicyModel| #[trigger] policies.contains(other) implies !convert::precedes(
        convert::policy_rank(other),
        convert::policy_rank(convert::winner(policies)),
    ) by {
        let i = choose|i: int| 0 <= i < policies.len() && policies[i] == other;
        assert(ranks[i] == convert::policy_rank(other));
        if i < at {
            convert::precedes_one_way(ranks[at], ranks[i]);
        } else if i == at && convert::precedes(ranks[i], ranks[at]) {
            convert::precedes_one_way(ranks[at], ranks[i]);
        }
    }
}

/// Where no two of the policies have the same priority and the same name, the
/// context that they give a decision does not depend on the order in which their
/// ids are listed, nor on how often each is.
pub proof fn context_ignores_order(
    list: Seq<PolicyModel>,
    a: Seq<Seq<char>>,
    b: Seq<Seq<char>>,
)
    requires
        a.to_set() == b.to_set(),
        distinct_ranks(convert::candidates(list, a)),
    ensures
        handlers::annotated_context(Some(list), a) == handlers::annotated_context(Some(list), b),
{
    let (from_a, from_b) = (convert::candidates(list, a), convert::candidates(list, b));
    assert forall|policy: PolicyModel| from_a.contains(policy) <==> from_b.contains(policy) by {
        candidates_are_found(list, a, policy);
        candidates_are_found(list, b, policy);
        if from_a.contains(policy) {
            let i = choose|i: int|
                0 <= i < a.len() && cedar::find_policy(list, #[trigger] a[i]) == Some(policy);
            assert(a.to_set().contains(a[i]));
            assert(b.contains(a[i]));
            let j = choose|j: int| 0 <= j < b.len() && b[j] == a[i];
            assert(cedar::find_policy(list, b[j]) == Some(policy));
        }
        if from_b.contains(policy) {
            let i = choose|i: int|
                0 <= i < b.len() && cedar::find_policy(list, #[trigger] b[i]) == Some(policy);
            assert(b.to_set().contains(b[i]));
            assert(a.contains(b[i]));
            let j = choose|j: int| 0 <= j < a.len() && a[j] == b[i];
            assert(cedar::find_policy(list, a[j]) == Some(policy));
        }
    }
    if from_a.len() == 0 {
        if from_b.len() > 0 {
            assert(from_b.contains(from_b[0]));
            assert(from_a.contains(from_b[0]));
        }
    } else {
        assert(from_a.contains(from_a[0]));
        assert(from_b.contains(from_a[0]));
        winner_goes_first(from_a);
        winner_goes_first(from_b);
        let (x, y) = (convert::winner(from_a), convert::winner(from_b));
        assert(from_b.contains(x) && from_a.contains(y));
        if x != y {
            convert::precedes_one_or_other(convert::policy_rank(x), convert::policy_rank(y));
        }
    }
}

/// One response and one set of policies are answered with one context, whatever
/// order the authorizer lists the determining policies in, where no two of these
/// have the same priority and the same name.
pub proof fn answer_ignores_order(
    response: Response,
    list: Seq<PolicyModel>,
    a: Seq<Seq<char>>,
    b: Seq<Seq<char>>,
    errors: Seq<Seq<char>>,
)
    requires
        handlers::lists_determining(a, response),
        handlers::lists_determining(b, response),
        distinct_ranks(convert::candidates(list, a)),
    ensures
        handlers::answered_context(Some(list), a, errors) == handlers::answered_context(
            Some(list),
            b,
            errors,
        ),
{
    reason_ignores_order(response, Some(list), a, b);
    context_ignores_order(list, a, b);
}

/// Exactly one of the determining policies supplies all that annotations put into
/// the context: one that no other goes before. What is supplied is never merged.
pub proof fn one_policy_supplies_the_context(policies: Seq<PolicyModel>)
    ensures
        convert::decision_context(policies) matches Some(given) ==> exists|policy: PolicyModel|
            #![trigger policies.contains(policy)]
            {
                &&& policies.contains(policy)
                &&& given.policy_id == convert::display_text(policy)
                &&& given.context == convert::annotation_members(policy.annotations)
                &&& forall|other: PolicyModel| #[trigger]
                    policies.contains(other) ==> !convert::precedes(
                        convert::policy_rank(other),
                        convert::policy_rank(policy),
                    )
            },
{
    if policies.len() > 0 {
        winner_goes_first(policies);
        assert(policies.contains(convert::winner(policies)));
    }
}

/// A policy without a priority never supplies the context where another
/// determining policy has one that is above the lowest.
pub proof fn unset_priority_comes_last(policies: Seq<PolicyModel>, other: PolicyModel)
    requires
        policies.contains(other),
        convert::policy_priority(other) < convert::LOWEST_PRIORITY,
    ensures
        cedar::annotation_value(
            convert::winner(policies).annotations,
            convert::PRIORITY_ANNOTATION@,
        ) is Some,
{
    winner_goes_first(policies);
    let first = convert::winner(policies);
    if cedar::annotation_value(first.annotations, convert::PRIORITY_ANNOTATION@) is None {
        assert(convert::precedes(convert::policy_rank(other), convert::policy_rank(first)));
    }
}

/// `@decision_context_<key>` of a policy is returned under `<key>`.
pub proof fn prefixed_annotation_is_returned(
    annotations: Map<Seq<char>, Seq<char>>,
    key: Seq<char>,
)
    requires
        key.len() > 0,
        annotations.dom().contains(convert::DECISION_CONTEXT_PREFIX@ + key),
    ensures
        convert::annotation_members(annotations).dom().contains(key),
        convert::annotation_members(annotations)[key] == Json::Text(
            annotations[convert::DECISION_CONTEXT_PREFIX@ + key],
        ),
{
}

/// An annotation without the prefix is never exposed: what a policy puts into the
/// context is the same with it, whatever it says, and without it.
pub proof fn other_annotations_are_not_exposed(
    annotations: Map<Seq<char>, Seq<char>>,
    name: Seq<char>,
    value: Seq<char>,
)
    requires
        !convert::DECISION_CONTEXT_PREFIX@.is_prefix_of(name),
    ensures
        convert::annotation_members(annotations.insert(name, value))
            == convert::annotation_members(annotations),
        convert::annotation_members(annotations.remove(name)) == convert::annotation_members(
            annotations,
        ),
{
    assert forall|key: Seq<char>| #[trigger] (convert::DECISION_CONTEXT_PREFIX@ + key) != name by {
        let whole = convert::DECISION_CONTEXT_PREFIX@ + key;
        assert(whole.take(convert::DECISION_CONTEXT_PREFIX@.len() as int)
            =~= convert::DECISION_CONTEXT_PREFIX@);
    }
    assert(convert::annotation_members(annotations.insert(name, value))
        =~= convert::annotation_members(annotations));
    assert(convert::annotation_members(annotations.remove(name)) =~= convert::annotation_members(
        annotations,
    ));
}

/// The lists hold the same policies, but for what their `@priority` says.
pub open spec fn agree_but_for_priority(a: Seq<PolicyModel>, b: Seq<PolicyModel>) -> bool {
    &&& a.len() == b.len()
    &&& forall|i: int|
        #![trigger a[i]]
        #![trigger b[i]]
        0 <= i < a.len() ==> a[i].key == b[i].key && a[i].annotations.remove(
            convert::PRIORITY_ANNOTATION@,
        ) == b[i].annotations.remove(convert::PRIORITY_ANNOTATION@)
}

/// A policy that is listed stands first somewhere.
proof fn listed_stands_first(list: Seq<PolicyModel>, key: Seq<char>, upto: int)
    requires
        0 <= upto < list.len(),
        list[upto].key == key,
    ensures
        exists|at: int| cedar::stands_first(list, key, at),
    decreases upto,
{
    if exists|i: int| 0 <= i < upto && (#[trigger] list[i]).key == key {
        let i = choose|i: int| 0 <= i < upto && (#[trigger] list[i]).key == key;
        listed_stands_first(list, key, i);
    } else {
        assert(cedar::stands_first(list, key, upto));
    }
}

/// `@priority` leaves the name that a policy is reported by as it is.
proof fn priority_leaves_name(a: Seq<PolicyModel>, b: Seq<PolicyModel>, key: Seq<char>)
    requires
        agree_but_for_priority(a, b),
    ensures
        handlers::policy_name(Some(a), key) == handlers::policy_name(Some(b), key),
{
    if cedar::has_policy(a, key) {
        let i = choose|i: int| 0 <= i < a.len() && (#[trigger] a[i]).key == key;
        assert(b[i].key == key);
        listed_stands_first(a, key, i);
        listed_stands_first(b, key, i);
        let x = choose|at: int| cedar::stands_first(a, key, at);
        let y = choose|at: int| cedar::stands_first(b, key, at);
        assert(a[x].key == b[x].key && a[y].key == b[y].key);
        assert(x == y);
        reveal_strlit("id");
        reveal_strlit("priority");
        assert(convert::ID_ANNOTATION@.len() != convert::PRIORITY_ANNOTATION@.len());
        let (p, q) = (a[x].annotations, b[x].annotations);
        let (rest, others) = (
            p.remove(convert::PRIORITY_ANNOTATION@),
            q.remove(convert::PRIORITY_ANNOTATION@),
        );
        assert(rest == others);
        assert(p.dom().contains(convert::ID_ANNOTATION@) == rest.dom().contains(
            convert::ID_ANNOTATION@,
        ));
        assert(q.dom().contains(convert::ID_ANNOTATION@) == others.dom().contains(
            convert::ID_ANNOTATION@,
        ));
        assert(p[convert::ID_ANNOTATION@] == rest[convert::ID_ANNOTATION@]);
        assert(q[convert::ID_ANNOTATION@] == others[convert::ID_ANNOTATION@]);
        assert(convert::display_text(a[x]) == convert::display_text(b[x]));
        assert(cedar::has_policy(b, key));
    } else if cedar::has_policy(b, key) {
        let i = choose|i: int| 0 <= i < b.len() && (#[trigger] b[i]).key == key;
        assert(a[i].key == key);
    }
}

/// `@priority` leaves the names that determining policies are reported by as they
/// are, and so the whole `reason`.
pub proof fn priority_leaves_names(
    a: Seq<PolicyModel>,
    b: Seq<PolicyModel>,
    keys: Seq<Seq<char>>,
)
    requires
        agree_but_for_priority(a, b),
    ensures
        handlers::policy_names(Some(a), keys) == handlers::policy_names(Some(b), keys),
        handlers::reason_names(Some(a), keys) == handlers::reason_names(Some(b), keys),
{
    assert forall|i: int| 0 <= i < keys.len() implies handlers::policy_names(Some(a), keys)[i]
        == handlers::policy_names(Some(b), keys)[i] by {
        priority_leaves_name(a, b, keys[i]);
    }
    assert(handlers::policy_names(Some(a), keys) =~= handlers::policy_names(Some(b), keys));
}

/// What a context holds under a key, if it is there and holds anything.
pub open spec fn held(context: Option<Map<Seq<char>, Json>>, key: Seq<char>) -> Option<Json> {
    match context {
        Some(members) => if members.dom().contains(key) {
            Some(members[key])
        } else {
            None
        },
        None => None,
    }
}

/// `@priority` never touches the decision, `reason` or `errors`: two evaluations of
/// one response, by policies that differ in their `@priority` alone, agree in these
/// and in what is recorded of the determining policies, in whatever order the
/// authorizer lists them.
pub proof fn priority_leaves_decision_and_reason(
    x: Evaluation,
    y: Evaluation,
    request: RequestModel,
    response: Response,
    a: Seq<PolicyModel>,
    b: Seq<PolicyModel>,
    x_keys: Seq<Seq<char>>,
    y_keys: Seq<Seq<char>>,
)
    requires
        agree_but_for_priority(a, b),
        handlers::lists_determining(x_keys, response),
        handlers::lists_determining(y_keys, response),
        x.evaluates(
            request,
            cedar::allows(response),
            Some(a),
            x_keys,
            cedar::evaluation_errors(response),
        ),
        y.evaluates(
            request,
            cedar::allows(response),
            Some(b),
            y_keys,
            cedar::evaluation_errors(response),
        ),
    ensures
        x.response.decision == y.response.decision,
        held(json::optional_members(x.response.context), convert::RESERVED_REASON_KEY@) == held(
            json::optional_members(y.response.context),
            convert::RESERVED_REASON_KEY@,
        ),
        held(json::optional_members(x.response.context), convert::RESERVED_ERRORS_KEY@) == held(
            json::optional_members(y.response.context),
            convert::RESERVED_ERRORS_KEY@,
        ),
        x.audit.determining_policies@ == y.audit.determining_policies@,
{
    let errors = cedar::evaluation_errors(response);
    priority_leaves_names(a, b, x_keys);
    reason_ignores_order(response, Some(b), x_keys, y_keys);
    every_determining_policy_is_named(Some(a), x_keys);
    every_determining_policy_is_named(Some(b), y_keys);
    answer_reports_reason_and_errors(Some(a), x_keys, errors);
    answer_reports_reason_and_errors(Some(b), y_keys, errors);
}

/// Neither `@id` nor `@priority` is ever exposed.
pub proof fn id_and_priority_are_not_exposed(
    annotations: Map<Seq<char>, Seq<char>>,
    id: Seq<char>,
    priority: Seq<char>,
)
    ensures
        convert::annotation_members(
            annotations.insert(convert::ID_ANNOTATION@, id).insert(
                convert::PRIORITY_ANNOTATION@,
                priority,
            ),
        ) == convert::annotation_members(annotations),
{
    reveal_strlit("id");
    reveal_strlit("priority");
    reveal_strlit("decision_context_");
    other_annotations_are_not_exposed(annotations, convert::ID_ANNOTATION@, id);
    other_annotations_are_not_exposed(
        annotations.insert(convert::ID_ANNOTATION@, id),
        convert::PRIORITY_ANNOTATION@,
        priority,
    );
}

/// The two reserved keys are different.
proof fn reserved_keys_differ()
    ensures
        convert::RESERVED_REASON_KEY@ != convert::RESERVED_ERRORS_KEY@,
{
    reveal_strlit("reason");
    reveal_strlit("errors");
    assert(convert::RESERVED_REASON_KEY@[0] != convert::RESERVED_ERRORS_KEY@[0]);
}

/// The reserved keys of a context hold what the decision point reports, and are
/// absent where it reports nothing; annotations have no say in them. `errors` is
/// there only where a policy errored.
pub proof fn reserved_keys_hold_reports(
    annotations: Map<Seq<char>, Json>,
    reason: Seq<Seq<char>>,
    errors: Seq<Seq<char>>,
)
    ensures
        ({
            let members = convert::response_members(annotations, reason, errors);
            &&& members.dom().contains(convert::RESERVED_REASON_KEY@) <==> reason.len() > 0
            &&& reason.len() > 0 ==> members[convert::RESERVED_REASON_KEY@] == json::text_array(
                reason,
            )
            &&& members.dom().contains(convert::RESERVED_ERRORS_KEY@) <==> errors.len() > 0
            &&& errors.len() > 0 ==> members[convert::RESERVED_ERRORS_KEY@] == json::text_array(
                errors,
            )
        }),
{
    reserved_keys_differ();
}

/// Under every key that is not reserved a context holds what annotations say.
pub proof fn other_keys_hold_annotations(
    annotations: Map<Seq<char>, Json>,
    reason: Seq<Seq<char>>,
    errors: Seq<Seq<char>>,
    key: Seq<char>,
)
    requires
        !convert::is_reserved_key(key),
    ensures
        ({
            let members = convert::response_members(annotations, reason, errors);
            &&& members.dom().contains(key) <==> annotations.dom().contains(key)
            &&& annotations.dom().contains(key) ==> members[key] == annotations[key]
        }),
{
}

/// A context is omitted exactly where there is nothing to report: no determining
/// policy, no error, and no annotation under a key that is not reserved.
pub proof fn context_is_omitted_when_empty(
    annotations: Option<Map<Seq<char>, Json>>,
    reason: Seq<Seq<char>>,
    errors: Seq<Seq<char>>,
)
    ensures
        convert::response_context(annotations, reason, errors) is None <==> {
            &&& reason.len() == 0
            &&& errors.len() == 0
            &&& annotations matches Some(members) ==> forall|key: Seq<char>| #[trigger]
                members.dom().contains(key) ==> convert::is_reserved_key(key)
        },
{
    let given = match annotations {
        Some(members) => members,
        None => json::no_members(),
    };
    let members = convert::response_members(given, reason, errors);
    reserved_keys_hold_reports(given, reason, errors);
    assert forall|key: Seq<char>| !convert::is_reserved_key(key) implies members.dom().contains(key)
        == given.dom().contains(key) by {
        other_keys_hold_annotations(given, reason, errors, key);
    }
    if members == json::no_members() {
        assert(!members.dom().contains(convert::RESERVED_REASON_KEY@));
        assert(!members.dom().contains(convert::RESERVED_ERRORS_KEY@));
        assert forall|key: Seq<char>| #[trigger] given.dom().contains(
            key,
        ) implies convert::is_reserved_key(key) by {
            if !convert::is_reserved_key(key) {
                assert(members.dom().contains(key));
            }
        }
    } else if reason.len() == 0 && errors.len() == 0 && (forall|key: Seq<char>| #[trigger]
        given.dom().contains(key) ==> convert::is_reserved_key(key)) {
        assert forall|key: Seq<char>| !members.dom().contains(key) by {
            if convert::is_reserved_key(key) {
                assert(key == convert::RESERVED_REASON_KEY@ || key == convert::RESERVED_ERRORS_KEY@);
            }
        }
        assert(members =~= json::no_members());
    }
}

/// The context of an answer lists every determining policy under `reason` and
/// every error under `errors`, where there are any, and has neither key where there
/// are none.
pub proof fn answer_reports_reason_and_errors(
    list: Option<Seq<PolicyModel>>,
    keys: Seq<Seq<char>>,
    errors: Seq<Seq<char>>,
)
    ensures
        keys.len() > 0 || errors.len() > 0 ==> handlers::answered_context(list, keys, errors) is Some,
        handlers::answered_context(list, keys, errors) matches Some(members) ==> {
            &&& members.dom().contains(convert::RESERVED_REASON_KEY@) <==> keys.len() > 0
            &&& keys.len() > 0 ==> members[convert::RESERVED_REASON_KEY@] == json::text_array(
                handlers::reason_names(list, keys),
            )
            &&& members.dom().contains(convert::RESERVED_ERRORS_KEY@) <==> errors.len() > 0
            &&& errors.len() > 0 ==> members[convert::RESERVED_ERRORS_KEY@] == json::text_array(
                errors,
            )
        },
{
    let annotated = handlers::annotated_members(list, keys);
    every_determining_policy_is_named(list, keys);
    context_is_omitted_when_empty(annotated, handlers::reason_names(list, keys), errors);
    reserved_keys_hold_reports(
        match annotated {
            Some(members) => members,
            None => json::no_members(),
        },
        handlers::reason_names(list, keys),
        errors,
    );
}

/// Beside the reserved keys, the context of an answer holds what the annotations
/// of one determining policy say, all of it and nothing else: of a policy that no
/// other goes before.
pub proof fn answer_quotes_one_policy(
    list: Seq<PolicyModel>,
    keys: Seq<Seq<char>>,
    errors: Seq<Seq<char>>,
    key: Seq<char>,
)
    requires
        !convert::is_reserved_key(key),
        convert::candidates(list, keys).len() > 0,
    ensures
        ({
            let policies = convert::candidates(list, keys);
            let said = convert::annotation_members(convert::winner(policies).annotations);
            let answered = handlers::answered_context(Some(list), keys, errors);
            &&& policies.contains(convert::winner(policies))
            &&& forall|other: PolicyModel| #[trigger]
                policies.contains(other) ==> !convert::precedes(
                    convert::policy_rank(other),
                    convert::policy_rank(convert::winner(policies)),
                )
            &&& said.dom().contains(key) <==> (answered matches Some(members)
                && members.dom().contains(key))
            &&& said.dom().contains(key) ==> answered->0[key] == said[key]
        }),
{
    let policies = convert::candidates(list, keys);
    let said = convert::annotation_members(convert::winner(policies).annotations);
    let reason = handlers::reason_names(Some(list), keys);
    winner_goes_first(policies);
    if said == json::no_members() {
        assert(!said.dom().contains(key));
        other_keys_hold_annotations(json::no_members(), reason, errors, key);
    } else {
        other_keys_hold_annotations(said, reason, errors, key);
        context_is_omitted_when_empty(Some(said), reason, errors);
    }
}

/// The entities of a request that was put to Cedar hold its subject, always, with
/// an attribute for each of its properties and no other. (Attributes of actions
/// are the schema's own.)
pub proof fn subject_is_always_stored(request: RequestModel, store: Map<EntityRef, Attributes>)
    requires
        cedar::holds_entries(store, convert::request_entries(request)),
    ensures
        store.dom().contains(convert::party_ref(request.subject)),
        !cedar::is_action_type(request.subject.entity_type) ==> store[convert::party_ref(
            request.subject,
        )].dom() == convert::party_properties(request.subject).dom(),
{
    assert(convert::request_entries(request)[0] == convert::party_entry(request.subject));
}

/// The entities of a request that was put to Cedar hold its resource, with an
/// attribute for each of its properties and no other, exactly where it has
/// properties; properties without members are as good as none. (A resource that is
/// also the subject is there as the subject, and actions are there as the schema's
/// own.)
pub proof fn resource_is_stored_with_properties(
    request: RequestModel,
    store: Map<EntityRef, Attributes>,
)
    requires
        cedar::holds_entries(store, convert::request_entries(request)),
        convert::party_ref(request.resource) != convert::party_ref(request.subject),
        !cedar::is_action_type(request.resource.entity_type),
    ensures
        store.dom().contains(convert::party_ref(request.resource)) <==> convert::party_properties(
            request.resource,
        ) != json::no_members(),
        store.dom().contains(convert::party_ref(request.resource)) ==> store[convert::party_ref(
            request.resource,
        )].dom() == convert::party_properties(request.resource).dom(),
{
    let entries = convert::request_entries(request);
    assert(entries[0] == convert::party_entry(request.subject));
    if convert::party_properties(request.resource) != json::no_members() {
        assert(entries[1] == convert::party_entry(request.resource));
    }
}

/// Nothing but the parties of a request, and actions, is among its entities.
pub proof fn nothing_else_is_stored(
    request: RequestModel,
    store: Map<EntityRef, Attributes>,
    entity: EntityRef,
)
    requires
        cedar::holds_entries(store, convert::request_entries(request)),
        store.dom().contains(entity),
    ensures
        cedar::is_action_type(entity.entity_type) || entity == convert::party_ref(request.subject)
            || entity == convert::party_ref(request.resource),
{
}

/// The name of an action is never the reason why a request is refused for its
/// entities: only the types of the subject and of the resource are.
pub proof fn any_action_name_is_a_reference(request: RequestModel, schema: Schema)
    requires
        cedar::is_type_name(request.subject.entity_type),
        cedar::is_type_name(request.resource.entity_type),
    ensures
        convert::refusal(request, schema) != Some(Refusal::Entity),
{
}

/// The code of a refusal.
pub open spec fn refusal_code(refusal: Refusal) -> Seq<char> {
    match refusal {
        Refusal::Entity => "invalid_entity"@,
        Refusal::Context => "invalid_context"@,
        Refusal::Request => "invalid_request"@,
        Refusal::Properties => "invalid_properties"@,
    }
}

/// A request that cannot be put to Cedar is answered with status 400 and the code
/// of what it is refused for.
pub proof fn refused_request_is_answered(
    error: ConversionError,
    request: RequestModel,
    schema: Schema,
)
    requires
        convert::tells(error, request, schema),
    ensures
        convert::refusal(request, schema) matches Some(refusal)
            && ApiError::Conversion(error).code_text() == refusal_code(refusal),
        ApiError::Conversion(error).number() == 400,
{
}

/// The client is answered with status 500 for a failure of the authorizer alone,
/// and is told nothing of it.
pub proof fn failure_hides_details(error: ApiError)
    ensures
        error.number() == 500 <==> error == ApiError::Evaluation,
        error.number() == 500 ==> error.code_text() == "evaluation_failed"@ && error.message_text()
            == "authorization failed"@,
        error.number() != 500 ==> error.number() == 400,
{
}

/// The decision that is answered is that of Cedar, whatever the annotations of the
/// policies say and whatever is reported with it; an external authentication is
/// recorded as forced exactly where the decision is negative.
pub proof fn decision_is_that_of_cedar(
    evaluation: Evaluation,
    request: RequestModel,
    allowed: bool,
    list: Option<Seq<PolicyModel>>,
    keys: Seq<Seq<char>>,
    errors: Seq<Seq<char>>,
)
    requires
        evaluation.evaluates(request, allowed, list, keys, errors),
    ensures
        evaluation.response.decision == allowed,
        evaluation.audit.external_auth_forced == !evaluation.response.decision,
        evaluation.audit.decision@ == if evaluation.response.decision {
            "allow"@
        } else {
            "deny"@
        },
{
}

/// Without the policies, the policies that determined a decision are still
/// reported, by their internal ids, and no annotations are.
pub proof fn unknown_policies_keep_their_ids(keys: Seq<Seq<char>>)
    ensures
        handlers::policy_names(None, keys) == keys.map_values(
            |key: Seq<char>| cedar::displayed_key(key),
        ),
        handlers::annotated_context(None, keys) is None,
{
    assert(handlers::policy_names(None, keys) =~= keys.map_values(
        |key: Seq<char>| cedar::displayed_key(key),
    ));
}

/// No property and nothing of the context of a request is recorded: requests that
/// differ in these alone are recorded alike.
pub proof fn records_hold_no_properties(target: LogTarget, a: RequestModel, b: RequestModel)
    requires
        convert::party_ref(a.subject) == convert::party_ref(b.subject),
        convert::party_ref(a.resource) == convert::party_ref(b.resource),
        a.action == b.action,
    ensures
        target.names(a) <==> target.names(b),
{
}

/// There is nothing to say of the priorities of a list exactly where each that is
/// there is a number.
pub proof fn faults_name_bad_priorities(list: Seq<PolicyModel>)
    ensures
        policy::priority_faults(list).len() == 0 <==> forall|i: int|
            0 <= i < list.len() ==> !policy::has_bad_priority(#[trigger] list[i]),
    decreases list.len(),
{
    if list.len() > 0 {
        let rest = list.drop_last();
        faults_name_bad_priorities(rest);
        assert(forall|i: int| 0 <= i < rest.len() ==> rest[i] == #[trigger] list[i]);
        assert(list.last() == list[list.len() - 1]);
        if forall|i: int| 0 <= i < list.len() ==> !policy::has_bad_priority(#[trigger] list[i]) {
            assert(forall|i: int|
                0 <= i < rest.len() ==> !policy::has_bad_priority(#[trigger] rest[i]));
        }
        if policy::priority_faults(list).len() == 0 {
            assert forall|i: int| 0 <= i < list.len() implies !policy::has_bad_priority(
                #[trigger] list[i],
            ) by {
                if i < rest.len() {
                    assert(!policy::has_bad_priority(rest[i]));
                }
            }
        }
    }
}

/// Policies pass only where they can be read, conform to the schema, and state a
/// number in every `@priority`; their number is reported.
pub proof fn policies_pass_when_valid(
    result: Result<usize, PolicyError>,
    path: Seq<char>,
    contents: Result<String, String>,
    schema: Schema,
)
    requires
        policy::file_result(result, path, contents, schema),
    ensures
        result is Ok <==> (contents matches Ok(source) && cedar::parsed_policies(
            source@,
        ) matches Ok(set) && cedar::strictly_valid(set, schema) && forall|i: int|
            0 <= i < cedar::policy_list(set).len() ==> !policy::has_bad_priority(
                #[trigger] cedar::policy_list(set)[i],
            )),
        result matches Ok(count) ==> (contents matches Ok(source) && cedar::parsed_policies(
            source@,
        ) matches Ok(set) && count == cedar::policy_list(set).len()),
{
    if let Ok(source) = contents {
        if let Ok(set) = cedar::parsed_policies(source@) {
            faults_name_bad_priorities(cedar::policy_list(set));
        }
    }
}

/// A policy of a set that passed has the priority that its annotation states, and
/// the lowest only where it has none or states just that.
pub proof fn served_priorities_are_stated(
    count: usize,
    path: Seq<char>,
    source: String,
    set: PolicySet,
    schema: Schema,
    at: int,
    raw: Seq<char>,
)
    requires
        policy::file_result(Ok(count), path, Ok(source), schema),
        cedar::parsed_policies(source@) == Ok::<PolicySet, ParseErrors>(set),
        0 <= at < cedar::policy_list(set).len(),
        cedar::annotation_value(
            cedar::policy_list(set)[at].annotations,
            convert::PRIORITY_ANNOTATION@,
        ) == Some(raw),
    ensures
        convert::stated_priority(raw) == Some(
            convert::policy_priority(cedar::policy_list(set)[at]),
        ),
{
    policies_pass_when_valid(Ok(count), path, Ok(source), schema);
    assert(!policy::has_bad_priority(cedar::policy_list(set)[at]));
}

/// After a change of the policies a probe for readiness is answered with success
/// exactly where the provider took them over and they are valid; a change that is
/// rejected is answered for with status 503.
pub proof fn readiness_follows_reload(
    step: ReloadStep,
    updated: bool,
    path: Seq<char>,
    contents: Result<String, String>,
    schema: Schema,
)
    requires
        policy::is_reload_step(step, path, contents, schema),
    ensures
        step is Reject ==> handlers::readiness_number(policy::is_ready_after(step, updated)) == 503,
        handlers::readiness_number(policy::is_ready_after(step, updated)) == 200 <==> {
            &&& updated
            &&& contents matches Ok(source)
            &&& cedar::parsed_policies(source@) matches Ok(set)
            &&& cedar::strictly_valid(set, schema)
            &&& forall|i: int|
                0 <= i < cedar::policy_list(set).len() ==> !policy::has_bad_priority(
                    #[trigger] cedar::policy_list(set)[i],
                )
        },
{
    match step {
        ReloadStep::Update(count) => {
            policies_pass_when_valid(Ok(count), path, contents, schema);
        },
        ReloadStep::Reject(error) => {
            policies_pass_when_valid(Err(error), path, contents, schema);
        },
    }
}

/// The decision point is always looked for at an address of one machine, with the
/// port that it listens on where there is one.
pub proof fn health_target_is_one_machine(target: SocketAddress, address: Option<SocketAddress>)
    requires
        config::resolves_to(target, address),
    ensures
        !target.ip.unspecified(),
        address matches Some(address) ==> target.port == address.port,
{
    if target.ip.loopback() {
        if let config::IpAddress::V4 { octets } = target.ip {
            assert(octets@[0] == 127);
        }
    }
}

} // verus!
