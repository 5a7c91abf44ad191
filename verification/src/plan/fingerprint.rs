//! The fingerprint of a plan and its replay.
use super::encode::{
    json_fabric, json_fabric_of, json_generations, json_generations_of, json_intents,
    json_intents_of,
};
use super::order::{
    lemma_sort_permutes, lemma_sort_stable, lemma_sorted, lemma_sorted_encodings, sort_intents,
    sorted_intents,
};
use super::types::{
    NetworkPlanError, NetworkPlanIntentView, NodeNetworkPlan, NodeNetworkPlanView,
};
use crate::digest::{sha256_text, sha256_text_of};
use crate::json::{
    json_id, json_id_of, json_list, json_list_of, json_text, json_text_of, Texts,
};
use crate::render::{decimal, decimal_of, is_lower_hex};
use crate::text::same;
use vstd::prelude::*;
use vstd::utf8::encode_utf8;

verus! {

/// The parts of a plan that its fingerprint is taken of: everything but the deadline and the
/// fingerprint itself. The gateway and the fabric are there only where the plan has them.
pub open spec fn signed_parts(plan: NodeNetworkPlanView) -> Seq<Seq<char>> {
    let base = Seq::empty().push(json_id(plan.plan_id)).push(json_text(plan.node_id)).push(
        json_id(plan.operation_id),
    ).push(decimal(plan.schema_version as nat)).push(
        json_generations(plan.resource_generations),
    ).push(json_intents(sort_intents(plan.intents)));
    let with_gateway = match plan.gateway {
        Some(gateway) => base.push(gateway.encoded),
        None => base,
    };
    match plan.fabric {
        Some(fabric) => with_gateway.push(json_fabric(fabric)),
        None => with_gateway,
    }
}

/// The fingerprint of a plan.
pub open spec fn fingerprint(plan: NodeNetworkPlanView) -> Seq<char> {
    sha256_text(encode_utf8(json_list(signed_parts(plan))))
}

/// Whether a text has the form of a fingerprint: 64 lower-case hexadecimal digits.
pub open spec fn is_digest_text(s: Seq<char>) -> bool {
    &&& s.len() == 64
    &&& forall|i: int| 0 <= i < s.len() ==> is_lower_hex(#[trigger] s[i])
}

/// Recomputes the fingerprint of a plan. An executor uses this at the trust boundary, so that a
/// caller cannot mark a changed payload with an unrelated digest. Every plan has an encoding, so
/// this never fails.
pub fn canonical_plan_fingerprint(plan: &NodeNetworkPlan) -> (r: Result<String, NetworkPlanError>)
    ensures
        r matches Ok(text) && text@ == fingerprint(plan@) && is_digest_text(text@),
{
    Ok(fingerprint_of(plan))
}

/// Computes [`fingerprint`].
pub fn fingerprint_of(plan: &NodeNetworkPlan) -> (r: String)
    ensures
        r@ == fingerprint(plan@),
        is_digest_text(r@),
{
    let sorted = sorted_intents(&plan.intents);
    let base = Texts::none().push(json_id_of(plan.plan_id)).push(
        json_text_of(plan.node_id.as_str()),
    ).push(json_id_of(plan.operation_id)).push(decimal_of(plan.schema_version as u128)).push(
        json_generations_of(&plan.resource_generations),
    ).push(json_intents_of(&sorted));
    let with_gateway = match &plan.gateway {
        Some(gateway) => base.push(gateway.encoded.clone()),
        None => base,
    };
    let parts = match &plan.fabric {
        Some(fabric) => with_gateway.push(json_fabric_of(fabric)),
        None => with_gateway,
    };
    let text = json_list_of(&parts.list);
    sha256_text_of(text.as_str().as_bytes())
}

/// Whether two plans are for the same node and operation.
pub open spec fn same_identity(a: NodeNetworkPlanView, b: NodeNetworkPlanView) -> bool {
    a.plan_id == b.plan_id && a.node_id == b.node_id && a.operation_id == b.operation_id
}

/// Accepts an equivalent replay and rejects another payload under the identity of an existing
/// plan, before a provider can change anything.
pub fn validate_plan_replay(existing: &NodeNetworkPlan, candidate: &NodeNetworkPlan) -> (r: Result<
    (),
    NetworkPlanError,
>)
    ensures
        r == (if same_identity(existing@, candidate@) && (existing@.schema_version
            != candidate@.schema_version || existing@.fingerprint_sha256
            != candidate@.fingerprint_sha256) {
            Err(NetworkPlanError::ConflictingPlan)
        } else {
            Ok(())
        }),
{
    let same_plan = existing.plan_id == candidate.plan_id && same(
        existing.node_id.as_str(),
        candidate.node_id.as_str(),
    ) && existing.operation_id == candidate.operation_id;
    if same_plan && (existing.schema_version != candidate.schema_version || !same(
        existing.fingerprint_sha256.as_str(),
        candidate.fingerprint_sha256.as_str(),
    )) {
        return Err(NetworkPlanError::ConflictingPlan);
    }
    Ok(())
}

/// A retry with a new deadline keeps the fingerprint.
pub proof fn lemma_fingerprint_ignores_deadline(plan: NodeNetworkPlanView, deadline: u64)
    ensures
        fingerprint(NodeNetworkPlanView { deadline_unix_ms: deadline, ..plan }) == fingerprint(
            plan,
        ),
{
}

/// The fingerprint does not depend on whether the intents were sorted before.
pub proof fn lemma_fingerprint_of_sorted(plan: NodeNetworkPlanView)
    ensures
        fingerprint(
            NodeNetworkPlanView { intents: sort_intents(plan.intents), ..plan },
        ) == fingerprint(plan),
{
    lemma_sorted(plan.intents);
    lemma_sort_stable(sort_intents(plan.intents));
}

/// The fingerprint does not depend on the order of the intents: plans that differ in it alone have
/// the same one.
pub proof fn lemma_fingerprint_ignores_order(
    plan: NodeNetworkPlanView,
    intents: Seq<NetworkPlanIntentView>,
)
    requires
        intents.to_multiset() == plan.intents.to_multiset(),
    ensures
        fingerprint(NodeNetworkPlanView { intents, ..plan }) == fingerprint(plan),
{
    lemma_sorted(plan.intents);
    lemma_sorted(intents);
    lemma_sort_permutes(plan.intents);
    lemma_sort_permutes(intents);
    lemma_sorted_encodings(sort_intents(intents), sort_intents(plan.intents));
}

} // verus!
