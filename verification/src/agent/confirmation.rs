//! Tool calls that wait for a person's approval, and the answers to them.

use crate::agent::event::{ContentItem, ToolCall, ToolResultStatus};
use crate::json::{
    json_object_members, json_object_text, members_are_json, object_members, object_text, pairs_view,
};
use crate::text::{replace_all, replace_all_string, str_equal};
use vstd::prelude::*;
use vstd::string::*;

verus! {

/// A tool call held back until a person approves it.
#[derive(Debug, Clone)]
pub struct PendingToolCall {
    pub confirmation_message: String,
    pub tool_call: ToolCall,
}

/// A person's answer to one pending tool call. `modified_arguments`, when
/// present, is the compact JSON text of an object whose members replace or
/// extend the call's arguments.
#[derive(Debug, Clone)]
pub struct ToolConfirmation {
    pub tool_call_id: String,
    pub reason: Option<String>,
    pub approved: bool,
    pub modified_arguments: Option<String>,
}

impl PendingToolCall {
    /// A field-by-field copy.
    pub fn duplicate(&self) -> (r: Self)
        ensures
            r == *self,
    {
        PendingToolCall {
            confirmation_message: self.confirmation_message.clone(),
            tool_call: self.tool_call.duplicate(),
        }
    }
}

impl ToolConfirmation {
    /// A field-by-field copy.
    pub fn duplicate(&self) -> (r: Self)
        ensures
            r == *self,
    {
        ToolConfirmation {
            tool_call_id: self.tool_call_id.clone(),
            reason: match &self.reason {
                Some(s) => Some(s.clone()),
                None => None,
            },
            approved: self.approved,
            modified_arguments: match &self.modified_arguments {
                Some(s) => Some(s.clone()),
                None => None,
            },
        }
    }
}

/// An element-wise copy of a list of pending calls.
pub fn duplicate_pending(v: &Vec<PendingToolCall>) -> (r: Vec<PendingToolCall>)
    ensures
        r@ == v@,
{
    let mut out: Vec<PendingToolCall> = Vec::new();
    let mut i: usize = 0;
    while i < v.len()
        invariant
            i <= v.len(),
            out@ == v@.take(i as int),
        decreases v.len() - i,
    {
        out.push(v[i].duplicate());
        proof {
            assert(v@.take(i + 1) =~= v@.take(i as int).push(v@[i as int]));
        }
        i = i + 1;
    }
    proof {
        assert(v@.take(v.len() as int) =~= v@);
    }
    out
}

/// An element-wise copy of a list of confirmations.
pub fn duplicate_confirmations(v: &Vec<ToolConfirmation>) -> (r: Vec<ToolConfirmation>)
    ensures
        r@ == v@,
{
    let mut out: Vec<ToolConfirmation> = Vec::new();
    let mut i: usize = 0;
    while i < v.len()
        invariant
            i <= v.len(),
            out@ == v@.take(i as int),
        decreases v.len() - i,
    {
        out.push(v[i].duplicate());
        proof {
            assert(v@.take(i + 1) =~= v@.take(i as int).push(v@[i as int]));
        }
        i = i + 1;
    }
    proof {
        assert(v@.take(v.len() as int) =~= v@);
    }
    out
}

/// The confirmation that answers `id`: the last one with that id, since later
/// answers replace earlier ones.
pub open spec fn confirmation_for(confirmations: Seq<ToolConfirmation>, id: Seq<char>) -> Option<
    ToolConfirmation,
>
    decreases confirmations.len(),
{
    if confirmations.len() == 0 {
        None
    } else if confirmations.last().tool_call_id@ == id {
        Some(confirmations.last())
    } else {
        confirmation_for(confirmations.drop_last(), id)
    }
}

/// `members` with `(key, value)` written in: the value of the first member with
/// that key replaced, or the member added at the end.
pub open spec fn upsert<V>(members: Seq<(Seq<char>, V)>, kv: (Seq<char>, V)) -> Seq<(Seq<char>, V)>
    decreases members.len(),
{
    if members.len() == 0 {
        seq![kv]
    } else if members[0].0 == kv.0 {
        seq![kv] + members.drop_first()
    } else {
        seq![members[0]] + upsert(members.drop_first(), kv)
    }
}

/// `base` extended by `overrides`, in order, as `Map::extend` does.
pub open spec fn extend_members(
    base: Seq<(Seq<char>, Seq<char>)>,
    overrides: Seq<(Seq<char>, Seq<char>)>,
) -> Seq<(Seq<char>, Seq<char>)>
    decreases overrides.len(),
{
    if overrides.len() == 0 {
        base
    } else {
        upsert(extend_members(base, overrides.drop_last()), overrides.last())
    }
}

/// The members of a JSON object text, or none when it is not an object.
pub open spec fn members_or_empty(text: Seq<char>) -> Seq<(Seq<char>, Seq<char>)> {
    match json_object_members(text) {
        Some(m) => m,
        None => Seq::empty(),
    }
}

/// The argument text an approved call runs with: the call's argument object,
/// or an empty one, extended by the members of the confirmation's modified
/// arguments.
pub open spec fn approved_arguments(call: ToolCall, c: ToolConfirmation) -> Seq<char> {
    let overrides = match c.modified_arguments {
        Some(m) => members_or_empty(m@),
        None => Seq::empty(),
    };
    json_object_text(extend_members(members_or_empty(call.arguments@), overrides))
}

/// What becomes of a pending call once the confirmations are in.
#[derive(Debug)]
pub enum ConfirmationDecision {
    /// Run the tool with this argument text.
    Execute { arguments: String },
    /// Do not run it; record an error result with this content.
    Reject { content: String },
}

/// The answer to a pending call: run it when its confirmation approves it;
/// otherwise an error with the confirmation's reason, the default rejection
/// text, or, without a confirmation, the not-approved text.
pub open spec fn decision_matches(
    pending: PendingToolCall,
    confirmations: Seq<ToolConfirmation>,
    d: ConfirmationDecision,
) -> bool {
    match confirmation_for(confirmations, pending.tool_call.tool_call_id@) {
        Some(c) => if c.approved {
            d matches ConfirmationDecision::Execute { arguments } && arguments@ == approved_arguments(
                pending.tool_call,
                c,
            )
        } else {
            d matches ConfirmationDecision::Reject { content } && content@ == match c.reason {
                Some(r) => r@,
                None => "Tool execution was rejected by user."@,
            }
        },
        None => d matches ConfirmationDecision::Reject { content } && content@
            == "Tool execution was not approved."@,
    }
}

proof fn lemma_upsert_json(members: Seq<(Seq<char>, Seq<char>)>, kv: (Seq<char>, Seq<char>))
    requires
        members_are_json(members),
        members_are_json(seq![kv]),
    ensures
        members_are_json(upsert(members, kv)),
    decreases members.len(),
{
    if members.len() > 0 {
        assert(members_are_json(members.drop_first())) by {
            assert forall|i: int| 0 <= i < members.drop_first().len() implies crate::json::json_canonical(
                #[trigger] members.drop_first()[i].1,
            ) is Some by {
                assert(members.drop_first()[i] == members[i + 1]);
            }
        }
        if members[0].0 != kv.0 {
            lemma_upsert_json(members.drop_first(), kv);
            let u = seq![members[0]] + upsert(members.drop_first(), kv);
            assert forall|i: int| 0 <= i < u.len() implies crate::json::json_canonical(#[trigger] u[i].1) is Some by {
                if i > 0 {
                    assert(u[i] == upsert(members.drop_first(), kv)[i - 1]);
                }
            }
        } else {
            let u = seq![kv] + members.drop_first();
            assert forall|i: int| 0 <= i < u.len() implies crate::json::json_canonical(#[trigger] u[i].1) is Some by {
                if i > 0 {
                    assert(u[i] == members.drop_first()[i - 1]);
                }
            }
        }
    }
}

/// Writes `(key, value)` into `members`, replacing the first member with that key.
fn upsert_member(members: &mut Vec<(String, String)>, key: &String, value: &String)
    ensures
        pairs_view(final(members)@) == upsert(pairs_view(old(members)@), (key@, value@)),
{
    let ghost m0 = pairs_view(members@);
    let mut i: usize = 0;
    while i < members.len()
        invariant
            i <= members@.len(),
            pairs_view(members@) == m0,
            m0 == pairs_view(old(members)@),
            forall|j: int| 0 <= j < i ==> (#[trigger] m0[j]).0 != key@,
        decreases members.len() - i,
    {
        if str_equal(members[i].0.as_str(), key.as_str()) {
            members.set(i, (key.clone(), value.clone()));
            proof {
                assert(m0[i as int].0 == key@);
                lemma_upsert_at(m0, (key@, value@), i as int);
                assert(pairs_view(members@) =~= m0.update(i as int, (key@, value@)));
                assert(pairs_view(members@) == upsert(m0, (key@, value@)));
            }
            return;
        }
        i = i + 1;
    }
    members.push((key.clone(), value.clone()));
    proof {
        lemma_upsert_end(m0, (key@, value@));
        assert(pairs_view(members@) =~= m0.push((key@, value@)));
    }
}

pub proof fn lemma_upsert_at<V>(m: Seq<(Seq<char>, V)>, kv: (Seq<char>, V), i: int)
    requires
        0 <= i < m.len(),
        m[i].0 == kv.0,
        forall|j: int| 0 <= j < i ==> (#[trigger] m[j]).0 != kv.0,
    ensures
        upsert(m, kv) == m.update(i, kv),
    decreases i,
{
    if i == 0 {
        assert(seq![kv] + m.drop_first() =~= m.update(0, kv));
    } else {
        assert forall|j: int| 0 <= j < i - 1 implies (#[trigger] m.drop_first()[j]).0 != kv.0 by {
            assert(m.drop_first()[j] == m[j + 1]);
        }
        lemma_upsert_at(m.drop_first(), kv, i - 1);
        assert(seq![m[0]] + m.drop_first().update(i - 1, kv) =~= m.update(i, kv));
    }
}

pub proof fn lemma_upsert_end<V>(m: Seq<(Seq<char>, V)>, kv: (Seq<char>, V))
    requires
        forall|j: int| 0 <= j < m.len() ==> (#[trigger] m[j]).0 != kv.0,
    ensures
        upsert(m, kv) == m.push(kv),
    decreases m.len(),
{
    if m.len() > 0 {
        assert forall|j: int| 0 <= j < m.drop_first().len() implies (#[trigger] m.drop_first()[j]).0 != kv.0 by {
            assert(m.drop_first()[j] == m[j + 1]);
        }
        lemma_upsert_end(m.drop_first(), kv);
        assert(seq![m[0]] + m.drop_first().push(kv) =~= m.push(kv));
    } else {
        assert(seq![kv] =~= m.push(kv));
    }
}

/// The confirmation that answers `id`.
fn find_confirmation(confirmations: &Vec<ToolConfirmation>, id: &str) -> (r: Option<usize>)
    ensures
        match r {
            Some(i) => i < confirmations@.len() && confirmation_for(confirmations@, id@) == Some(
                confirmations@[i as int],
            ),
            None => confirmation_for(confirmations@, id@) is None,
        },
{
    let mut j = confirmations.len();
    proof {
        assert(confirmations@.take(j as int) =~= confirmations@);
    }
    while j > 0
        invariant
            j <= confirmations@.len(),
            confirmation_for(confirmations@, id@) == confirmation_for(confirmations@.take(j as int), id@),
        decreases j,
    {
        proof {
            assert(confirmations@.take(j as int).drop_last() =~= confirmations@.take(j - 1));
        }
        if str_equal(confirmations[j - 1].tool_call_id.as_str(), id) {
            return Some(j - 1);
        }
        j = j - 1;
    }
    None
}

/// The argument text an approved call runs with.
fn merge_arguments(call: &ToolCall, c: &ToolConfirmation) -> (r: String)
    ensures
        r@ == approved_arguments(*call, *c),
{
    let mut members: Vec<(String, String)> = match object_members(call.arguments.as_str()) {
        Some(m) => m,
        None => Vec::new(),
    };
    proof {
        assert(pairs_view(members@) == members_or_empty(call.arguments@));
        if pairs_view(members@).len() == 0 {
            assert(members_are_json(pairs_view(members@)));
        }
    }
    let overrides: Vec<(String, String)> = match &c.modified_arguments {
        Some(m) => match object_members(m.as_str()) {
            Some(o) => o,
            None => Vec::new(),
        },
        None => Vec::new(),
    };
    let ghost ov = pairs_view(overrides@);
    proof {
        assert(ov == match c.modified_arguments {
            Some(m) => members_or_empty(m@),
            None => Seq::empty(),
        });
        if ov.len() == 0 {
            assert(members_are_json(ov));
        }
    }
    let mut i: usize = 0;
    while i < overrides.len()
        invariant
            i <= overrides@.len(),
            ov == pairs_view(overrides@),
            members_are_json(ov),
            members_are_json(pairs_view(members@)),
            pairs_view(members@) == extend_members(members_or_empty(call.arguments@), ov.take(i as int)),
        decreases overrides.len() - i,
    {
        proof {
            assert(ov.take(i + 1).drop_last() =~= ov.take(i as int));
            assert(members_are_json(seq![ov[i as int]])) by {
                assert(seq![ov[i as int]][0] == ov[i as int]);
            }
            lemma_upsert_json(pairs_view(members@), ov[i as int]);
        }
        upsert_member(&mut members, &overrides[i].0, &overrides[i].1);
        i = i + 1;
    }
    proof {
        assert(ov.take(i as int) =~= ov);
    }
    object_text(&members)
}

/// Decides what to do with one pending call given the confirmations.
pub fn decide_confirmation(pending: &PendingToolCall, confirmations: &Vec<ToolConfirmation>) -> (d:
    ConfirmationDecision)
    ensures
        decision_matches(*pending, confirmations@, d),
{
    match find_confirmation(confirmations, pending.tool_call.tool_call_id.as_str()) {
        Some(i) => {
            let c = &confirmations[i];
            if c.approved {
                ConfirmationDecision::Execute { arguments: merge_arguments(&pending.tool_call, c) }
            } else {
                let content = match &c.reason {
                    Some(r) => r.clone(),
                    None => String::from_str("Tool execution was rejected by user."),
                };
                ConfirmationDecision::Reject { content }
            }
        },
        None => ConfirmationDecision::Reject {
            content: String::from_str("Tool execution was not approved."),
        },
    }
}

/// The decision for each pending call, in order.
pub fn decide_confirmations(pending: &Vec<PendingToolCall>, confirmations: &Vec<ToolConfirmation>) -> (r: Vec<
    ConfirmationDecision,
>)
    ensures
        r@.len() == pending@.len(),
        forall|i: int|
            0 <= i < pending@.len() ==> decision_matches(pending@[i], confirmations@, #[trigger] r@[i]),
{
    let mut r: Vec<ConfirmationDecision> = Vec::new();
    let mut i: usize = 0;
    while i < pending.len()
        invariant
            i <= pending@.len(),
            r@.len() == i,
            forall|j: int| 0 <= j < i ==> decision_matches(pending@[j], confirmations@, #[trigger] r@[j]),
        decreases pending.len() - i,
    {
        r.push(decide_confirmation(&pending[i], confirmations));
        i = i + 1;
    }
    r
}

/// The result that answers pending call `call` after decision `d`: the tool's
/// outcome when the call was run, the rejection text as an error otherwise.
pub open spec fn answer_of(call: PendingToolCall, d: ConfirmationDecision, ran: Option<(ToolResultStatus, String)>) -> crate::agent::event::ContentItemView {
    let (status, content) = match d {
        ConfirmationDecision::Execute { .. } => match ran {
            Some((st, c)) => (st, c@),
            None => (ToolResultStatus::Error, Seq::<char>::empty()),
        },
        ConfirmationDecision::Reject { content } => (ToolResultStatus::Error, content@),
    };
    crate::agent::event::ContentItemView::ToolResult {
        tool_call_id: call.tool_call.tool_call_id@,
        name: call.tool_call.name@,
        status,
        content,
    }
}

/// The results that answer the pending calls, in their order. `ran[i]` is the
/// outcome of running call `i`, given exactly for the calls whose decision is
/// to run them.
pub fn answer_confirmations(
    pending: &Vec<PendingToolCall>,
    decisions: Vec<ConfirmationDecision>,
    ran: Vec<Option<(ToolResultStatus, String)>>,
) -> (r: Vec<ContentItem>)
    requires
        decisions@.len() == pending@.len(),
        ran@.len() == pending@.len(),
        forall|i: int|
            0 <= i < pending@.len() ==> ((#[trigger] decisions@[i] is Execute) <==> (ran@[i] is Some)),
    ensures
        r@.len() == pending@.len(),
        forall|i: int|
            0 <= i < pending@.len() ==> (#[trigger] r@[i])@ == answer_of(pending@[i], decisions@[i], ran@[i]),
{
    let mut r: Vec<ContentItem> = Vec::new();
    let mut decisions = decisions;
    let mut ran = ran;
    let ghost d0 = decisions@;
    let ghost r0 = ran@;
    let n = pending.len();
    let mut i: usize = 0;
    while i < n
        invariant
            n == pending@.len(),
            d0.len() == n,
            r0.len() == n,
            i <= n,
            r@.len() == i,
            decisions@ == d0.skip(i as int),
            ran@ == r0.skip(i as int),
            forall|j: int| 0 <= j < n ==> ((#[trigger] d0[j] is Execute) <==> (r0[j] is Some)),
            forall|j: int| 0 <= j < i ==> (#[trigger] r@[j])@ == answer_of(pending@[j], d0[j], r0[j]),
        decreases n - i,
    {
        let d = decisions.remove(0);
        let o = ran.remove(0);
        proof {
            assert(d == d0[i as int]);
            assert(o == r0[i as int]);
            assert(decisions@ =~= d0.skip(i + 1));
            assert(ran@ =~= r0.skip(i + 1));
        }
        let (status, content) = match d {
            ConfirmationDecision::Execute { .. } => match o {
                Some((st, c)) => (st, c),
                None => (ToolResultStatus::Error, String::new()),
            },
            ConfirmationDecision::Reject { content } => (ToolResultStatus::Error, content),
        };
        r.push(pending[i].result(status, content));
        i = i + 1;
    }
    r
}

impl PendingToolCall {
    /// The result item that answers this call.
    pub fn result(&self, status: ToolResultStatus, content: String) -> (item: ContentItem)
        ensures
            item@ == (crate::agent::event::ContentItemView::ToolResult {
                tool_call_id: self.tool_call.tool_call_id@,
                name: self.tool_call.name@,
                status,
                content: content@,
            }),
    {
        ContentItem::ToolResult {
            tool_call_id: self.tool_call.tool_call_id.clone(),
            name: self.tool_call.name.clone(),
            status,
            content,
        }
    }
}

/// The question put to a person about a held-back call: the tool's template
/// with `{name}` replaced by the tool's name, then `{arguments}` by the
/// call's argument text.
pub fn confirmation_message(template: &str, name: &str, arguments: &str) -> (r: String)
    ensures
        r@ == replace_all(replace_all(template@, "{name}"@, name@), "{arguments}"@, arguments@),
{
    proof {
        reveal_strlit("{name}");
        reveal_strlit("{arguments}");
    }
    let with_name = replace_all_string(template, "{name}", name);
    replace_all_string(with_name.as_str(), "{arguments}", arguments)
}

/// The text of a tool result when the tool failed with `detail`.
pub fn tool_error_message(detail: &str) -> (r: String)
    ensures
        r@ == "Tool execution error: "@ + detail@,
{
    let mut m = String::from_str("Tool execution error: ");
    m.append(detail);
    m
}

/// The text of a tool result when no tool has the requested name.
pub fn unknown_tool_message(name: &str) -> (r: String)
    ensures
        r@ == "Tool execution error: unknown tool "@ + name@,
{
    let mut m = String::from_str("Tool execution error: unknown tool ");
    m.append(name);
    m
}

proof fn lemma_confirmation_for(confirmations: Seq<ToolConfirmation>, id: Seq<char>)
    ensures
        (forall|k: int| 0 <= k < confirmations.len() ==> (#[trigger] confirmations[k]).tool_call_id@ != id)
            ==> confirmation_for(confirmations, id) is None,
        forall|k: int|
            0 <= k < confirmations.len() && (#[trigger] confirmations[k]).tool_call_id@ == id && (forall|m: int|
                k < m < confirmations.len() ==> confirmations[m].tool_call_id@ != id) ==> confirmation_for(
                confirmations,
                id,
            ) == Some(confirmations[k]),
    decreases confirmations.len(),
{
    if confirmations.len() > 0 {
        let prev = confirmations.drop_last();
        lemma_confirmation_for(prev, id);
        assert forall|k: int| 0 <= k < prev.len() implies #[trigger] prev[k] == confirmations[k] by {}
        let n = confirmations.len() as int;
        assert forall|k: int|
            0 <= k < n && (#[trigger] confirmations[k]).tool_call_id@ == id && (forall|m: int|
                k < m < n ==> confirmations[m].tool_call_id@ != id) implies confirmation_for(
            confirmations,
            id,
        ) == Some(confirmations[k]) by {
            if k < n - 1 {
                assert(confirmations[n - 1].tool_call_id@ != id);
                assert(prev[k] == confirmations[k]);
                assert(forall|m: int| k < m < prev.len() ==> prev[m].tool_call_id@ != id) by {
                    assert forall|m: int| k < m < prev.len() implies prev[m].tool_call_id@ != id by {
                        assert(prev[m] == confirmations[m]);
                    }
                }
            }
        }
    }
}

/// A held-back call is decided by the latest confirmation for its id: run when
/// that confirmation approves it; refused with the confirmation's reason, or
/// the default rejection text, when it does not; and refused as not approved
/// when no confirmation names the call.
pub proof fn law_the_latest_confirmation_decides(
    pending: PendingToolCall,
    confirmations: Seq<ToolConfirmation>,
    d: ConfirmationDecision,
)
    requires
        decision_matches(pending, confirmations, d),
    ensures
        (forall|k: int|
            0 <= k < confirmations.len() ==> (#[trigger] confirmations[k]).tool_call_id@
                != pending.tool_call.tool_call_id@) ==> (d matches ConfirmationDecision::Reject { content }
            && content@ == "Tool execution was not approved."@),
        forall|k: int|
            0 <= k < confirmations.len() && (#[trigger] confirmations[k]).tool_call_id@
                == pending.tool_call.tool_call_id@ && (forall|m: int|
                k < m < confirmations.len() ==> confirmations[m].tool_call_id@
                    != pending.tool_call.tool_call_id@) ==> {
                &&& confirmations[k].approved ==> d is Execute
                &&& !confirmations[k].approved ==> (d matches ConfirmationDecision::Reject { content }
                    && content@ == match confirmations[k].reason {
                    Some(r) => r@,
                    None => "Tool execution was rejected by user."@,
                })
            },
{
    lemma_confirmation_for(confirmations, pending.tool_call.tool_call_id@);
}

} // verus!
