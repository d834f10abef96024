//! Compaction: old tool results that can be fetched again are replaced by a
//! short note saying so.

use crate::agent::event::ContentItem;
use crate::agent::llm_request::LlmRequest;
use crate::json::{json_string_member, string_member};
use crate::text::str_equal;
use vstd::prelude::*;
use vstd::string::*;

verus! {

/// Replaces the content of old `read_file` and `web_search` results.
pub struct Compaction {
    /// How many of the last content items are left untouched.
    pub keep_recent: usize,
}

/// The (id, arguments) of the tool calls among the first `i` items, in order.
pub open spec fn calls_before(contents: Seq<ContentItem>, i: int) -> Seq<(Seq<char>, Seq<char>)>
    decreases i,
{
    if i <= 0 {
        Seq::empty()
    } else {
        let earlier = calls_before(contents, i - 1);
        match contents[i - 1] {
            ContentItem::ToolCall(c) => earlier.push((c.tool_call_id@, c.arguments@)),
            _ => earlier,
        }
    }
}

/// The value recorded last for `id` in `entries`.
pub open spec fn last_lookup(entries: Seq<(Seq<char>, Seq<char>)>, id: Seq<char>) -> Option<
    Seq<char>,
>
    decreases entries.len(),
{
    if entries.len() == 0 {
        None
    } else if entries.last().0 == id {
        Some(entries.last().1)
    } else {
        last_lookup(entries.drop_last(), id)
    }
}

/// The string argument `key` of a call, or `unknown`.
pub open spec fn argument_or_unknown(args: Option<Seq<char>>, key: Seq<char>) -> Seq<char> {
    match args {
        Some(a) => match json_string_member(a, key) {
            Some(v) => v,
            None => "unknown"@,
        },
        None => "unknown"@,
    }
}

/// The note that replaces a result of tool `name`, or `None` when results of
/// that tool are kept.
pub open spec fn compaction_note(name: Seq<char>, args: Option<Seq<char>>) -> Option<Seq<char>> {
    if name == "read_file"@ {
        Some(
            "File '"@ + argument_or_unknown(args, "file_path"@)
                + "' was already read. Call read_file again if you need it."@,
        )
    } else if name == "web_search"@ {
        Some(
            "Search results for '"@ + argument_or_unknown(args, "query"@)
                + "' were already processed. Call web_search again if you need them."@,
        )
    } else {
        None
    }
}

/// The first position that compaction leaves untouched.
pub open spec fn protect_from(len: nat, keep_recent: nat) -> nat {
    if len >= keep_recent {
        (len - keep_recent) as nat
    } else {
        0
    }
}

/// The note that compaction writes over item `i` of `contents`, if any.
pub open spec fn note_for(contents: Seq<ContentItem>, i: int, keep_recent: nat) -> Option<Seq<char>> {
    match contents[i] {
        ContentItem::ToolResult { tool_call_id, name, .. } => {
            if i < protect_from(contents.len(), keep_recent) {
                compaction_note(name@, last_lookup(calls_before(contents, i), tool_call_id@))
            } else {
                None
            }
        },
        _ => None,
    }
}

/// `new_item` is item `i` of `contents` after compaction: the same item, or,
/// where a note applies, the same tool result with the note as its content.
pub open spec fn compacted_item(contents: Seq<ContentItem>, i: int, keep_recent: nat, new_item: ContentItem) -> bool {
    match note_for(contents, i, keep_recent) {
        Some(note) => match (contents[i], new_item) {
            (
                ContentItem::ToolResult { tool_call_id: id0, name: n0, status: s0, .. },
                ContentItem::ToolResult { tool_call_id: id1, name: n1, status: s1, content: c1 },
            ) => id1 == id0 && n1 == n0 && s1 == s0 && c1@ == note,
            _ => false,
        },
        None => new_item == contents[i],
    }
}

/// The value recorded last for `id`, searching from the end.
fn lookup_last(entries: &Vec<(String, String)>, id: &str) -> (r: Option<String>)
    ensures
        match r {
            Some(a) => last_lookup(pairs_of(entries@), id@) == Some(a@),
            None => last_lookup(pairs_of(entries@), id@) is None,
        },
{
    let mut j = entries.len();
    proof {
        assert(pairs_of(entries@).take(j as int) =~= pairs_of(entries@));
    }
    while j > 0
        invariant
            j <= entries@.len(),
            last_lookup(pairs_of(entries@), id@) == last_lookup(pairs_of(entries@).take(j as int), id@),
        decreases j,
    {
        proof {
            assert(pairs_of(entries@).take(j as int).drop_last() =~= pairs_of(entries@).take(j - 1));
        }
        if str_equal(entries[j - 1].0.as_str(), id) {
            return Some(entries[j - 1].1.clone());
        }
        j = j - 1;
    }
    None
}

/// The views of a list of string pairs.
pub open spec fn pairs_of(v: Seq<(String, String)>) -> Seq<(Seq<char>, Seq<char>)> {
    v.map_values(|p: (String, String)| (p.0@, p.1@))
}

/// The string argument `key` of a call, or `unknown`.
fn argument_or_unknown_string(args: &Option<String>, key: &str) -> (r: String)
    ensures
        r@ == argument_or_unknown(
            match args {
                Some(a) => Some(a@),
                None => None,
            },
            key@,
        ),
{
    match args {
        Some(a) => match string_member(a.as_str(), key) {
            Some(v) => v,
            None => String::from_str("unknown"),
        },
        None => String::from_str("unknown"),
    }
}

/// The note for a result of tool `name`, if results of that tool are compacted.
fn compaction_note_string(name: &str, args: &Option<String>) -> (r: Option<String>)
    ensures
        match r {
            Some(n) => compaction_note(
                name@,
                match args {
                    Some(a) => Some(a@),
                    None => None,
                },
            ) == Some(n@),
            None => compaction_note(
                name@,
                match args {
                    Some(a) => Some(a@),
                    None => None,
                },
            ) is None,
        },
{
    if str_equal(name, "read_file") {
        let mut note = String::from_str("File '");
        let path = argument_or_unknown_string(args, "file_path");
        note.append(path.as_str());
        note.append("' was already read. Call read_file again if you need it.");
        Some(note)
    } else if str_equal(name, "web_search") {
        let mut note = String::from_str("Search results for '");
        let query = argument_or_unknown_string(args, "query");
        note.append(query.as_str());
        note.append("' were already processed. Call web_search again if you need them.");
        Some(note)
    } else {
        None
    }
}

impl Compaction {
    /// Replaces, before the last `keep_recent` items, the content of every
    /// `read_file` and `web_search` result by a note naming the file or query
    /// taken from the latest earlier call with the same id.
    pub fn apply(&self, request: &mut LlmRequest)
        ensures
            final(request).instructions@ == old(request).instructions@,
            final(request).contents@.len() == old(request).contents@.len(),
            forall|i: int|
                0 <= i < old(request).contents@.len() ==> compacted_item(
                    old(request).contents@,
                    i,
                    self.keep_recent as nat,
                    #[trigger] final(request).contents@[i],
                ),
    {
        let ghost initial = request.contents@;
        let len = request.contents.len();
        let protect = if len >= self.keep_recent {
            len - self.keep_recent
        } else {
            0
        };
        let mut call_args: Vec<(String, String)> = Vec::new();
        let mut idx: usize = 0;
        while idx < len
            invariant
                len == initial.len(),
                protect == protect_from(len as nat, self.keep_recent as nat),
                idx <= len,
                request.instructions@ == old(request).instructions@,
                initial == old(request).contents@,
                request.contents@.len() == len,
                pairs_of(call_args@) == calls_before(initial, idx as int),
                forall|i: int| idx <= i < len ==> request.contents@[i] == initial[i],
                forall|i: int|
                    0 <= i < idx ==> compacted_item(
                        initial,
                        i,
                        self.keep_recent as nat,
                        #[trigger] request.contents@[i],
                    ),
            decreases len - idx,
        {
            let ghost before = call_args@;
            let mut replacement: Option<ContentItem> = None;
            match &request.contents[idx] {
                ContentItem::ToolCall(call) => {
                    call_args.push((call.tool_call_id.clone(), call.arguments.clone()));
                    proof {
                        assert(pairs_of(call_args@) =~= pairs_of(before).push(
                            (call.tool_call_id@, call.arguments@),
                        ));
                    }
                },
                ContentItem::ToolResult { tool_call_id, name, status, .. } => {
                    if idx < protect {
                        let args = lookup_last(&call_args, tool_call_id.as_str());
                        match compaction_note_string(name.as_str(), &args) {
                            Some(note) => {
                                replacement = Some(
                                    ContentItem::ToolResult {
                                        tool_call_id: tool_call_id.clone(),
                                        name: name.clone(),
                                        status: *status,
                                        content: note,
                                    },
                                );
                            },
                            None => {},
                        }
                    }
                },
                _ => {},
            }
            match replacement {
                Some(item) => {
                    request.contents.set(idx, item);
                },
                None => {},
            }
            idx = idx + 1;
        }
    }
}

/// `after` is `before` with compaction applied.
pub open spec fn is_compaction_of(before: Seq<ContentItem>, after: Seq<ContentItem>, keep_recent: nat) -> bool {
    &&& after.len() == before.len()
    &&& forall|i: int| 0 <= i < before.len() ==> compacted_item(before, i, keep_recent, #[trigger] after[i])
}

proof fn lemma_calls_preserved(before: Seq<ContentItem>, after: Seq<ContentItem>, keep_recent: nat, i: int)
    requires
        is_compaction_of(before, after, keep_recent),
        0 <= i <= before.len(),
    ensures
        calls_before(after, i) == calls_before(before, i),
    decreases i,
{
    if i > 0 {
        lemma_calls_preserved(before, after, keep_recent, i - 1);
        assert(compacted_item(before, i - 1, keep_recent, after[i - 1]));
    }
}

/// Compacting twice changes nothing more than compacting once: the second
/// pass writes the same notes over the same results.
pub proof fn law_compaction_idempotent(
    before: Seq<ContentItem>,
    once: Seq<ContentItem>,
    twice: Seq<ContentItem>,
    keep_recent: nat,
)
    requires
        is_compaction_of(before, once, keep_recent),
        is_compaction_of(once, twice, keep_recent),
    ensures
        is_compaction_of(before, twice, keep_recent),
{
    assert forall|i: int| 0 <= i < before.len() implies compacted_item(
        before,
        i,
        keep_recent,
        #[trigger] twice[i],
    ) by {
        lemma_calls_preserved(before, once, keep_recent, i);
        assert(compacted_item(before, i, keep_recent, once[i]));
        assert(compacted_item(once, i, keep_recent, twice[i]));
    }
}

/// Compaction leaves the last `keep_recent` items, every message and every
/// tool call exactly as they were; only older tool results can change.
pub proof fn law_compaction_keeps_recent_items_and_calls(
    before: Seq<ContentItem>,
    after: Seq<ContentItem>,
    keep_recent: nat,
)
    requires
        is_compaction_of(before, after, keep_recent),
    ensures
        forall|i: int|
            protect_from(before.len(), keep_recent) <= i < before.len() ==> #[trigger] after[i]
                == before[i],
        forall|i: int|
            0 <= i < before.len() && !(before[i] is ToolResult) ==> #[trigger] after[i] == before[i],
{
    assert forall|i: int|
        protect_from(before.len(), keep_recent) <= i < before.len() implies #[trigger] after[i]
            == before[i] by {
        assert(compacted_item(before, i, keep_recent, after[i]));
    }
    assert forall|i: int|
        0 <= i < before.len() && !(before[i] is ToolResult) implies #[trigger] after[i]
            == before[i] by {
        assert(compacted_item(before, i, keep_recent, after[i]));
    }
}

/// The note names what can be fetched again: for an older `read_file` result
/// the file path, and for an older `web_search` result the query, taken from
/// the arguments of the call that produced it (`unknown` when the call or the
/// argument is missing); results of other tools keep their content.
pub proof fn law_compaction_note_names_what_was_fetched(name: Seq<char>, args: Option<Seq<char>>)
    ensures
        name == "read_file"@ ==> compaction_note(name, args) == Some(
            "File '"@ + match args {
                Some(a) => match json_string_member(a, "file_path"@) {
                    Some(path) => path,
                    None => "unknown"@,
                },
                None => "unknown"@,
            } + "' was already read. Call read_file again if you need it."@,
        ),
        name == "web_search"@ ==> compaction_note(name, args) == Some(
            "Search results for '"@ + match args {
                Some(a) => match json_string_member(a, "query"@) {
                    Some(query) => query,
                    None => "unknown"@,
                },
                None => "unknown"@,
            } + "' were already processed. Call web_search again if you need them."@,
        ),
        name != "read_file"@ && name != "web_search"@ ==> compaction_note(name, args) is None,
{
    reveal_strlit("read_file");
    reveal_strlit("web_search");
    assert("read_file"@.len() != "web_search"@.len());
}

/// Only older results are rewritten, each with the note for its own tool and
/// for the arguments of the latest earlier call with its id.
pub proof fn law_compaction_rewrites_older_results_only(contents: Seq<ContentItem>, i: int, keep_recent: nat)
    requires
        0 <= i < contents.len(),
    ensures
        i >= contents.len() - keep_recent ==> note_for(contents, i, keep_recent) is None,
        !(contents[i] is ToolResult) ==> note_for(contents, i, keep_recent) is None,
        i < contents.len() - keep_recent ==> (contents[i] matches ContentItem::ToolResult {
            tool_call_id,
            name,
            ..
        } ==> note_for(contents, i, keep_recent) == compaction_note(
            name@,
            last_lookup(calls_before(contents, i), tool_call_id@),
        )),
{
}

} // verus!
