//! What a proposer agent is asked, and what is taken from its result.
use vstd::prelude::*;

use crate::json::Json;
use crate::json::JsonView;
use crate::json_text::json_read;
use crate::json_text::parse;
use crate::module::result_view;
use crate::order::opt_view;
use crate::order::views;
use crate::text::alphanumeric;
use crate::text::blank;
use crate::text::cat2;
use crate::text::cat7;
use crate::text::chars_of;
use crate::text::find;
use crate::text::find_at;
use crate::text::is_alphanumeric;
use crate::text::is_blank;
use crate::text::lemma_find_at;
use crate::text::signed;
use crate::text::signed_text;
use crate::text::decimal;
use crate::text::decimal_text;
use crate::text::text_of;
use crate::text::trim;
use crate::text::trimmed;
use vstd::utf8::encode_utf8;

verus! {

/// The first `n` characters of a text, or all of them where there are fewer.
pub open spec fn first_chars(s: Seq<char>, n: nat) -> Seq<char> {
    if s.len() <= n {
        s
    } else {
        s.take(n as int)
    }
}

/// Letters, digits, hyphens and underscores stay; everything else becomes a
/// hyphen.
pub open spec fn id_char(c: char) -> char {
    if alphanumeric(c) || c == '-' || c == '_' {
        c
    } else {
        '-'
    }
}

/// A text as part of a name: at most 48 characters, and never empty.
pub open spec fn id_part(s: Seq<char>) -> Seq<char> {
    if s.len() == 0 {
        "id"@
    } else {
        first_chars(Seq::new(s.len(), |i: int| id_char(s[i])), 48)
    }
}

fn take_chars(s: &str, n: usize) -> (r: String)
    ensures
        r@ == first_chars(s@, n as nat),
{
    let v = chars_of(s);
    if v.len() <= n {
        s.to_string()
    } else {
        let r = text_of(&v, 0, n);
        assert(r@ =~= s@.take(n as int));
        r
    }
}

/// A text as part of a name.
pub fn sanitize_id(raw: &str) -> (r: String)
    ensures
        r@ == id_part(raw@),
{
    let v = chars_of(raw);
    if v.len() == 0 {
        return "id".to_string();
    }
    let mut out = String::new();
    let mut i: usize = 0;
    assert(out@ =~= Seq::empty());
    while i < v.len()
        invariant
            i <= v@.len(),
            v@ == raw@,
            out@.len() == i,
            forall|j: int| 0 <= j < i ==> out@[j] == #[trigger] id_char(v@[j]),
        decreases v@.len() - i,
    {
        let c = v[i];
        let ghost was = out@;
        out.push(
            if is_alphanumeric(c) || c == '-' || c == '_' {
                c
            } else {
                '-'
            },
        );
        assert(out@ == was.push(id_char(v@[i as int])));
        i = i + 1;
    }
    assert(out@ =~= Seq::new(raw@.len(), |i: int| id_char(raw@[i])));
    take_chars(out.as_str(), 48)
}

/// The name of a proposer agent in full.
pub open spec fn full_agent_id(
    evo_id: Seq<char>,
    candidate_id: Seq<char>,
    attempt: int,
    retry: nat,
) -> Seq<char> {
    "evo-"@ + id_part(evo_id) + "-"@ + id_part(candidate_id) + "-a"@ + signed(attempt) + "-r"@
        + decimal(retry)
}

/// The name of a proposer agent: cut to 96 characters where it has more than 96
/// bytes.
pub open spec fn agent_id(
    evo_id: Seq<char>,
    candidate_id: Seq<char>,
    attempt: int,
    retry: nat,
) -> Seq<char> {
    let full = full_agent_id(evo_id, candidate_id, attempt, retry);
    if encode_utf8(full).len() <= 96 {
        full
    } else {
        first_chars(full, 96)
    }
}

/// The name of a proposer agent.
pub fn build_agent_id(
    evo_id: &str,
    candidate_id: &str,
    mutation_attempt: i64,
    agent_retry: u64,
) -> (r: String)
    ensures
        r@ == agent_id(evo_id@, candidate_id@, mutation_attempt as int, agent_retry as nat),
{
    let e = sanitize_id(evo_id);
    let c = sanitize_id(candidate_id);
    let a = signed_text(mutation_attempt);
    let n = decimal_text(agent_retry);
    let front = cat7("evo-", e.as_str(), "-", c.as_str(), "-a", a.as_str(), "-r");
    let full = cat2(front.as_str(), n.as_str());
    if full.as_str().as_bytes().len() <= 96 {
        full
    } else {
        take_chars(full.as_str(), 96)
    }
}

/// What a proposer agent is told to be, where the settings do not say.
pub open spec fn standard_system_prompt() -> Seq<char> {
    "You are the GEPA evolution agent operating inside TemperAgent. Return only compact JSON with keys MutatedSpecSource and MutationSummary. Do not include markdown fences. Do not ask for permissions. Do not edit files; reason over the provided spec text."@
}

/// What a proposer agent is told to be, where the settings do not say.
pub fn default_system_prompt() -> (r: String)
    ensures
        r@ == standard_system_prompt(),
{
    "You are the GEPA evolution agent operating inside TemperAgent. Return only compact JSON with keys MutatedSpecSource and MutationSummary. Do not include markdown fences. Do not ask for permissions. Do not edit files; reason over the provided spec text.".to_string()
}

/// What a proposer agent is asked to do with what it is given.
pub open spec fn task() -> Seq<char> {
    "\n\nTask:\n1) Read workflow-level triplets. Each triplet has:\n- input: goal + reasoning chain\n- output: what happened\n- feedback: specific fix suggestion\n- score: 1.0 success, 0.5 partial, 0.0 failed\n- preserve: true means this working pattern must not regress\n2) Propose the minimal IOA mutation that improves workflow completion while preserving successful patterns.\n3) Triplets with preserve=true MUST remain valid after mutation.\n4) For failed/partial workflows, apply the feedback suggestion exactly where possible.\n5) Check patterns.missing_capabilities and add missing [[action]] sections or transitions as needed.\n6) Keep schema/invariants coherent and avoid unrelated changes.\nOutput strict JSON only:\n{\"MutatedSpecSource\":\"...full spec...\",\"MutationSummary\":\"...\"}"@
}

/// What a proposer agent is asked.
pub open spec fn user_message(
    skill: Seq<char>,
    entity_type: Seq<char>,
    spec_source: Seq<char>,
    dataset: Seq<char>,
) -> Seq<char> {
    "Target skill: "@ + skill + "\nTarget entity: "@ + entity_type + "\n\nCurrent IOA spec:\n"@
        + spec_source + "\n\nReflective dataset JSON:\n"@ + (dataset + task())
}

/// What a proposer agent is asked.
pub fn build_user_message(
    skill_name: &str,
    entity_type: &str,
    spec_source: &str,
    dataset_json: &str,
) -> (r: String)
    ensures
        r@ == user_message(skill_name@, entity_type@, spec_source@, dataset_json@),
{
    let rest = cat2(
        dataset_json,
        "\n\nTask:\n1) Read workflow-level triplets. Each triplet has:\n- input: goal + reasoning chain\n- output: what happened\n- feedback: specific fix suggestion\n- score: 1.0 success, 0.5 partial, 0.0 failed\n- preserve: true means this working pattern must not regress\n2) Propose the minimal IOA mutation that improves workflow completion while preserving successful patterns.\n3) Triplets with preserve=true MUST remain valid after mutation.\n4) For failed/partial workflows, apply the feedback suggestion exactly where possible.\n5) Check patterns.missing_capabilities and add missing [[action]] sections or transitions as needed.\n6) Keep schema/invariants coherent and avoid unrelated changes.\nOutput strict JSON only:\n{\"MutatedSpecSource\":\"...full spec...\",\"MutationSummary\":\"...\"}",
    );
    let front = cat7(
        "Target skill: ",
        skill_name,
        "\nTarget entity: ",
        entity_type,
        "\n\nCurrent IOA spec:\n",
        spec_source,
        "\n\nReflective dataset JSON:\n",
    );
    cat2(front.as_str(), rest.as_str())
}

/// The value under a key, in an object or anywhere inside a value: an object's
/// own field comes first, then what is inside, in order.
pub open spec fn found_inside(v: JsonView, key: Seq<char>) -> Option<JsonView>
    decreases v, 0nat,
{
    match v {
        JsonView::Object(f) => match v.field(key) {
            Some(x) => Some(x),
            None => found_in_fields(f, key),
        },
        JsonView::List(s) => found_in_items(s, key),
        _ => None,
    }
}

/// The value under a key inside the first field that has it inside.
pub open spec fn found_in_fields(
    f: Seq<(Seq<char>, JsonView)>,
    key: Seq<char>,
) -> Option<JsonView>
    decreases f, f.len(),
{
    if f.len() == 0 {
        None
    } else {
        match found_in_fields(f.drop_last(), key) {
            Some(x) => Some(x),
            None => found_inside(f[f.len() - 1].1, key),
        }
    }
}

/// The value under a key inside the first item that has it inside.
pub open spec fn found_in_items(s: Seq<JsonView>, key: Seq<char>) -> Option<JsonView>
    decreases s, s.len(),
{
    if s.len() == 0 {
        None
    } else {
        match found_in_items(s.drop_last(), key) {
            Some(x) => Some(x),
            None => found_inside(s[s.len() - 1], key),
        }
    }
}

/// The value under a key, in an object or anywhere inside a value.
pub fn find_key_recursive(value: &Json, key: &str) -> (r: Option<Json>)
    ensures
        opt_view(r) == found_inside(value@, key@),
    decreases value,
{
    match value {
        Json::Object(f) => {
            let ghost all = value@->Object_0;
            if let Some(x) = value.get(key) {
                return Some(x.copy());
            }
            let mut i: usize = 0;
            assert(all.take(0) =~= Seq::empty());
            while i < f.len()
                invariant
                    i <= f@.len(),
                    value == Json::Object(*f),
                    all == value@->Object_0,
                    all.len() == f@.len(),
                    value@.field(key@) is None,
                    found_in_fields(all.take(i as int), key@) is None,
                decreases f@.len() - i,
            {
                proof {
                    crate::order::lemma_take_step(all, i as int);
                    assert(all.take(i + 1)[i as int] == all[i as int]);
                    assert(all[i as int].1 == f@[i as int].1@);
                    assert(decreases_to!(*value => value->Object_0));
                    assert(decreases_to!(f => f@));
                    assert(decreases_to!(f@ => f@[i as int]));
                    assert(decreases_to!(f@[i as int] => f@[i as int].1));
                }
                if let Some(x) = find_key_recursive(&f[i].1, key) {
                    proof {
                        lemma_fields_first(all, key@, i + 1);
                    }
                    return Some(x);
                }
                i = i + 1;
            }
            assert(all.take(i as int) =~= all);
            None
        },
        Json::List(s) => {
            let ghost all = value@->List_0;
            let mut i: usize = 0;
            assert(all.take(0) =~= Seq::empty());
            while i < s.len()
                invariant
                    i <= s@.len(),
                    value == Json::List(*s),
                    all == value@->List_0,
                    all.len() == s@.len(),
                    found_in_items(all.take(i as int), key@) is None,
                decreases s@.len() - i,
            {
                proof {
                    crate::order::lemma_take_step(all, i as int);
                    assert(all.take(i + 1)[i as int] == all[i as int]);
                    assert(all[i as int] == s@[i as int]@);
                    assert(decreases_to!(*value => value->List_0));
                    assert(decreases_to!(s => s@));
                    assert(decreases_to!(s@ => s@[i as int]));
                }
                if let Some(x) = find_key_recursive(&s[i], key) {
                    proof {
                        lemma_items_first(all, key@, i + 1);
                    }
                    return Some(x);
                }
                i = i + 1;
            }
            assert(all.take(i as int) =~= all);
            None
        },
        _ => None,
    }
}

proof fn lemma_fields_first(f: Seq<(Seq<char>, JsonView)>, key: Seq<char>, n: int)
    requires
        0 <= n <= f.len(),
        found_in_fields(f.take(n), key) is Some,
    ensures
        found_in_fields(f, key) == found_in_fields(f.take(n), key),
    decreases f.len() - n,
{
    if n < f.len() {
        crate::order::lemma_take_step(f, n);
        lemma_fields_first(f, key, n + 1);
    } else {
        assert(f.take(n) =~= f);
    }
}

proof fn lemma_items_first(s: Seq<JsonView>, key: Seq<char>, n: int)
    requires
        0 <= n <= s.len(),
        found_in_items(s.take(n), key) is Some,
    ensures
        found_in_items(s, key) == found_in_items(s.take(n), key),
    decreases s.len() - n,
{
    if n < s.len() {
        crate::order::lemma_take_step(s, n);
        lemma_items_first(s, key, n + 1);
    } else {
        assert(s.take(n) =~= s);
    }
}

/// What is found inside under the first of the keys that finds anything.
pub open spec fn first_found(v: JsonView, keys: Seq<Seq<char>>) -> Option<JsonView>
    decreases keys.len(),
{
    if keys.len() == 0 {
        None
    } else {
        match found_inside(v, keys[0]) {
            Some(x) => Some(x),
            None => first_found(v, keys.drop_first()),
        }
    }
}

/// What is found inside under the first of the keys that finds anything.
pub fn find_first_key(root: &Json, keys: &Vec<String>) -> (r: Option<Json>)
    ensures
        opt_view(r) == first_found(root@, views(keys@)),
{
    let ghost all = views(keys@);
    let mut i: usize = 0;
    assert(all.skip(0) =~= all);
    while i < keys.len()
        invariant
            i <= keys@.len(),
            all == views(keys@),
            first_found(root@, all) == first_found(root@, all.skip(i as int)),
        decreases keys@.len() - i,
    {
        assert(all.skip(i as int)[0] == keys@[i as int]@);
        assert(all.skip(i as int).drop_first() =~= all.skip(i + 1));
        if let Some(x) = find_key_recursive(root, keys[i].as_str()) {
            return Some(x);
        }
        i = i + 1;
    }
    None
}

/// The keys under which a result may have the new spec.
pub open spec fn spec_keys() -> Seq<Seq<char>> {
    seq![
        "MutatedSpecSource"@,
        "mutated_spec_source"@,
        "SpecSource"@,
        "spec_source"@,
        "new_spec"@,
    ]
}

/// The keys under which a result may say what is new.
pub open spec fn summary_keys() -> Seq<Seq<char>> {
    seq![
        "MutationSummary"@,
        "mutation_summary"@,
        "summary"@,
        "rationale"@,
        "change_summary"@,
    ]
}

/// The new spec in a value, and what is new in it.
pub open spec fn mutation_in(v: JsonView) -> Option<(Seq<char>, Seq<char>)> {
    match first_found(v, spec_keys()) {
        Some(JsonView::Text(source)) => Some(
            (
                source,
                match first_found(v, summary_keys()) {
                    Some(JsonView::Text(t)) => t,
                    _ => "Mutation proposed by TemperAgent"@,
                },
            ),
        ),
        _ => None,
    }
}

/// The new spec in a value, and what is new in it.
pub fn extract_from_json_value(v: &Json) -> (r: Option<(String, String)>)
    ensures
        opt_view(r) == mutation_in(v@),
{
    let mut keys: Vec<String> = Vec::new();
    keys.push("MutatedSpecSource".to_string());
    keys.push("mutated_spec_source".to_string());
    keys.push("SpecSource".to_string());
    keys.push("spec_source".to_string());
    keys.push("new_spec".to_string());
    assert(views(keys@) =~= spec_keys());
    let source = match find_first_key(v, &keys) {
        Some(Json::Text(t)) => t,
        _ => {
            return None;
        },
    };
    let mut keys: Vec<String> = Vec::new();
    keys.push("MutationSummary".to_string());
    keys.push("mutation_summary".to_string());
    keys.push("summary".to_string());
    keys.push("rationale".to_string());
    keys.push("change_summary".to_string());
    assert(views(keys@) =~= summary_keys());
    let summary = match find_first_key(v, &keys) {
        Some(Json::Text(t)) => t,
        _ => "Mutation proposed by TemperAgent".to_string(),
    };
    Some((source, summary))
}

/// The mark before and after a block of code.
pub open spec fn fence() -> Seq<char> {
    "```"@
}

/// The blocks of code in a text from a position on: what stands between the line
/// of one mark and the next mark, without white space at its ends.
pub open spec fn code_blocks(s: Seq<char>, from: int) -> Seq<Seq<char>>
    decreases s.len() - from,
{
    if from < 0 || from > s.len() {
        Seq::empty()
    } else {
        match find_at(s, fence(), from) {
            None => Seq::empty(),
            Some(i) => match find_at(s, "\n"@, i + 3) {
                None => Seq::empty(),
                Some(e) => match find_at(s, fence(), e + 1) {
                    None => Seq::empty(),
                    Some(j) => if j + 3 <= from || j + 3 > s.len() {
                        Seq::empty()
                    } else {
                        seq![trimmed(s.subrange(e + 1, j))] + code_blocks(s, j + 3)
                    },
                },
            },
        }
    }
}

/// The blocks of code in a text.
pub fn extract_markdown_code_blocks(text: &str) -> (r: Vec<String>)
    ensures
        views(r@) == code_blocks(text@, 0),
{
    proof {
        reveal_strlit("```");
        reveal_strlit("\n");
        assert("```"@.len() == 3);
        assert("\n"@.len() == 1);
    }
    let v = chars_of(text);
    let mark = chars_of("```");
    let line = chars_of("\n");
    let mut r: Vec<String> = Vec::new();
    let mut cursor: usize = 0;
    assert(views(r@) + code_blocks(v@, 0) =~= code_blocks(v@, 0));
    loop
        invariant
            cursor <= v@.len(),
            v@ == text@,
            mark@ == fence(),
            mark@.len() == 3,
            line@ == "\n"@,
            line@.len() == 1,
            views(r@) + code_blocks(v@, cursor as int) == code_blocks(v@, 0),
        ensures
            code_blocks(v@, cursor as int).len() == 0,
            views(r@) + code_blocks(v@, cursor as int) == code_blocks(v@, 0),
        decreases v@.len() - cursor,
    {
        proof {
            lemma_find_at(v@, mark@, cursor as int);
        }
        let i: usize = match find(&v, &mark, cursor) {
            Some(i) => i,
            None => {
                break;
            },
        };
        proof {
            lemma_find_at(v@, line@, i + 3);
        }
        assert(i + 3 <= v.len());
        let e: usize = match find(&v, &line, i + 3) {
            Some(e) => e,
            None => {
                break;
            },
        };
        proof {
            lemma_find_at(v@, mark@, e + 1);
        }
        assert(e + 1 <= v.len());
        let j: usize = match find(&v, &mark, e + 1) {
            Some(j) => j,
            None => {
                break;
            },
        };
        let inner = text_of(&v, e + 1, j);
        let block = trim(inner.as_str());
        let ghost was = views(r@);
        let ghost b = block@;
        r.push(block);
        proof {
            assert(views(r@) =~= was.push(b));
            assert(was + (seq![b] + code_blocks(v@, j + 3)) =~= was.push(b) + code_blocks(
                v@,
                j + 3,
            ));
        }
        cursor = j + 3;
    }
    assert(views(r@) =~= code_blocks(text@, 0));
    r
}

/// The new spec in the first of the texts that reads as a value with one.
pub open spec fn first_payload(blocks: Seq<Seq<char>>) -> Option<(Seq<char>, Seq<char>)>
    decreases blocks.len(),
{
    if blocks.len() == 0 {
        None
    } else {
        match json_read(blocks[0]) {
            Ok(v) => match mutation_in(v) {
                Some(m) => Some(m),
                None => first_payload(blocks.drop_first()),
            },
            Err(_) => first_payload(blocks.drop_first()),
        }
    }
}

/// The new spec in a result: in the result as a whole, else in the first of its
/// blocks of code that has one.
pub open spec fn payload(t: Seq<char>) -> Result<(Seq<char>, Seq<char>), Seq<char>> {
    if blank(t) {
        Err("TemperAgent completed with empty result"@)
    } else {
        match first_payload(seq![t] + code_blocks(t, 0)) {
            Some(m) => Ok(m),
            None => Err("TemperAgent result missing MutatedSpecSource JSON payload"@),
        }
    }
}

fn payload_of(text: &str) -> (r: Option<(String, String)>)
    ensures
        opt_view(r) == match json_read(text@) {
            Ok(v) => mutation_in(v),
            Err(_) => None,
        },
{
    match parse(text) {
        Ok(v) => extract_from_json_value(&v),
        Err(_) => None,
    }
}

/// The new spec in a result.
pub fn extract_mutation_payload(result_text: &str) -> (r: Result<(String, String), String>)
    ensures
        result_view(r) == payload(result_text@),
{
    if is_blank(result_text) {
        return Err("TemperAgent completed with empty result".to_string());
    }
    let ghost blocks = code_blocks(result_text@, 0);
    let ghost all = seq![result_text@] + blocks;
    assert(all[0] == result_text@);
    assert(all.drop_first() =~= blocks);
    if let Some(m) = payload_of(result_text) {
        return Ok(m);
    }
    let found = extract_markdown_code_blocks(result_text);
    let mut i: usize = 0;
    assert(blocks.skip(0) =~= blocks);
    while i < found.len()
        invariant
            i <= found@.len(),
            blocks == views(found@),
            all == seq![result_text@] + blocks,
            !blank(result_text@),
            blocks == code_blocks(result_text@, 0),
            first_payload(all) == first_payload(blocks.skip(i as int)),
        decreases found@.len() - i,
    {
        assert(blocks.skip(i as int)[0] == found@[i as int]@);
        assert(blocks.skip(i as int).drop_first() =~= blocks.skip(i + 1));
        if let Some(m) = payload_of(found[i].as_str()) {
            return Ok(m);
        }
        i = i + 1;
    }
    Err("TemperAgent result missing MutatedSpecSource JSON payload".to_string())
}

} // verus!
