//! Requests of the OpenAI API on their way to an engine.
//!
//! An engine refuses a whole request to the Responses API where one of its tools
//! is of a type that it does not know, and a chat template refuses a system
//! message anywhere but in front. Both are put right before the request is passed
//! on.

use vstd::prelude::*;
use vstd::utf8::*;

use crate::json::Json;
use crate::json as js;
use crate::text;

verus! {

/// A request body that cannot be worked on.
pub enum BodyError {
    /// The body is not JSON.
    Parse(serde_json::Error),
    /// The body under the name of the engine's model cannot be written.
    Serialize(serde_json::Error),
    /// The body that was put right cannot be written.
    SerializeSanitized(serde_json::Error),
}

impl BodyError {
    /// What was being done when the error came up.
    pub fn context(&self) -> (r: &'static str)
        ensures
            r@ == match self {
                BodyError::Parse(_) => "parse OpenAI request body"@,
                BodyError::Serialize(_) => "re-serialize OpenAI request body"@,
                BodyError::SerializeSanitized(_) => "re-serialize sanitized request"@,
            },
    {
        match self {
            BodyError::Parse(_) => "parse OpenAI request body",
            BodyError::Serialize(_) => "re-serialize OpenAI request body",
            BodyError::SerializeSanitized(_) => "re-serialize sanitized request",
        }
    }
}

// ---------------------------------------------------------------------------
// Tools
// ---------------------------------------------------------------------------

/// A tool of the type that engines know.
pub open spec fn is_function_tool(tool: Json) -> bool {
    tool.text_at("type"@) == Some("function"@)
}

/// A request of whose tools only the functions are left, in their order.
pub open spec fn tools_filtered(req: Json) -> Json {
    match req.at("tools"@) {
        Some(Json::Array(tools)) => req.with(
            "tools"@,
            Json::Array(tools.filter(|t: Json| is_function_tool(t))),
        ),
        _ => req,
    }
}

proof fn lemma_filter_next(s: Seq<Json>, k: int, f: spec_fn(Json) -> bool)
    requires
        0 <= k < s.len(),
    ensures
        s.take(k + 1).filter(f) == if f(s[k]) {
            s.take(k).filter(f).push(s[k])
        } else {
            s.take(k).filter(f)
        },
{
    reveal(Seq::filter);
    assert(s.take(k + 1).drop_last() =~= s.take(k));
    assert(s.take(k + 1).last() == s[k]);
}

fn text_at<'a>(v: &'a serde_json::Value, key: &str) -> (r: Option<&'a str>)
    ensures
        match r {
            Some(s) => js::json(*v).text_at(key@) == Some(s@),
            None => js::json(*v).text_at(key@) is None,
        },
{
    match js::get(v, key) {
        Some(x) => x.as_str(),
        None => None,
    }
}

fn is_function(tool: &serde_json::Value) -> (r: bool)
    ensures
        r == is_function_tool(js::json(*tool)),
{
    match text_at(tool, "type") {
        Some(t) => text::same(t, "function"),
        None => false,
    }
}

fn keep_functions(tools: &mut Vec<serde_json::Value>)
    ensures
        js::json_seq(final(tools)@) == js::json_seq(old(tools)@).filter(|t: Json| is_function_tool(t)),
{
    let ghost all = js::json_seq(tools@);
    let ghost f = |t: Json| is_function_tool(t);
    let mut i: usize = 0;
    let ghost mut k: int = 0;
    proof {
        reveal(Seq::filter);
        assert(all.take(0).filter(f) =~= seq![]);
        assert(js::json_seq(tools@) =~= all.take(0).filter(f) + all.skip(0));
    }
    while i < tools.len()
        invariant
            f == (|t: Json| is_function_tool(t)),
            0 <= k <= all.len(),
            i == all.take(k).filter(f).len(),
            tools@.len() - i == all.len() - k,
            js::json_seq(tools@) == all.take(k).filter(f) + all.skip(k),
        decreases tools@.len() - i,
    {
        let ghost kept = all.take(k).filter(f);
        let ghost before = tools@;
        proof {
            assert(js::json_seq(tools@)[i as int] == all.skip(k)[0]);
            assert(js::json(tools@[i as int]) == all[k]);
            lemma_filter_next(all, k, f);
            assert(all.skip(k) =~= seq![all[k]] + all.skip(k + 1));
        }
        if is_function(&tools[i]) {
            assert(kept + all.skip(k) =~= kept.push(all[k]) + all.skip(k + 1));
            i += 1;
        } else {
            tools.remove(i);
            assert(js::json_seq(tools@) =~= js::json_seq(before).remove(i as int));
            assert((kept + all.skip(k)).remove(i as int) =~= kept + all.skip(k + 1));
        }
        proof {
            k = k + 1;
        }
    }
    proof {
        assert(k == all.len());
        assert(all.take(k) =~= all);
        assert(all.filter(f) + all.skip(k) =~= all.filter(f));
    }
}

/// Leaves only the functions among the tools of a request.
pub fn filter_non_function_tools(req: &mut serde_json::Value)
    ensures
        js::json(*final(req)) == tools_filtered(js::json(*old(req))),
{
    let ghost before = js::json(*req);
    if let Some(t) = js::get_mut(req, "tools") {
        if let Some(tools) = t.as_array_mut() {
            keep_functions(tools);
        }
    }
    proof {
        js::lemma_with_same(before, "tools"@);
    }
}

// ---------------------------------------------------------------------------
// Instructions
// ---------------------------------------------------------------------------

/// An input item whose text belongs to the instructions.
pub open spec fn is_instruction(item: Json) -> bool {
    item.text_at("role"@) == Some("developer"@) || item.text_at("role"@) == Some("system"@)
}

/// The texts of content blocks, one behind the other; a block without text adds
/// nothing.
pub open spec fn blocks_text(blocks: Seq<Json>) -> Seq<char>
    decreases blocks.len(),
{
    if blocks.len() == 0 {
        Seq::empty()
    } else {
        blocks_text(blocks.drop_last()) + match blocks.last().text_at("text"@) {
            Some(s) => s,
            None => Seq::empty(),
        }
    }
}

/// The text of an input item: its content is a string or a list of blocks.
pub open spec fn item_text(item: Json) -> Option<Seq<char>> {
    match item.at("content"@) {
        Some(Json::Str(s)) => Some(s),
        Some(Json::Array(blocks)) => Some(blocks_text(blocks)),
        _ => None,
    }
}

/// Instructions with a paragraph more; an empty one adds nothing.
pub open spec fn with_paragraph(instructions: Seq<char>, paragraph: Seq<char>) -> Seq<char> {
    if paragraph.len() == 0 {
        instructions
    } else if instructions.len() == 0 {
        paragraph
    } else {
        instructions + "\n\n"@ + paragraph
    }
}

/// Instructions with the texts of all those input items that belong to them.
pub open spec fn gathered(instructions: Seq<char>, items: Seq<Json>) -> Seq<char>
    decreases items.len(),
{
    if items.len() == 0 {
        instructions
    } else {
        let before = gathered(instructions, items.drop_last());
        let item = items.last();
        if is_instruction(item) && item_text(item) is Some {
            with_paragraph(before, item_text(item).unwrap())
        } else {
            before
        }
    }
}

/// The instructions of a request: empty where it has none.
pub open spec fn instructions_of(req: Json) -> Seq<char> {
    match req.text_at("instructions"@) {
        Some(s) => s,
        None => Seq::empty(),
    }
}

/// A request in which all that belongs to the instructions stands there and
/// nowhere else.
pub open spec fn consolidated(req: Json) -> Json {
    match req.at("input"@) {
        Some(Json::Array(items)) => {
            let all = gathered(instructions_of(req), items);
            let rest = req.with("input"@, Json::Array(items.filter(|i: Json| !is_instruction(i))));
            if all.len() > 0 {
                rest.with("instructions"@, Json::Str(all))
            } else {
                rest
            }
        },
        _ => req,
    }
}

/// The text of an input item of the Responses API.
pub fn responses_input_item_text(item: &serde_json::Value) -> (r: Option<String>)
    ensures
        match r {
            Some(s) => item_text(js::json(*item)) == Some(s@),
            None => item_text(js::json(*item)) is None,
        },
{
    match js::get(item, "content") {
        None => None,
        Some(content) => {
            if let Some(s) = content.as_str() {
                return Some(s.to_owned());
            }
            match content.as_array() {
                None => None,
                Some(blocks) => {
                    let mut out = String::new();
                    let mut i: usize = 0;
                    let ghost trees = js::json_seq(blocks@);
                    assert(trees.take(0) =~= seq![]);
                    while i < blocks.len()
                        invariant
                            trees == js::json_seq(blocks@),
                            i <= blocks@.len(),
                            out@ == blocks_text(trees.take(i as int)),
                        decreases blocks.len() - i,
                    {
                        proof {
                            assert(trees.take(i + 1).drop_last() =~= trees.take(i as int));
                            assert(trees.take(i + 1).last() == js::json(blocks@[i as int]));
                        }
                        if let Some(s) = text_at(&blocks[i], "text") {
                            out.append(s);
                        }
                        assert(out@ =~= blocks_text(trees.take(i + 1)));
                        i += 1;
                    }
                    assert(trees.take(i as int) =~= trees);
                    Some(out)
                },
            }
        },
    }
}

fn belongs_to_instructions(item: &serde_json::Value) -> (r: bool)
    ensures
        r == is_instruction(js::json(*item)),
{
    match text_at(item, "role") {
        Some(role) => text::same(role, "developer") || text::same(role, "system"),
        None => false,
    }
}

fn gather(instructions: &mut String, items: &mut Vec<serde_json::Value>)
    ensures
        final(instructions)@ == gathered(old(instructions)@, js::json_seq(old(items)@)),
        js::json_seq(final(items)@) == js::json_seq(old(items)@).filter(
            |i: Json| !is_instruction(i),
        ),
{
    let ghost all = js::json_seq(items@);
    let ghost start = instructions@;
    let ghost f = |t: Json| !is_instruction(t);
    let mut i: usize = 0;
    let ghost mut k: int = 0;
    proof {
        reveal(Seq::filter);
        assert(all.take(0).filter(f) =~= seq![]);
        assert(js::json_seq(items@) =~= all.take(0).filter(f) + all.skip(0));
    }
    while i < items.len()
        invariant
            f == (|t: Json| !is_instruction(t)),
            0 <= k <= all.len(),
            i == all.take(k).filter(f).len(),
            items@.len() - i == all.len() - k,
            js::json_seq(items@) == all.take(k).filter(f) + all.skip(k),
            instructions@ == gathered(start, all.take(k)),
        decreases items@.len() - i,
    {
        let ghost kept = all.take(k).filter(f);
        let ghost before = items@;
        proof {
            assert(js::json_seq(items@)[i as int] == all.skip(k)[0]);
            assert(js::json(items@[i as int]) == all[k]);
            lemma_filter_next(all, k, f);
            assert(all.skip(k) =~= seq![all[k]] + all.skip(k + 1));
            assert(all.take(k + 1).drop_last() =~= all.take(k));
            assert(all.take(k + 1).last() == all[k]);
        }
        if belongs_to_instructions(&items[i]) {
            if let Some(paragraph) = responses_input_item_text(&items[i]) {
                if !paragraph.as_str().is_empty() {
                    if !instructions.as_str().is_empty() {
                        instructions.append("\n\n");
                    }
                    instructions.append(paragraph.as_str());
                    assert(instructions@ =~= gathered(start, all.take(k + 1)));
                }
            }
            items.remove(i);
            assert(js::json_seq(items@) =~= js::json_seq(before).remove(i as int));
            assert((kept + all.skip(k)).remove(i as int) =~= kept + all.skip(k + 1));
        } else {
            assert(kept + all.skip(k) =~= kept.push(all[k]) + all.skip(k + 1));
            i += 1;
        }
        proof {
            k = k + 1;
        }
    }
    proof {
        assert(k == all.len());
        assert(all.take(k) =~= all);
        assert(all.filter(f) + all.skip(k) =~= all.filter(f));
    }
}

/// Moves the text of every developer and system item of a request's input into
/// its instructions.
pub fn consolidate_responses_instructions(req: &mut serde_json::Value)
    ensures
        js::json(*final(req)) == consolidated(js::json(*old(req))),
{
    let ghost before = js::json(*req);
    let mut instructions = match text_at(req, "instructions") {
        Some(s) => s.to_owned(),
        None => String::new(),
    };
    assert(instructions@ =~= instructions_of(before));
    proof {
        js::lemma_with_same(before, "input"@);
        js::lemma_with_same(before, "instructions"@);
    }
    if let Some(input) = js::get_mut(req, "input") {
        if let Some(items) = input.as_array_mut() {
            gather(&mut instructions, items);
        }
    }
    if !instructions.as_str().is_empty() {
        js::set(req, "instructions", js::string(instructions));
    }
}

/// A request to the Responses API as an engine gets it.
pub open spec fn sanitized(req: Json) -> Json {
    consolidated(tools_filtered(req))
}

/// The body of a request to the Responses API as an engine gets it. A body that
/// is not JSON is refused.
pub fn sanitize_responses_request(body: &[u8]) -> (r: Result<Vec<u8>, BodyError>)
    ensures
        match r {
            Ok(b) => js::json_parse(body@) matches Some(req) && b@ == encode_utf8(
                js::json_text(sanitized(req)),
            ),
            Err(BodyError::Parse(_)) => js::json_parse(body@) is None,
            Err(_) => false,
        },
{
    match js::parse(body) {
        Err(e) => Err(BodyError::Parse(e)),
        Ok(mut req) => {
            filter_non_function_tools(&mut req);
            consolidate_responses_instructions(&mut req);
            match js::to_bytes(&req) {
                Ok(b) => Ok(b),
                Err(e) => Err(BodyError::SerializeSanitized(e)),
            }
        },
    }
}

// ---------------------------------------------------------------------------
// Passing a request on
// ---------------------------------------------------------------------------

/// The model that a request names: empty where it names none.
pub open spec fn model_of(req: Json) -> Seq<char> {
    match req.text_at("model"@) {
        Some(s) => s,
        None => Seq::empty(),
    }
}

/// Reads the body of an OpenAI request, and the model that it names.
pub fn read_openai_request(body: &[u8]) -> (r: Result<(serde_json::Value, String), BodyError>)
    ensures
        match r {
            Ok((req, model)) => js::json_parse(body@) == Some(js::json(req)) && model@ == model_of(
                js::json(req),
            ),
            Err(BodyError::Parse(_)) => js::json_parse(body@) is None,
            Err(_) => false,
        },
{
    match js::parse(body) {
        Err(e) => Err(BodyError::Parse(e)),
        Ok(req) => {
            let model = match text_at(&req, "model") {
                Some(s) => s.to_owned(),
                None => String::new(),
            };
            assert(model@ =~= model_of(js::json(req)));
            Ok((req, model))
        },
    }
}

/// Whether a request is an object or null, so that a model can be put into it.
pub fn takes_a_model(req: &serde_json::Value) -> (r: bool)
    ensures
        r == (js::json(*req) is Object || js::json(*req) is Null),
{
    req.is_object() || req.is_null()
}

/// The body that an engine gets: the request under the name by which the engine
/// knows the model.
pub fn write_openai_request(req: serde_json::Value, model: String) -> (r: Result<Vec<u8>, BodyError>)
    requires
        js::json(req) is Object || js::json(req) is Null,
    ensures
        r matches Ok(b) && b@ == encode_utf8(
            js::json_text(js::json(req).with("model"@, Json::Str(model@))),
        ),
{
    let mut req = req;
    js::set(&mut req, "model", js::string(model));
    match js::to_bytes(&req) {
        Ok(b) => Ok(b),
        Err(e) => Err(BodyError::Serialize(e)),
    }
}

// ---------------------------------------------------------------------------
// Laws
// ---------------------------------------------------------------------------

proof fn lemma_filter_keeps_only(s: Seq<Json>, f: spec_fn(Json) -> bool)
    ensures
        forall|i: int| 0 <= i < s.filter(f).len() ==> f(#[trigger] s.filter(f)[i]),
        (forall|i: int| 0 <= i < s.len() ==> f(#[trigger] s[i])) ==> s.filter(f) == s,
    decreases s.len(),
{
    reveal(Seq::filter);
    if s.len() > 0 {
        let t = s.drop_last();
        lemma_filter_keeps_only(t, f);
        assert(s.last() == s[s.len() - 1]);
        if forall|i: int| 0 <= i < s.len() ==> f(#[trigger] s[i]) {
            assert forall|i: int| 0 <= i < t.len() implies f(#[trigger] t[i]) by {
                assert(t[i] == s[i]);
            }
            assert(t.push(s.last()) =~= s);
        }
    }
}

/// Of the tools of a filtered request every one is a function; a request without
/// other tools stays as it is, and so does one that was filtered before.
pub proof fn law_tools_filtered(req: Json)
    ensures
        tools_filtered(req).at("tools"@) matches Some(Json::Array(tools)) ==> forall|i: int|
            0 <= i < tools.len() ==> is_function_tool(#[trigger] tools[i]),
        tools_filtered(tools_filtered(req)) == tools_filtered(req),
        !(req.at("tools"@) matches Some(Json::Array(_))) ==> tools_filtered(req) == req,
{
    if let Some(Json::Array(tools)) = req.at("tools"@) {
        let f = |t: Json| is_function_tool(t);
        lemma_filter_keeps_only(tools, f);
        lemma_filter_keeps_only(tools.filter(f), f);
        let done = tools_filtered(req);
        assert(done.at("tools"@) == Some(Json::Array(tools.filter(f))));
        js::lemma_with_same(done, "tools"@);
        assert forall|i: int| 0 <= i < tools.filter(f).len() implies is_function_tool(
            #[trigger] tools.filter(f)[i],
        ) by {
            assert(f(tools.filter(f)[i]));
        }
    }
}

/// Filtering the tools leaves every other key of a request alone.
pub proof fn law_tools_filtered_leaves_the_rest(req: Json, key: Seq<char>)
    requires
        key != "tools"@,
    ensures
        tools_filtered(req).at(key) == req.at(key),
{
}

proof fn lemma_gathered_none(instructions: Seq<char>, items: Seq<Json>)
    requires
        forall|i: int| 0 <= i < items.len() ==> !is_instruction(#[trigger] items[i]),
    ensures
        gathered(instructions, items) == instructions,
    decreases items.len(),
{
    if items.len() > 0 {
        let t = items.drop_last();
        assert forall|i: int| 0 <= i < t.len() implies !is_instruction(#[trigger] t[i]) by {
            assert(t[i] == items[i]);
        }
        lemma_gathered_none(instructions, t);
        assert(items.last() == items[items.len() - 1]);
    }
}

/// No developer or system item is left in the input of a consolidated request,
/// and its other items stand in their order.
pub proof fn law_consolidated_has_no_instruction_items(req: Json)
    ensures
        consolidated(req).at("input"@) matches Some(Json::Array(items)) ==> forall|i: int|
            0 <= i < items.len() ==> !is_instruction(#[trigger] items[i]),
        req.at("input"@) matches Some(Json::Array(items)) ==> consolidated(req).at("input"@) == Some(
            Json::Array(items.filter(|i: Json| !is_instruction(i))),
        ),
{
    reveal_strlit("input");
    reveal_strlit("instructions");
    if let Some(Json::Array(items)) = req.at("input"@) {
        let f = |i: Json| !is_instruction(i);
        lemma_filter_keeps_only(items, f);
        assert("input"@.len() != "instructions"@.len());
        assert forall|i: int| 0 <= i < items.filter(f).len() implies !is_instruction(
            #[trigger] items.filter(f)[i],
        ) by {
            assert(f(items.filter(f)[i]));
        }
    }
}

/// A request without developer and system items stays as it is.
pub proof fn law_consolidated_no_op(req: Json)
    requires
        req.at("input"@) matches Some(Json::Array(items)) ==> forall|i: int|
            0 <= i < items.len() ==> !is_instruction(#[trigger] items[i]),
    ensures
        consolidated(req) == req,
{
    js::lemma_with_same(req, "input"@);
    js::lemma_with_same(req, "instructions"@);
    if let Some(Json::Array(items)) = req.at("input"@) {
        lemma_gathered_none(instructions_of(req), items);
        lemma_filter_keeps_only(items, |i: Json| !is_instruction(i));
    }
}

/// Consolidating twice is consolidating once.
pub proof fn law_consolidated_idempotent(req: Json)
    ensures
        consolidated(consolidated(req)) == consolidated(req),
{
    law_consolidated_has_no_instruction_items(req);
    law_consolidated_no_op(consolidated(req));
}

} // verus!
