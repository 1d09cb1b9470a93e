//! Laws of putting requests of the OpenAI API right.

use vstd::prelude::*;
use vstd::utf8::*;

use crate::cmd::serve::responses;
use crate::cmd::serve::responses::BodyError;
use crate::json as js;
use crate::json::Json;
use crate::laws::selection;

verus! {

/// Whether a document is an object that holds this at a key.
pub open spec fn holds(j: Json, key: Seq<char>, v: Json) -> bool {
    &&& j matches Json::Object(m)
    &&& m.contains_key(key)
    &&& m[key] == v
}

/// Whether a tool is a function, whatever other keys it has.
pub open spec fn is_function(tool: Json) -> bool {
    holds(tool, "type"@, Json::Str("function"@))
}

/// Whether a document is another of whose tools those and only those are left that
/// are functions, each as it was and in their order. All else is as it was, and so
/// is a document without a list of tools.
pub open spec fn has_its_functions(req: Json, out: Json) -> bool {
    match req {
        Json::Object(m) => if m.contains_key("tools"@) && m["tools"@] is Array {
            let tools = m["tools"@]->Array_0;
            let kept = out->Object_0["tools"@]->Array_0;
            &&& out == Json::Object(m.insert("tools"@, Json::Array(kept)))
            &&& selection::is_selection(
                tools,
                |t: Json| is_function(t),
                kept,
                selection::places_of(tools, |t: Json| is_function(t)),
            )
        } else {
            out == req
        },
        _ => out == req,
    }
}

proof fn lemma_functions(req: Json)
    ensures
        has_its_functions(req, responses::tools_filtered(req)),
{
    if let Json::Object(m) = req {
        if m.contains_key("tools"@) && m["tools"@] is Array {
            let tools = m["tools"@]->Array_0;
            let f = |t: Json| responses::is_function_tool(t);
            let g = |t: Json| is_function(t);
            assert forall|t: Json| #[trigger] f(t) == g(t) by {}
            assert(f =~= g);
            selection::lemma_filter_selects(tools, g);
        }
    }
}

/// Every tool of a request that is a function is still there behind the filter,
/// unchanged and in its order, whatever its other keys; no other tool is.
pub proof fn law_functions_stay(req: &mut serde_json::Value)
    requires
        call_ensures(responses::filter_non_function_tools, (req,), ()),
    ensures
        has_its_functions(js::json(*old(req)), js::json(*final(req))),
{
    lemma_functions(js::json(*old(req)));
}

/// The text of a content block: that of its key `text`, and none where that is no
/// string.
pub open spec fn block_chars(block: Json) -> Seq<char> {
    if block is Object && block->Object_0.contains_key("text"@) && block->Object_0["text"@] is Str {
        block->Object_0["text"@]->Str_0
    } else {
        seq![]
    }
}

/// The content of an input item.
pub open spec fn content_in(item: Json) -> Json {
    if item is Object && item->Object_0.contains_key("content"@) {
        item->Object_0["content"@]
    } else {
        Json::Null
    }
}

/// The text of an input item: its content, or the texts of all blocks of its
/// content in their order, and none of any other content.
pub open spec fn item_chars(item: Json) -> Seq<char> {
    match content_in(item) {
        Json::Str(s) => s,
        Json::Array(blocks) => blocks.map_values(|b: Json| block_chars(b)).flatten(),
        _ => seq![],
    }
}

proof fn lemma_blocks(blocks: Seq<Json>)
    ensures
        responses::blocks_text(blocks) == blocks.map_values(|b: Json| block_chars(b)).flatten(),
    decreases blocks.len(),
{
    let f = |b: Json| block_chars(b);
    let parts = blocks.map_values(f);
    parts.lemma_flatten_and_flatten_alt_are_equivalent();
    if blocks.len() > 0 {
        let before = blocks.drop_last();
        lemma_blocks(before);
        before.map_values(f).lemma_flatten_and_flatten_alt_are_equivalent();
        assert(parts.drop_last() =~= before.map_values(f));
        assert(parts.last() =~= block_chars(blocks.last()));
    }
}

/// The text of an input item is all of its content.
pub proof fn law_all_of_an_item_is_read(item: &serde_json::Value, r: Option<String>)
    requires
        call_ensures(responses::responses_input_item_text, (item,), r),
    ensures
        r is Some <==> content_in(js::json(*item)) is Str || content_in(js::json(*item)) is Array,
        r is Some ==> r.unwrap()@ == item_chars(js::json(*item)),
{
    if let Json::Array(blocks) = content_in(js::json(*item)) {
        lemma_blocks(blocks);
    }
}

/// Whether an input item is an instruction: one of a developer or of the system.
pub open spec fn instructs(item: Json) -> bool {
    holds(item, "role"@, Json::Str("developer"@)) || holds(item, "role"@, Json::Str("system"@))
}

/// Paragraphs one behind the other, with an empty line between each two.
pub open spec fn joined(parts: Seq<Seq<char>>) -> Seq<char>
    decreases parts.len(),
{
    if parts.len() == 0 {
        seq![]
    } else if parts.len() == 1 {
        parts[0]
    } else {
        joined(parts.drop_last()) + "\n\n"@ + parts.last()
    }
}

/// What an input item adds to the instructions.
pub open spec fn paragraph(item: Json) -> Seq<char> {
    if instructs(item) {
        item_chars(item)
    } else {
        seq![]
    }
}

/// The instructions of a request: its own, and then the text of each input item
/// that is one, in their order, as paragraphs; empty ones do not count.
pub open spec fn instructions(own: Seq<char>, items: Seq<Json>) -> Seq<char> {
    joined(
        (seq![own] + items.map_values(|i: Json| paragraph(i))).filter(|p: Seq<char>| p.len() > 0),
    )
}

proof fn lemma_joined_len(parts: Seq<Seq<char>>)
    requires
        forall|i: int| 0 <= i < parts.len() ==> (#[trigger] parts[i]).len() > 0,
    ensures
        joined(parts).len() > 0 <==> parts.len() > 0,
{
    if parts.len() > 0 {
        assert(parts[0].len() > 0);
        assert(parts[parts.len() - 1].len() > 0);
    }
}

proof fn lemma_gathered(own: Seq<char>, items: Seq<Json>)
    ensures
        responses::gathered(own, items) == instructions(own, items),
    decreases items.len(),
{
    reveal(Seq::filter);
    let f = |i: Json| paragraph(i);
    let keep = |p: Seq<char>| p.len() > 0;
    let all = seq![own] + items.map_values(f);
    if items.len() == 0 {
        assert(all =~= seq![own]);
        assert(seq![own].drop_last() =~= seq![]);
        assert(seq![own].drop_last().filter(keep) =~= seq![]);
        if own.len() > 0 {
            assert(seq![own].filter(keep) =~= seq![own]);
        } else {
            assert(seq![own].filter(keep) =~= seq![]);
            assert(own =~= seq![]);
        }
    } else {
        let t = items.drop_last();
        let item = items.last();
        let before = seq![own] + t.map_values(f);
        lemma_gathered(own, t);
        assert(all =~= before.push(f(item)));
        assert(all.drop_last() =~= before);
        if let Json::Array(blocks) = content_in(item) {
            lemma_blocks(blocks);
        }
        let kept = before.filter(keep);
        selection::lemma_filter_selects(before, keep);
        let places = selection::places_of(before, keep);
        assert forall|i: int| 0 <= i < kept.len() implies (#[trigger] kept[i]).len() > 0 by {
            assert(keep(before[places[i]]));
        }
        lemma_joined_len(kept);
        assert(kept.push(f(item)).drop_last() =~= kept);
        if kept.len() == 0 {
            assert(joined(kept) =~= seq![]);
        }
    }
}

/// Whether a document is another in which all that instructs stands in the
/// instructions, in its order, and the input holds all its other items, each as it
/// was and in their order. All else is as it was, and so is a document without a
/// list as its input.
pub open spec fn has_its_instructions(req: Json, out: Json) -> bool {
    match req {
        Json::Object(m) => if m.contains_key("input"@) && m["input"@] is Array {
            let items = m["input"@]->Array_0;
            let kept = out->Object_0["input"@]->Array_0;
            let own = if m.contains_key("instructions"@) && m["instructions"@] is Str {
                m["instructions"@]->Str_0
            } else {
                seq![]
            };
            let all = instructions(own, items);
            &&& selection::is_selection(
                items,
                |i: Json| !instructs(i),
                kept,
                selection::places_of(items, |i: Json| !instructs(i)),
            )
            &&& all.len() > 0 ==> out == Json::Object(
                m.insert("input"@, Json::Array(kept)).insert("instructions"@, Json::Str(all)),
            )
            &&& all.len() == 0 ==> out == Json::Object(m.insert("input"@, Json::Array(kept)))
        } else {
            out == req
        },
        _ => out == req,
    }
}

proof fn lemma_instructions(req: Json)
    ensures
        has_its_instructions(req, responses::consolidated(req)),
{
    reveal_strlit("input");
    reveal_strlit("instructions");
    if let Json::Object(m) = req {
        if m.contains_key("input"@) && m["input"@] is Array {
            let items = m["input"@]->Array_0;
            let f = |t: Json| !responses::is_instruction(t);
            let g = |t: Json| !instructs(t);
            assert forall|t: Json| #[trigger] f(t) == g(t) by {}
            assert(f =~= g);
            assert("input"@.len() != "instructions"@.len());
            selection::lemma_filter_selects(items, g);
            let own = if m.contains_key("instructions"@) && m["instructions"@] is Str {
                m["instructions"@]->Str_0
            } else {
                seq![]
            };
            assert(own =~= responses::instructions_of(req));
            lemma_gathered(own, items);
        }
    }
}

/// All that instructs in a request comes to stand in its instructions, and nothing
/// else moves.
pub proof fn law_instructions_are_gathered(req: &mut serde_json::Value)
    requires
        call_ensures(responses::consolidate_responses_instructions, (req,), ()),
    ensures
        has_its_instructions(js::json(*old(req)), js::json(*final(req))),
{
    lemma_instructions(js::json(*old(req)));
}

/// A body that is JSON is put right, and only that is done to it: its functions
/// stay, and its instructions are gathered. Any other body is refused.
pub proof fn law_bodies_are_put_right(body: &[u8], r: Result<Vec<u8>, BodyError>)
    requires
        call_ensures(responses::sanitize_responses_request, (body,), r),
    ensures
        r is Ok <==> js::json_parse(body@) is Some,
        r is Err ==> r->Err_0 is Parse,
        r is Ok ==> exists|mid: Json, out: Json| #[trigger]
            has_its_functions(js::json_parse(body@).unwrap(), mid) && #[trigger]
            has_its_instructions(mid, out) && r->Ok_0@ == encode_utf8(js::json_text(out)),
{
    if let Some(req) = js::json_parse(body@) {
        let mid = responses::tools_filtered(req);
        lemma_functions(req);
        lemma_instructions(mid);
    }
}

/// A body is read as the document that it holds, and the model is the one that the
/// document names; one without a name has an empty one.
pub proof fn law_bodies_are_read(body: &[u8], r: Result<(serde_json::Value, String), BodyError>)
    requires
        call_ensures(responses::read_openai_request, (body,), r),
    ensures
        r is Ok <==> js::json_parse(body@) is Some,
        r is Err ==> r->Err_0 is Parse,
        r is Ok ==> js::json_parse(body@) == Some(js::json(r->Ok_0.0)),
        forall|s: Seq<char>|
            r is Ok && #[trigger] holds(js::json(r->Ok_0.0), "model"@, Json::Str(s))
                ==> r->Ok_0.1@ == s,
        r is Ok && r->Ok_0.1@.len() > 0 ==> holds(
            js::json(r->Ok_0.0),
            "model"@,
            Json::Str(r->Ok_0.1@),
        ),
{
}

/// A body is written under the name of the engine's model, and is otherwise what it
/// was; nothing at all becomes an object with that name alone.
pub proof fn law_bodies_are_written(
    req: serde_json::Value,
    model: String,
    r: Result<Vec<u8>, BodyError>,
)
    requires
        call_ensures(responses::write_openai_request, (req, model), r),
    ensures
        js::json(req) matches Json::Object(m) ==> r is Ok && r->Ok_0@ == encode_utf8(
            js::json_text(Json::Object(m.insert("model"@, Json::Str(model@)))),
        ),
        js::json(req) is Null ==> r is Ok && r->Ok_0@ == encode_utf8(
            js::json_text(Json::Object(map!["model"@ => Json::Str(model@)])),
        ),
{
}

/// An error says what was being done when it came up.
pub proof fn law_errors_say_what_was_done(e: &BodyError, r: &'static str)
    requires
        call_ensures(BodyError::context, (e,), r),
    ensures
        e is Parse ==> r@ == "parse OpenAI request body"@,
        e is Serialize ==> r@ == "re-serialize OpenAI request body"@,
        e is SerializeSanitized ==> r@ == "re-serialize sanitized request"@,
{
}

/// A model can be put into an object and into nothing at all, and into no other
/// document.
pub proof fn law_what_takes_a_model(req: &serde_json::Value, r: bool)
    requires
        call_ensures(responses::takes_a_model, (req,), r),
    ensures
        r <==> js::json(*req) is Object || js::json(*req) is Null,
{
}

} // verus!
