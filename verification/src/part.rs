//! The parts of a message: what a part's JSON says, and what a reader sees of it.

use crate::record::{BlockView, ContentBlock};
use crate::{json, text};
use vstd::prelude::*;

verus! {

/// What the JSON document of a part says, as far as a reader is shown any of it.
#[derive(Debug, Clone, PartialEq, Eq)]
pub struct Part {
    /// The kind of the part, the string under `type`.
    pub part_type: Option<String>,
    /// The string under `text`.
    pub text: Option<String>,
    /// The name of the tool, the string under `tool`.
    pub tool: Option<String>,
    /// What is recorded of a tool's run, under `state`.
    pub state: Option<ToolState>,
}

/// What is recorded of a tool's run.
///
/// A value that is a string stands here by its characters, any other value as JSON text.
#[derive(Debug, Clone, PartialEq, Eq)]
pub struct ToolState {
    /// What the tool was given.
    pub input: Option<String>,
    /// What the tool gave back.
    pub output: Option<String>,
}

/// What a `Part` stands for.
pub struct PartView {
    pub part_type: Option<Seq<char>>,
    pub text: Option<Seq<char>>,
    pub tool: Option<Seq<char>>,
    pub state: Option<ToolStateView>,
}

/// What a `ToolState` stands for.
pub struct ToolStateView {
    pub input: Option<Seq<char>>,
    pub output: Option<Seq<char>>,
}

impl DeepView for Part {
    type V = PartView;

    open spec fn deep_view(&self) -> PartView {
        PartView {
            part_type: self.part_type.deep_view(),
            text: self.text.deep_view(),
            tool: self.tool.deep_view(),
            state: self.state.deep_view(),
        }
    }
}

impl DeepView for ToolState {
    type V = ToolStateView;

    open spec fn deep_view(&self) -> ToolStateView {
        ToolStateView { input: self.input.deep_view(), output: self.output.deep_view() }
    }
}

/// The part that a document describes, which holds `held`.
pub open spec fn part_in(held: Map<Seq<Seq<char>>, json::Node>) -> PartView {
    PartView {
        part_type: json::string_at(held, seq!["type"@]),
        text: json::string_at(held, seq!["text"@]),
        tool: json::string_at(held, seq!["tool"@]),
        state: if held.contains_key(seq!["state"@]) {
            Some(
                ToolStateView {
                    input: json::shown_at(held, seq!["state"@, "input"@]),
                    output: json::shown_at(held, seq!["state"@, "output"@]),
                },
            )
        } else {
            None
        },
    }
}

/// The part that a text describes, if the text is a JSON document.
pub open spec fn part_written(data: Seq<char>) -> Option<PartView> {
    match json::parsed(data) {
        Some(held) => Some(part_in(held)),
        None => None,
    }
}

/// Reads a part from a document.
pub(crate) fn read_part(document: &serde_json::Value) -> (part: Part)
    ensures
        part.deep_view() == part_in(json::contents(*document)),
{
    let state = match json::get(document, "state") {
        Some(state) => {
            assert(seq!["state"@] + seq!["input"@] =~= seq!["state"@, "input"@]);
            assert(seq!["state"@] + seq!["output"@] =~= seq!["state"@, "output"@]);
            Some(
                ToolState {
                    input: json::get_shown(state, "input"),
                    output: json::get_shown(state, "output"),
                },
            )
        },
        None => None,
    };
    Part {
        part_type: json::get_string(document, "type"),
        text: json::get_string(document, "text"),
        tool: json::get_string(document, "tool"),
        state,
    }
}

/// Reads a part from the text in its `data` column. `None` if that is no JSON document.
pub fn parse_part(data: &str) -> (part: Option<Part>)
    ensures
        part.deep_view() == part_written(data@),
        json::keeps_strings(data@),
{
    match json::parse(data) {
        Some(document) => Some(read_part(&document)),
        None => None,
    }
}

/// What is shown of a text, unless it is blank.
pub open spec fn unless_blank(shown: BlockView, text: Option<Seq<char>>) -> Seq<BlockView> {
    if text is Some && !text::blank(text->0) {
        seq![shown]
    } else {
        Seq::empty()
    }
}

/// What is shown of a tool's run: the call, and the result unless it is blank.
pub open spec fn tool_blocks(part: PartView) -> Seq<BlockView> {
    let name = if part.tool is Some {
        part.tool->0
    } else {
        "tool"@
    };
    let input = if part.state is Some && part.state->0.input is Some {
        part.state->0.input->0
    } else {
        Seq::empty()
    };
    let output = if part.state is Some {
        part.state->0.output
    } else {
        None
    };
    seq![BlockView::ToolUse { name, input }] + unless_blank(
        BlockView::ToolResult(output->0),
        output,
    )
}

/// The blocks that a reader sees of a part. Parts of other kinds are structural and show
/// nothing.
pub open spec fn part_blocks(part: PartView) -> Seq<BlockView> {
    if part.part_type == Some("text"@) {
        unless_blank(BlockView::Text(part.text->0), part.text)
    } else if part.part_type == Some("reasoning"@) {
        unless_blank(BlockView::Thinking(part.text->0), part.text)
    } else if part.part_type == Some("tool"@) {
        tool_blocks(part)
    } else {
        Seq::empty()
    }
}

/// Appends the blocks that a reader sees of a part.
pub fn push_blocks_from_part(part: &Part, blocks: &mut Vec<ContentBlock>)
    ensures
        final(blocks).deep_view() == old(blocks).deep_view() + part_blocks(part.deep_view()),
{
    let ghost before = blocks.deep_view();
    let Some(part_type) = &part.part_type else {
        assert(blocks.deep_view() =~= before + Seq::<BlockView>::empty());
        return ;
    };
    let kind = part_type.as_str();
    if text::same(kind, "text") {
        if let Some(text) = &part.text {
            if !text::is_blank(text.as_str()) {
                blocks.push(ContentBlock::Text(text.clone()));
            }
        }
    } else if text::same(kind, "reasoning") {
        if let Some(text) = &part.text {
            if !text::is_blank(text.as_str()) {
                blocks.push(ContentBlock::Thinking(text.clone()));
            }
        }
    } else if text::same(kind, "tool") {
        push_tool_blocks(part, blocks);
    }
    assert(blocks.deep_view() =~= before + part_blocks(part.deep_view()));
}

/// Appends the blocks of a tool's run: the call and, unless it is blank, the result.
pub fn push_tool_blocks(part: &Part, blocks: &mut Vec<ContentBlock>)
    ensures
        final(blocks).deep_view() == old(blocks).deep_view() + tool_blocks(part.deep_view()),
{
    let ghost before = blocks.deep_view();
    let name = match &part.tool {
        Some(name) => name.clone(),
        None => "tool".to_owned(),
    };
    let mut input = String::new();
    let mut output: Option<&String> = None;
    if let Some(state) = &part.state {
        if let Some(given) = &state.input {
            input = given.clone();
        }
        output = state.output.as_ref();
    }
    blocks.push(ContentBlock::ToolUse { name, input });
    if let Some(text) = output {
        if !text::is_blank(text.as_str()) {
            blocks.push(ContentBlock::ToolResult(text.clone()));
        }
    }
    assert(blocks.deep_view() =~= before + tool_blocks(part.deep_view()));
}

/// The text that a search looks through in a tool's run: the input and the output, on
/// lines of their own.
pub open spec fn tool_text(state: ToolStateView) -> Seq<char> {
    let input = if state.input is Some {
        state.input->0
    } else {
        Seq::empty()
    };
    if state.output is None {
        input
    } else if input.len() == 0 {
        state.output->0
    } else {
        input.push('\n') + state.output->0
    }
}

/// The text that a search looks through in a part.
pub open spec fn searched_text(part: PartView) -> Option<Seq<char>> {
    if part.part_type == Some("text"@) || part.part_type == Some("reasoning"@) {
        part.text
    } else if part.part_type == Some("tool"@) && part.state is Some && tool_text(
        part.state->0,
    ).len() > 0 {
        Some(tool_text(part.state->0))
    } else {
        None
    }
}

/// Renders the user-visible text of a part for a search.
///
/// Returns `None` for structural parts (`step-start`, `step-finish`, `snapshot`, `patch`),
/// so that they are no candidates for a match.
pub fn render_part_text(part: &Part) -> (rendered: Option<String>)
    ensures
        rendered.deep_view() == searched_text(part.deep_view()),
{
    let Some(part_type) = &part.part_type else {
        return None;
    };
    let kind = part_type.as_str();
    if text::same(kind, "text") || text::same(kind, "reasoning") {
        return part.text.clone();
    }
    if !text::same(kind, "tool") {
        return None;
    }
    let Some(state) = &part.state else {
        return None;
    };
    let mut out = String::new();
    if let Some(input) = &state.input {
        out.append(input.as_str());
    }
    if let Some(output) = &state.output {
        if !out.as_str().is_empty() {
            out.push('\n');
        }
        out.append(output.as_str());
    }
    if out.as_str().is_empty() {
        None
    } else {
        Some(out)
    }
}

/// A part of no kind that a reader is shown.
pub open spec fn is_structural(part: PartView) -> bool {
    &&& part.part_type != Some("text"@)
    &&& part.part_type != Some("reasoning"@)
    &&& part.part_type != Some("tool"@)
}

/// A structural part shows no blocks and is nothing that a search looks through.
pub proof fn law_structural_parts_are_hidden(part: PartView)
    requires
        is_structural(part),
    ensures
        part_blocks(part) == Seq::<BlockView>::empty(),
        searched_text(part) is None,
{
}

/// The kinds `step-start`, `step-finish`, `snapshot` and `patch` are structural.
pub proof fn law_structural_kinds(part: PartView)
    requires
        part.part_type == Some("step-start"@) || part.part_type == Some("step-finish"@)
            || part.part_type == Some("snapshot"@) || part.part_type == Some("patch"@),
    ensures
        is_structural(part),
{
    reveal_strlit("step-start");
    reveal_strlit("step-finish");
    reveal_strlit("snapshot");
    reveal_strlit("patch");
    reveal_strlit("text");
    reveal_strlit("reasoning");
    reveal_strlit("tool");
    assert("step-start"@.len() == 10 && "step-finish"@.len() == 11);
    assert("snapshot"@.len() == 8 && "patch"@.len() == 5);
    assert("text"@.len() == 4 && "reasoning"@.len() == 9 && "tool"@.len() == 4);
}

/// What a reader is shown of a text or of a reasoning is what a search looks through.
pub proof fn law_shown_text_is_searched(part: PartView)
    requires
        part.part_type == Some("text"@) || part.part_type == Some("reasoning"@),
        part_blocks(part).len() > 0,
    ensures
        part_blocks(part).len() == 1,
        searched_text(part) is Some,
        part_blocks(part)[0] == BlockView::Text(searched_text(part)->0) || part_blocks(part)[0]
            == BlockView::Thinking(searched_text(part)->0),
{
}

/// A search looks through all of a tool's input and output.
pub proof fn law_tool_input_and_output_are_searched(part: PartView)
    requires
        part.part_type == Some("tool"@),
        part.state is Some,
    ensures
        part.state->0.input matches Some(input) ==> input.len() > 0 ==> {
            &&& searched_text(part) is Some
            &&& text::is_infix(input, searched_text(part)->0)
        },
        part.state->0.output matches Some(output) ==> output.len() > 0 ==> {
            &&& searched_text(part) is Some
            &&& text::is_infix(output, searched_text(part)->0)
        },
{
    reveal_strlit("text");
    reveal_strlit("reasoning");
    reveal_strlit("tool");
    assert("text"@[1] != "tool"@[1]);
    assert("tool"@.len() != "reasoning"@.len());
    let state = part.state->0;
    let whole = tool_text(state);
    if state.input is Some && state.input->0.len() > 0 {
        assert(whole.subrange(0, state.input->0.len() as int) =~= state.input->0);
        assert(text::occurs_at(whole, state.input->0, 0));
    }
    if state.output is Some && state.output->0.len() > 0 {
        let at = whole.len() - state.output->0.len();
        assert(whole.subrange(at, whole.len() as int) =~= state.output->0);
        assert(text::occurs_at(whole, state.output->0, at));
    }
}

/// A part stands for all that it holds.
pub proof fn law_parts_stand_for_all_they_hold(part: Part, state: ToolState)
    ensures
        part.deep_view().part_type == part.part_type.deep_view(),
        part.deep_view().text == part.text.deep_view(),
        part.deep_view().tool == part.tool.deep_view(),
        part.deep_view().state is Some <==> part.state is Some,
        part.state == Some(state) ==> part.deep_view().state == Some(state.deep_view()),
        state.deep_view().input == state.input.deep_view(),
        state.deep_view().output == state.output.deep_view(),
{
}

/// A part is what its document holds under the keys `type`, `text`, `tool` and `state`, and
/// under `input` and `output` there. A text that is no document is no part.
pub proof fn law_parts_are_read_from_their_keys(data: Seq<char>)
    ensures
        part_written(data) is Some <==> json::parsed(data) is Some,
        json::parsed(data) matches Some(held) ==> {
            let part = part_written(data)->0;
            &&& part.part_type == json::string_at(held, seq!["type"@])
            &&& part.text == json::string_at(held, seq!["text"@])
            &&& part.tool == json::string_at(held, seq!["tool"@])
            &&& part.state is Some <==> held.contains_key(seq!["state"@])
            &&& part.state matches Some(state) ==> {
                &&& state.input == json::shown_at(held, seq!["state"@, "input"@])
                &&& state.output == json::shown_at(held, seq!["state"@, "output"@])
            }
        },
{
}

/// A text, a reasoning or the output of a tool with one character that is not white space, at
/// any position, is shown, and all of it.
pub proof fn law_visible_texts_are_shown(part: PartView, text: Seq<char>, i: int)
    requires
        0 <= i < text.len(),
        !text::white_space(text[i]),
    ensures
        part.part_type == Some("text"@) && part.text == Some(text) ==> part_blocks(part) == seq![
            BlockView::Text(text),
        ],
        part.part_type == Some("reasoning"@) && part.text == Some(text) ==> part_blocks(part)
            == seq![BlockView::Thinking(text)],
        part.state is Some && part.state->0.output == Some(text) ==> tool_blocks(part).len() == 2
            && tool_blocks(part)[1] == BlockView::ToolResult(text),
{
    lemma_kinds_differ();
}

/// A text, a reasoning or the output of a tool that is missing, or that is white space only, is
/// not shown.
pub proof fn law_blank_texts_are_not_shown(part: PartView)
    ensures
        (part.part_type == Some("text"@) || part.part_type == Some("reasoning"@)) && (part.text
            matches Some(text) ==> forall|i: int|
            0 <= i < text.len() ==> text::white_space(#[trigger] text[i])) ==> part_blocks(part)
            == Seq::<BlockView>::empty(),
        (part.state matches Some(state) ==> (state.output matches Some(text) ==> forall|i: int|
            0 <= i < text.len() ==> text::white_space(#[trigger] text[i]))) ==> tool_blocks(
            part,
        ).len() == 1,
{
}

/// A tool's run is shown by its call first, with the tool's name and all of its input, and then
/// by its result or by nothing. Only a part of the kind `tool` is shown as one.
pub proof fn law_tool_calls_are_shown(part: PartView)
    ensures
        part.part_type == Some("tool"@) ==> part_blocks(part) == tool_blocks(part),
        1 <= tool_blocks(part).len() <= 2,
        tool_blocks(part)[0] is ToolUse,
        part.tool is Some ==> tool_blocks(part)[0]->name == part.tool->0,
        part.tool is None ==> tool_blocks(part)[0]->name == "tool"@,
        part.state is Some && part.state->0.input is Some ==> tool_blocks(part)[0]->input
            == part.state->0.input->0,
        part.state is None || part.state->0.input is None ==> tool_blocks(part)[0]->input
            == Seq::<char>::empty(),
{
    lemma_kinds_differ();
}

/// A part of any kind but `text`, `reasoning` and `tool` shows nothing and is not searched.
pub proof fn law_other_kinds_are_hidden(part: PartView)
    requires
        part.part_type != Some("text"@),
        part.part_type != Some("reasoning"@),
        part.part_type != Some("tool"@),
    ensures
        part_blocks(part) == Seq::<BlockView>::empty(),
        searched_text(part) is None,
        is_structural(part),
{
}

/// What is searched in a part: the text of a text or reasoning, even if it is blank, and of a
/// tool's run the input, the output, or both with a line break between them.
pub proof fn law_searched_texts(part: PartView, input: Seq<char>, output: Seq<char>)
    requires
        input.len() > 0,
        output.len() > 0,
    ensures
        part.part_type == Some("text"@) || part.part_type == Some("reasoning"@) ==> searched_text(
            part,
        ) == part.text,
        part.part_type == Some("tool"@) ==> {
            &&& part.state is None ==> searched_text(part) is None
            &&& part.state matches Some(state) ==> {
                let given = state.input == Some(input);
                let none_given = state.input is None || state.input == Some(Seq::<char>::empty());
                let none_back = state.output is None || state.output == Some(Seq::<char>::empty());
                &&& given && state.output == Some(output) ==> searched_text(part) == Some(
                    input + "\n"@ + output,
                )
                &&& given && state.output == Some(Seq::<char>::empty()) ==> searched_text(part)
                    == Some(input + "\n"@)
                &&& given && state.output is None ==> searched_text(part) == Some(input)
                &&& none_given && state.output == Some(output) ==> searched_text(part) == Some(
                    output,
                )
                &&& none_given && none_back ==> searched_text(part) is None
            }
        },
{
    lemma_kinds_differ();
    reveal_strlit("\n");
    if part.state is Some {
        assert(input.push('\n') + output =~= input + "\n"@ + output);
        assert(input.push('\n') + Seq::<char>::empty() =~= input + "\n"@);
    }
}

proof fn lemma_kinds_differ()
    ensures
        "text"@ != "reasoning"@,
        "text"@ != "tool"@,
        "reasoning"@ != "tool"@,
{
    reveal_strlit("text");
    reveal_strlit("reasoning");
    reveal_strlit("tool");
    assert("text"@[1] != "tool"@[1]);
    assert("text"@.len() == 4 && "reasoning"@.len() == 9 && "tool"@.len() == 4);
}

} // verus!
