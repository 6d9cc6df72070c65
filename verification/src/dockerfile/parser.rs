//! From Dockerfile text to a document. The grammar is that of the
//! `dockerfile_parser` crate; this module calls it and carries what it
//! found over into the library's own document.

use vstd::prelude::*;
use super::document::{
    ArgumentComponent, ArgumentComponentView, BuildInstruction, BuildInstructionView, BuildStage,
    BuildStageView, DockerfileDocument, DocumentView,
};
use super::port::{exposed_port, extract_exposed_port};

verus! {

/// What the parser reports of one stage: the earlier stage it builds on, if
/// any, and its instructions.
pub ghost struct ParsedStage {
    pub parent: Option<nat>,
    pub instructions: Seq<BuildInstructionView>,
}

/// What `dockerfile_parser::Dockerfile::parse` makes of a text: the stages
/// of the Dockerfile it read, or the message of the error it gave.
pub uninterp spec fn parse_outcome(text: Seq<char>) -> Result<Seq<ParsedStage>, Seq<char>>;

/// The stages that a parsed `dockerfile_parser::Dockerfile` splits into.
pub uninterp spec fn dockerfile_stages(dockerfile: dockerfile_parser::Dockerfile) -> Seq<
    ParsedStage,
>;

/// The message that a `dockerfile_parser::Error` displays.
pub uninterp spec fn parse_error_message(error: dockerfile_parser::Error) -> Seq<char>;

/// What a `dockerfile_parser::Stage` holds.
pub uninterp spec fn stage_content(stage: dockerfile_parser::Stage) -> ParsedStage;

/// What a `dockerfile_parser::Instruction` holds.
pub uninterp spec fn instruction_content(
    instruction: dockerfile_parser::Instruction,
) -> BuildInstructionView;

/// What a `dockerfile_parser::BreakableStringComponent` holds.
pub uninterp spec fn component_content(
    component: dockerfile_parser::BreakableStringComponent,
) -> ArgumentComponentView;

/// The document that parsed stages make: each stage gets its position as
/// index, and is a root stage exactly when it has no parent.
pub open spec fn document_of(stages: Seq<ParsedStage>) -> DocumentView {
    DocumentView {
        stages: Seq::new(
            stages.len(),
            |i: int|
                BuildStageView {
                    index: i as nat,
                    parent: stages[i].parent,
                    root: stages[i].parent is None,
                    instructions: stages[i].instructions,
                },
        ),
    }
}

/// Why a Dockerfile text could not be read.
#[derive(Debug, Clone, PartialEq, Eq)]
pub struct ParseError {
    /// The parser's own account of what is wrong with the text.
    pub message: String,
}

impl View for ParseError {
    type V = Seq<char>;

    open spec fn view(&self) -> Seq<char> {
        self.message@
    }
}

impl ParseError {
    /// The error as one line of text.
    pub fn to_string(&self) -> (text: String)
        ensures
            text@ == self@,
    {
        self.message.clone()
    }
}

/// An instruction as the parser holds it, its text still borrowed.
enum BorrowedInstruction<'a> {
    From,
    Arg,
    Label,
    Run,
    Entrypoint,
    Cmd,
    Copy,
    Env,
    Misc(&'a str, &'a Vec<dockerfile_parser::BreakableStringComponent>),
}

/// What a borrowed instruction holds.
spec fn borrowed_content(instruction: BorrowedInstruction) -> BuildInstructionView {
    match instruction {
        BorrowedInstruction::From => BuildInstructionView::From,
        BorrowedInstruction::Arg => BuildInstructionView::Arg,
        BorrowedInstruction::Label => BuildInstructionView::Label,
        BorrowedInstruction::Run => BuildInstructionView::Run,
        BorrowedInstruction::Entrypoint => BuildInstructionView::Entrypoint,
        BorrowedInstruction::Cmd => BuildInstructionView::Cmd,
        BorrowedInstruction::Copy => BuildInstructionView::Copy,
        BorrowedInstruction::Env => BuildInstructionView::Env,
        BorrowedInstruction::Misc(name, components) => BuildInstructionView::Misc {
            name: name@,
            arguments: components@.map_values(
                |c: dockerfile_parser::BreakableStringComponent| component_content(c),
            ),
        },
    }
}

/// Calls `dockerfile_parser::Dockerfile::parse`. The contract names what
/// comes back and claims nothing more: the stages of the value on success,
/// the message of the error on failure.
#[verifier::external_body]
fn parse_text(text: &str) -> (outcome: Result<
    dockerfile_parser::Dockerfile,
    dockerfile_parser::Error,
>)
    ensures
        match outcome {
            Ok(dockerfile) => parse_outcome(text@) == Ok::<Seq<ParsedStage>, Seq<char>>(
                dockerfile_stages(dockerfile),
            ),
            Err(error) => parse_outcome(text@) == Err::<Seq<ParsedStage>, Seq<char>>(
                parse_error_message(error),
            ),
        },
{
    dockerfile_parser::Dockerfile::parse(text)
}

/// Renders a `dockerfile_parser::Error` through its `Display` impl: the
/// text is the message the contract names.
#[verifier::external_body]
fn error_text(error: &dockerfile_parser::Error) -> (text: String)
    ensures
        text@ == parse_error_message(*error),
{
    error.to_string()
}

/// Calls `dockerfile_parser::Dockerfile::iter_stages` and collects the
/// stages in the order given. A stage's parent, where it has one, is a stage
/// that came before it: the crate looks a parent up among the stages it has
/// already built.
#[verifier::external_body]
fn split_stages<'a>(dockerfile: &'a dockerfile_parser::Dockerfile) -> (stages: Vec<
    dockerfile_parser::Stage<'a>,
>)
    ensures
        stages@.map_values(|s: dockerfile_parser::Stage| stage_content(s)) == dockerfile_stages(
            *dockerfile,
        ),
        forall|i: int|
            0 <= i < stages@.len() ==> (#[trigger] stage_content(stages@[i]).parent matches Some(p)
                ==> p < i),
{
    dockerfile.iter_stages().collect()
}

/// Reads the fields `parent` and `instructions` of a
/// `dockerfile_parser::Stage`. Of the parent only a stage index is kept: an
/// image or scratch is no parent stage.
#[verifier::external_body]
fn read_stage<'a, 'b>(stage: &'b dockerfile_parser::Stage<'a>) -> (fields: (
    Option<usize>,
    &'b Vec<&'a dockerfile_parser::Instruction>,
))
    ensures
        stage_content(*stage).parent == match fields.0 {
            Some(p) => Some(p as nat),
            None => None,
        },
        stage_content(*stage).instructions == fields.1@.map_values(
            |i: &dockerfile_parser::Instruction| instruction_content(*i),
        ),
{
    let parent = match stage.parent {
        dockerfile_parser::StageParent::Stage(index) => Some(index),
        dockerfile_parser::StageParent::Image(_) => None,
        dockerfile_parser::StageParent::Scratch => None,
    };
    (parent, &stage.instructions)
}

/// Tells the variants of a `dockerfile_parser::Instruction` apart and, of
/// `Misc`, hands out the instruction's name and its argument components.
#[verifier::external_body]
fn read_instruction<'a>(instruction: &'a dockerfile_parser::Instruction) -> (read:
    BorrowedInstruction<'a>)
    ensures
        borrowed_content(read) == instruction_content(*instruction),
{
    match instruction {
        dockerfile_parser::Instruction::From(_) => BorrowedInstruction::From,
        dockerfile_parser::Instruction::Arg(_) => BorrowedInstruction::Arg,
        dockerfile_parser::Instruction::Label(_) => BorrowedInstruction::Label,
        dockerfile_parser::Instruction::Run(_) => BorrowedInstruction::Run,
        dockerfile_parser::Instruction::Entrypoint(_) => BorrowedInstruction::Entrypoint,
        dockerfile_parser::Instruction::Cmd(_) => BorrowedInstruction::Cmd,
        dockerfile_parser::Instruction::Copy(_) => BorrowedInstruction::Copy,
        dockerfile_parser::Instruction::Env(_) => BorrowedInstruction::Env,
        dockerfile_parser::Instruction::Misc(m) => BorrowedInstruction::Misc(
            m.instruction.content.as_str(),
            &m.arguments.components,
        ),
    }
}

/// Tells the variants of a `dockerfile_parser::BreakableStringComponent`
/// apart and copies the text out.
#[verifier::external_body]
fn read_component(component: &dockerfile_parser::BreakableStringComponent) -> (read:
    ArgumentComponent)
    ensures
        read@ == component_content(*component),
{
    match component {
        dockerfile_parser::BreakableStringComponent::String(s) => ArgumentComponent::LiteralString {
            content: s.content.clone(),
        },
        dockerfile_parser::BreakableStringComponent::Comment(c) => ArgumentComponent::Comment {
            content: c.content.clone(),
        },
    }
}

/// Carries an instruction's argument components over.
fn convert_components(components: &Vec<dockerfile_parser::BreakableStringComponent>) -> (converted:
    Vec<ArgumentComponent>)
    ensures
        converted@.map_values(|c: ArgumentComponent| c@) == components@.map_values(
            |c: dockerfile_parser::BreakableStringComponent| component_content(c),
        ),
{
    let mut converted: Vec<ArgumentComponent> = Vec::new();
    let n: usize = components.len();
    let mut i: usize = 0;
    while i < n
        invariant
            i <= n == components@.len(),
            converted@.len() == i,
            forall|j: int|
                0 <= j < i ==> (#[trigger] converted@[j])@ == component_content(components@[j]),
        decreases n - i,
    {
        converted.push(read_component(&components[i]));
        i = i + 1;
    }
    assert(converted@.map_values(|c: ArgumentComponent| c@) =~= components@.map_values(
        |c: dockerfile_parser::BreakableStringComponent| component_content(c),
    ));
    converted
}

/// Carries one instruction over.
fn convert_instruction(instruction: &dockerfile_parser::Instruction) -> (converted:
    BuildInstruction)
    ensures
        converted@ == instruction_content(*instruction),
{
    match read_instruction(instruction) {
        BorrowedInstruction::From => BuildInstruction::From,
        BorrowedInstruction::Arg => BuildInstruction::Arg,
        BorrowedInstruction::Label => BuildInstruction::Label,
        BorrowedInstruction::Run => BuildInstruction::Run,
        BorrowedInstruction::Entrypoint => BuildInstruction::Entrypoint,
        BorrowedInstruction::Cmd => BuildInstruction::Cmd,
        BorrowedInstruction::Copy => BuildInstruction::Copy,
        BorrowedInstruction::Env => BuildInstruction::Env,
        BorrowedInstruction::Misc(name, components) => BuildInstruction::Misc {
            name: name.to_owned(),
            arguments: convert_components(components),
        },
    }
}

/// Carries one stage over, giving it `index` as its position.
fn convert_stage(index: usize, stage: &dockerfile_parser::Stage) -> (converted: BuildStage)
    ensures
        converted@ == (BuildStageView {
            index: index as nat,
            parent: stage_content(*stage).parent,
            root: stage_content(*stage).parent is None,
            instructions: stage_content(*stage).instructions,
        }),
{
    let (parent, instructions) = read_stage(stage);
    let mut converted: Vec<BuildInstruction> = Vec::new();
    let n: usize = instructions.len();
    let mut i: usize = 0;
    while i < n
        invariant
            i <= n == instructions@.len(),
            converted@.len() == i,
            forall|j: int|
                0 <= j < i ==> (#[trigger] converted@[j])@ == instruction_content(
                    *instructions@[j],
                ),
        decreases n - i,
    {
        converted.push(convert_instruction(instructions[i]));
        i = i + 1;
    }
    assert(converted@.map_values(|i: BuildInstruction| i@) =~= instructions@.map_values(
        |i: &dockerfile_parser::Instruction| instruction_content(*i),
    ));
    let root = parent.is_none();
    BuildStage { index, parent, root, instructions: converted }
}

/// Reads Dockerfile text into a document.
///
/// The text is handed to the `dockerfile_parser` crate. Where that accepts
/// it, the result is the document of the stages it found, well formed;
/// where it does not, the error carries the parser's message.
pub fn parse(text: &str) -> (outcome: Result<DockerfileDocument, ParseError>)
    ensures
        match outcome {
            Ok(document) => parse_outcome(text@) matches Ok(stages) && document@ == document_of(
                stages,
            ) && document@.wf(),
            Err(error) => parse_outcome(text@) == Err::<Seq<ParsedStage>, Seq<char>>(error@),
        },
{
    match parse_text(text) {
        Ok(dockerfile) => {
            let parsed = split_stages(&dockerfile);
            let ghost stages = dockerfile_stages(dockerfile);
            let mut converted: Vec<BuildStage> = Vec::new();
            let n: usize = parsed.len();
            assert(stages.len() == n);
            let mut i: usize = 0;
            while i < n
                invariant
                    i <= n == parsed@.len(),
                    stages.len() == n,
                    converted@.len() == i,
                    forall|j: int|
                        0 <= j < i ==> (#[trigger] converted@[j])@ == document_of(
                            stages,
                        ).stages[j],
                    parsed@.map_values(|s: dockerfile_parser::Stage| stage_content(s)) == stages,
                decreases n - i,
            {
                let stage = convert_stage(i, &parsed[i]);
                assert(stage_content(parsed@[i as int]) == stages[i as int]);
                converted.push(stage);
                i = i + 1;
            }
            let document = DockerfileDocument { stages: converted };
            assert(document@.stages =~= document_of(stages).stages);
            assert forall|k: int| 0 <= k < document@.stages.len() implies {
                let s = #[trigger] document@.stages[k];
                &&& s.index == k
                &&& s.root == (s.parent is None)
                &&& s.parent matches Some(p) ==> p < k
            } by {
                assert(stage_content(parsed@[k]) == stages[k]);
            }
            Ok(document)
        },
        Err(error) => Err(ParseError { message: error_text(&error) }),
    }
}

/// Reads Dockerfile text and finds the port it exposes.
///
/// Fails where the text cannot be parsed; otherwise gives the port exposed
/// by the document that [`parse`] reads from the text.
pub fn get_port_from_dockerfile(dockerfile: &str) -> (outcome: Result<Option<u16>, ParseError>)
    ensures
        match outcome {
            Ok(port) => parse_outcome(dockerfile@) matches Ok(stages) && port == exposed_port(
                document_of(stages),
            ),
            Err(error) => parse_outcome(dockerfile@) == Err::<Seq<ParsedStage>, Seq<char>>(error@),
        },
{
    match parse(dockerfile) {
        Ok(document) => Ok(extract_exposed_port(&document)),
        Err(error) => Err(error),
    }
}

} // verus!
