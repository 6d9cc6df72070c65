//! The shape of a parsed Dockerfile: stages of instructions.

use vstd::prelude::*;

verus! {

/// One piece of an instruction's argument text.
#[derive(Debug, Clone, PartialEq, Eq)]
pub enum ArgumentComponent {
    /// Text taken as written.
    LiteralString { content: String },
    /// A comment line standing between the pieces of a continued argument.
    Comment { content: String },
}

/// What an [`ArgumentComponent`] holds, as a mathematical value.
pub ghost enum ArgumentComponentView {
    LiteralString { content: Seq<char> },
    Comment { content: Seq<char> },
}

impl View for ArgumentComponent {
    type V = ArgumentComponentView;

    open spec fn view(&self) -> ArgumentComponentView {
        match self {
            ArgumentComponent::LiteralString { content } => ArgumentComponentView::LiteralString {
                content: content@,
            },
            ArgumentComponent::Comment { content } => ArgumentComponentView::Comment {
                content: content@,
            },
        }
    }
}

/// One Dockerfile instruction.
///
/// Only `Misc`, the form every instruction without a dedicated shape takes
/// (`EXPOSE`, `WORKDIR`, `USER`, ...), carries its text; of the others the
/// document records the kind alone.
#[derive(Debug, Clone, PartialEq, Eq)]
pub enum BuildInstruction {
    From,
    Arg,
    Label,
    Run,
    Entrypoint,
    Cmd,
    Copy,
    Env,
    Misc { name: String, arguments: Vec<ArgumentComponent> },
}

/// What an [`BuildInstruction`] holds, as a mathematical value.
pub ghost enum BuildInstructionView {
    From,
    Arg,
    Label,
    Run,
    Entrypoint,
    Cmd,
    Copy,
    Env,
    Misc { name: Seq<char>, arguments: Seq<ArgumentComponentView> },
}

impl View for BuildInstruction {
    type V = BuildInstructionView;

    open spec fn view(&self) -> BuildInstructionView {
        match self {
            BuildInstruction::From => BuildInstructionView::From,
            BuildInstruction::Arg => BuildInstructionView::Arg,
            BuildInstruction::Label => BuildInstructionView::Label,
            BuildInstruction::Run => BuildInstructionView::Run,
            BuildInstruction::Entrypoint => BuildInstructionView::Entrypoint,
            BuildInstruction::Cmd => BuildInstructionView::Cmd,
            BuildInstruction::Copy => BuildInstructionView::Copy,
            BuildInstruction::Env => BuildInstructionView::Env,
            BuildInstruction::Misc { name, arguments } => BuildInstructionView::Misc {
                name: name@,
                arguments: arguments@.map_values(|c: ArgumentComponent| c@),
            },
        }
    }
}

/// One build stage: a `FROM` instruction and what follows it up to the next
/// `FROM`.
#[derive(Debug, Clone, PartialEq, Eq)]
pub struct BuildStage {
    /// Position of the stage in its document, counted from zero.
    pub index: usize,
    /// The earlier stage this one builds on, if it builds on one.
    pub parent: Option<usize>,
    /// Whether the stage starts from an image of its own (or from scratch)
    /// rather than from an earlier stage.
    pub root: bool,
    /// The stage's instructions, in the order written.
    pub instructions: Vec<BuildInstruction>,
}

/// What a [`BuildStage`] holds, as a mathematical value.
pub ghost struct BuildStageView {
    pub index: nat,
    pub parent: Option<nat>,
    pub root: bool,
    pub instructions: Seq<BuildInstructionView>,
}

impl View for BuildStage {
    type V = BuildStageView;

    open spec fn view(&self) -> BuildStageView {
        BuildStageView {
            index: self.index as nat,
            parent: match self.parent {
                Some(p) => Some(p as nat),
                None => None,
            },
            root: self.root,
            instructions: self.instructions@.map_values(|i: BuildInstruction| i@),
        }
    }
}

/// A parsed Dockerfile: its stages in the order written.
#[derive(Debug, Clone, PartialEq, Eq)]
pub struct DockerfileDocument {
    pub stages: Vec<BuildStage>,
}

/// What a [`DockerfileDocument`] holds, as a mathematical value.
pub ghost struct DocumentView {
    pub stages: Seq<BuildStageView>,
}

impl View for DockerfileDocument {
    type V = DocumentView;

    open spec fn view(&self) -> DocumentView {
        DocumentView { stages: self.stages@.map_values(|s: BuildStage| s@) }
    }
}

impl DocumentView {
    /// A document is well formed when each stage's index is its position, a
    /// parent is always an earlier stage, and the stages without a parent are
    /// exactly the root stages.
    pub open spec fn wf(self) -> bool {
        forall|i: int|
            0 <= i < self.stages.len() ==> {
                let s = #[trigger] self.stages[i];
                &&& s.index == i
                &&& s.root == (s.parent is None)
                &&& s.parent matches Some(p) ==> p < i
            }
    }

    /// Every instruction of the document, stage after stage, in the order
    /// written.
    pub open spec fn instructions(self) -> Seq<BuildInstructionView> {
        instructions_of(self.stages)
    }
}

/// In a well-formed document the stage indices grow strictly in the order
/// of the stages, so that no two stages share one.
pub proof fn lemma_indices_increase(document: DocumentView, i: int, j: int)
    requires
        document.wf(),
        0 <= i < j < document.stages.len(),
    ensures
        document.stages[i].index < document.stages[j].index,
{
}

/// The instructions of a run of stages, stage after stage, in the order
/// written.
pub open spec fn instructions_of(stages: Seq<BuildStageView>) -> Seq<BuildInstructionView>
    decreases stages.len(),
{
    if stages.len() == 0 {
        Seq::empty()
    } else {
        instructions_of(stages.drop_last()) + stages.last().instructions
    }
}

} // verus!
