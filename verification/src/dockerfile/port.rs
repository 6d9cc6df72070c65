//! The port a Dockerfile exposes: the one its first `EXPOSE` instruction with
//! literal argument text names.

use vstd::prelude::*;
use super::document::{
    instructions_of, ArgumentComponent, ArgumentComponentView, BuildInstruction,
    BuildInstructionView, DockerfileDocument, DocumentView,
};
use super::number::{parse_port, port_number};

verus! {

/// The argument text in which an instruction names a port: that of an
/// instruction called `EXPOSE` whose first argument component is literal.
/// Any other instruction offers none.
pub open spec fn port_text(instruction: BuildInstructionView) -> Option<Seq<char>> {
    match instruction {
        BuildInstructionView::Misc { name, arguments } => {
            if name == "EXPOSE"@ && arguments.len() > 0 {
                match arguments[0] {
                    ArgumentComponentView::LiteralString { content } => Some(content),
                    ArgumentComponentView::Comment { .. } => None,
                }
            } else {
                None
            }
        },
        _ => None,
    }
}

/// The port text of the first instruction that offers one.
pub open spec fn first_port_text(instructions: Seq<BuildInstructionView>) -> Option<Seq<char>>
    decreases instructions.len(),
{
    if instructions.len() == 0 {
        None
    } else {
        match port_text(instructions.first()) {
            Some(text) => Some(text),
            None => first_port_text(instructions.drop_first()),
        }
    }
}

/// The port a piece of port text stands for: the number it names, unless
/// that is zero or the text names none.
pub open spec fn port_of_text(text: Seq<char>) -> Option<u16> {
    match port_number(text) {
        Some(port) => if port != 0 {
            Some(port)
        } else {
            None
        },
        None => None,
    }
}

/// The port a document exposes. The first instruction, over all stages in
/// the order written, that offers port text decides alone: later ones are
/// not looked at, whatever the first one's text turns out to name.
pub open spec fn exposed_port(document: DocumentView) -> Option<u16> {
    match first_port_text(document.instructions()) {
        Some(text) => port_of_text(text),
        None => None,
    }
}

/// Over two runs of instructions joined, the first run's port text wins;
/// the second is consulted only when the first offers none.
pub proof fn lemma_first_port_text_join(a: Seq<BuildInstructionView>, b: Seq<BuildInstructionView>)
    ensures
        first_port_text(a + b) == match first_port_text(a) {
            Some(text) => Some(text),
            None => first_port_text(b),
        },
    decreases a.len(),
{
    if a.len() == 0 {
        assert(a + b == b);
    } else {
        assert((a + b).first() == a.first());
        assert((a + b).drop_first() == a.drop_first() + b);
        lemma_first_port_text_join(a.drop_first(), b);
    }
}

/// The first port text is that of the earliest instruction offering one:
/// `Some(text)` exactly when some instruction offers `text` and none
/// before it offers any.
pub proof fn lemma_first_port_text_is_earliest(instructions: Seq<BuildInstructionView>, k: int)
    requires
        0 <= k < instructions.len(),
        port_text(instructions[k]) is Some,
        forall|j: int| 0 <= j < k ==> port_text(#[trigger] instructions[j]) is None,
    ensures
        first_port_text(instructions) == port_text(instructions[k]),
    decreases k,
{
    if k > 0 {
        let rest = instructions.drop_first();
        assert forall|j: int| 0 <= j < k - 1 implies port_text(#[trigger] rest[j]) is None by {
            assert(rest[j] == instructions[j + 1]);
        }
        assert(rest[k - 1] == instructions[k]);
        lemma_first_port_text_is_earliest(rest, k - 1);
    }
}

/// Where no instruction offers port text, there is no first one.
pub proof fn lemma_first_port_text_none(instructions: Seq<BuildInstructionView>)
    requires
        forall|j: int|
            0 <= j < instructions.len() ==> port_text(#[trigger] instructions[j]) is None,
    ensures
        first_port_text(instructions) is None,
    decreases instructions.len(),
{
    if instructions.len() > 0 {
        let rest = instructions.drop_first();
        assert forall|j: int| 0 <= j < rest.len() implies port_text(#[trigger] rest[j]) is None by {
            assert(rest[j] == instructions[j + 1]);
        }
        lemma_first_port_text_none(rest);
    }
}

/// The instructions of a document's first `k + 1` stages are those of its
/// first `k` stages followed by those of stage `k`.
pub proof fn lemma_instructions_step(document: DocumentView, k: int)
    requires
        0 <= k < document.stages.len(),
    ensures
        instructions_of(document.stages.take(k + 1)) == instructions_of(document.stages.take(k))
            + document.stages[k].instructions,
{
    let upto = document.stages.take(k + 1);
    assert(upto.drop_last() == document.stages.take(k));
    assert(upto.last() == document.stages[k]);
}

/// Port text found among a document's first `k` stages is the document's
/// first port text.
pub proof fn lemma_first_port_text_settled(document: DocumentView, k: int)
    requires
        0 <= k <= document.stages.len(),
        first_port_text(instructions_of(document.stages.take(k))) is Some,
    ensures
        first_port_text(document.instructions()) == first_port_text(
            instructions_of(document.stages.take(k)),
        ),
    decreases document.stages.len() - k,
{
    if k == document.stages.len() {
        assert(document.stages.take(k) == document.stages);
    } else {
        lemma_instructions_step(document, k);
        lemma_first_port_text_join(
            instructions_of(document.stages.take(k)),
            document.stages[k].instructions,
        );
        lemma_first_port_text_settled(document, k + 1);
    }
}

/// Whether an instruction is an `EXPOSE` instruction.
pub open spec fn is_expose(instruction: BuildInstructionView) -> bool {
    instruction matches BuildInstructionView::Misc { name, .. } && name == "EXPOSE"@
}

/// The first occurrence wins, over the whole document: the earliest
/// instruction that offers port text decides what is exposed, whatever
/// stands after it, in its own stage or in a later one.
pub proof fn lemma_first_expose_decides(document: DocumentView, k: int)
    requires
        0 <= k < document.instructions().len(),
        port_text(document.instructions()[k]) is Some,
        forall|j: int| 0 <= j < k ==> port_text(#[trigger] document.instructions()[j]) is None,
    ensures
        exposed_port(document) == port_of_text(port_text(document.instructions()[k]).unwrap()),
{
    lemma_first_port_text_is_earliest(document.instructions(), k);
}

/// A document with exactly one `EXPOSE` instruction, whose first argument
/// is literal text naming a port greater than zero, exposes that port.
pub proof fn lemma_single_expose(document: DocumentView, k: int, text: Seq<char>, port: u16)
    requires
        0 <= k < document.instructions().len(),
        forall|j: int|
            0 <= j < document.instructions().len() && j != k ==> !is_expose(
                #[trigger] document.instructions()[j],
            ),
        is_expose(document.instructions()[k]),
        port_text(document.instructions()[k]) == Some(text),
        port_number(text) == Some(port),
        port > 0,
    ensures
        exposed_port(document) == Some(port),
{
    lemma_first_expose_decides(document, k);
}

/// A document without an `EXPOSE` instruction exposes no port.
pub proof fn lemma_no_expose_no_port(document: DocumentView)
    requires
        forall|j: int|
            0 <= j < document.instructions().len() ==> !is_expose(
                #[trigger] document.instructions()[j],
            ),
    ensures
        exposed_port(document) is None,
{
    lemma_first_port_text_none(document.instructions());
}

/// Port zero is no port: where the first port text of a document names
/// zero, the document exposes nothing.
pub proof fn lemma_port_zero_not_exposed(document: DocumentView, k: int, text: Seq<char>)
    requires
        0 <= k < document.instructions().len(),
        port_text(document.instructions()[k]) == Some(text),
        forall|j: int| 0 <= j < k ==> port_text(#[trigger] document.instructions()[j]) is None,
        port_number(text) == Some(0u16),
    ensures
        exposed_port(document) is None,
{
    lemma_first_expose_decides(document, k);
}

/// Finds the port a document exposes.
///
/// Stages are scanned in order, and the instructions of each in order. The
/// first `EXPOSE` instruction whose first argument component is literal text
/// ends the scan: the result is the port that text names, or `None` where it
/// names none or names port zero. An `EXPOSE` whose first component is not
/// literal is passed over.
pub fn extract_exposed_port(document: &DockerfileDocument) -> (port: Option<u16>)
    ensures
        port == exposed_port(document@),
{
    let keyword: String = "EXPOSE".to_owned();
    let stage_count: usize = document.stages.len();
    let mut s: usize = 0;
    while s < stage_count
        invariant
            s <= stage_count == document.stages@.len(),
            keyword@ == "EXPOSE"@,
            first_port_text(instructions_of(document@.stages.take(s as int))) is None,
        decreases stage_count - s,
    {
        let stage = &document.stages[s];
        let ghost before = instructions_of(document@.stages.take(s as int));
        let ghost body = document@.stages[s as int].instructions;
        assert(body == stage@.instructions);
        let len: usize = stage.instructions.len();
        let mut i: usize = 0;
        while i < len
            invariant
                i <= len == stage.instructions@.len(),
                s < stage_count == document.stages@.len(),
                keyword@ == "EXPOSE"@,
                body == stage@.instructions,
                body == document@.stages[s as int].instructions,
                before == instructions_of(document@.stages.take(s as int)),
                first_port_text(before) is None,
                forall|j: int| 0 <= j < i ==> port_text(#[trigger] body[j]) is None,
            decreases len - i,
        {
            let instruction = &stage.instructions[i];
            assert(body[i as int] == instruction@);
            match instruction {
                BuildInstruction::Misc { name, arguments } => {
                    if *name == keyword && arguments.len() > 0 {
                        match &arguments[0] {
                            ArgumentComponent::LiteralString { content } => {
                                let number = parse_port(content.as_str());
                                proof {
                                    assert(port_text(body[i as int]) == Some(content@));
                                    lemma_first_port_text_is_earliest(body, i as int);
                                    lemma_instructions_step(document@, s as int);
                                    lemma_first_port_text_join(before, body);
                                    lemma_first_port_text_settled(document@, s + 1);
                                }
                                return match number {
                                    Some(value) => if value != 0 {
                                        Some(value)
                                    } else {
                                        None
                                    },
                                    None => None,
                                };
                            },
                            ArgumentComponent::Comment { .. } => {},
                        }
                    }
                },
                _ => {},
            }
            i = i + 1;
        }
        proof {
            lemma_first_port_text_none(body);
            lemma_instructions_step(document@, s as int);
            lemma_first_port_text_join(before, body);
        }
        s = s + 1;
    }
    assert(document@.stages.take(s as int) == document@.stages);
    None
}

} // verus!
