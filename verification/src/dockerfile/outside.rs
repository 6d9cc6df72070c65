//! The types of the `dockerfile_parser` crate that the parser module passes
//! through. Nothing inside them is visible to the verifier.

use vstd::prelude::*;

verus! {

#[verifier::external_type_specification]
#[verifier::external_body]
pub struct ExDockerfile(dockerfile_parser::Dockerfile);

#[verifier::external_type_specification]
#[verifier::external_body]
pub struct ExParserError(dockerfile_parser::Error);

#[verifier::external_type_specification]
#[verifier::external_body]
pub struct ExParserStage<'a>(dockerfile_parser::Stage<'a>);

#[verifier::external_type_specification]
#[verifier::external_body]
pub struct ExParserInstruction(dockerfile_parser::Instruction);

#[verifier::external_type_specification]
#[verifier::external_body]
pub struct ExParserComponent(dockerfile_parser::BreakableStringComponent);

} // verus!
