use image_build::dockerfile::document::{
    ArgumentComponent, BuildInstruction, BuildStage, DockerfileDocument,
};
use image_build::dockerfile::number::{is_space, parse_port};
use image_build::dockerfile::parser::{get_port_from_dockerfile, parse};
use image_build::dockerfile::port::extract_exposed_port;

fn literal(text: &str) -> ArgumentComponent {
    ArgumentComponent::LiteralString { content: text.to_string() }
}

fn comment(text: &str) -> ArgumentComponent {
    ArgumentComponent::Comment { content: text.to_string() }
}

fn misc(name: &str, arguments: Vec<ArgumentComponent>) -> BuildInstruction {
    BuildInstruction::Misc { name: name.to_string(), arguments }
}

fn stage(index: usize, instructions: Vec<BuildInstruction>) -> BuildStage {
    BuildStage { index, parent: None, root: true, instructions }
}

#[test]
fn get_port_dockerfile() {
    let dockerfile = String::from(
        "FROM alpine as builder1
RUN touch bollard.txt
FROM alpine as builder2
RUN --mount=type=bind,from=builder1,target=mnt cp mnt/bollard.txt buildkit-bollard.txt
EXPOSE 3000
ENTRYPOINT ls buildkit-bollard.txt
        ",
    );
    let port = get_port_from_dockerfile(&dockerfile).unwrap();
    assert!(port.is_some());
    assert_eq!(3000 as u16, port.unwrap());
}

#[test]
fn single_expose_gives_its_port() {
    assert_eq!(get_port_from_dockerfile("FROM alpine\nEXPOSE 8080\n").unwrap(), Some(8080));
    assert_eq!(get_port_from_dockerfile("FROM alpine\nEXPOSE 1\n").unwrap(), Some(1));
    assert_eq!(get_port_from_dockerfile("FROM alpine\nEXPOSE 65535\n").unwrap(), Some(65535));
    assert_eq!(get_port_from_dockerfile("FROM alpine\nEXPOSE   443  \n").unwrap(), Some(443));
}

#[test]
fn no_expose_gives_no_port() {
    assert_eq!(get_port_from_dockerfile("FROM alpine\nRUN echo hello\n").unwrap(), None);
    assert_eq!(get_port_from_dockerfile("FROM alpine\nWORKDIR /srv\nUSER nobody\n").unwrap(), None);
    assert_eq!(get_port_from_dockerfile("").unwrap(), None);
}

#[test]
fn expose_zero_gives_no_port() {
    assert_eq!(get_port_from_dockerfile("FROM alpine\nEXPOSE 0\n").unwrap(), None);
    assert_eq!(get_port_from_dockerfile("FROM alpine\nEXPOSE 000\n").unwrap(), None);
}

#[test]
fn first_expose_wins_across_stages() {
    let text = "FROM alpine as first\nEXPOSE 8080\nFROM alpine as second\nEXPOSE 9090\n";
    assert_eq!(get_port_from_dockerfile(text).unwrap(), Some(8080));
}

#[test]
fn first_expose_wins_within_a_stage() {
    let text = "FROM alpine\nEXPOSE 8080\nEXPOSE 9090\n";
    assert_eq!(get_port_from_dockerfile(text).unwrap(), Some(8080));
}

#[test]
fn first_expose_decides_even_when_it_names_no_port() {
    assert_eq!(get_port_from_dockerfile("FROM alpine\nEXPOSE 0\nEXPOSE 9090\n").unwrap(), None);
    assert_eq!(get_port_from_dockerfile("FROM alpine\nEXPOSE 80/tcp\nEXPOSE 9090\n").unwrap(), None);
    assert_eq!(get_port_from_dockerfile("FROM alpine\nEXPOSE 80 443\n").unwrap(), None);
    assert_eq!(get_port_from_dockerfile("FROM alpine\nEXPOSE 70000\n").unwrap(), None);
    assert_eq!(get_port_from_dockerfile("FROM alpine\nEXPOSE $PORT\n").unwrap(), None);
}

#[test]
fn instruction_name_is_matched_exactly() {
    assert_eq!(get_port_from_dockerfile("FROM alpine\nexpose 8080\n").unwrap(), None);
    assert_eq!(get_port_from_dockerfile("FROM alpine\nExpose 8080\nEXPOSE 81\n").unwrap(), Some(81));
}

#[test]
fn malformed_text_is_a_parse_error() {
    let error = get_port_from_dockerfile("FROM\n").unwrap_err();
    assert!(error.message.starts_with("could not parse Dockerfile"));
    assert_eq!(error.to_string(), error.message);
    assert!(parse("123 abc\n").is_err());
    assert!(parse("FROM alpine\nRUN\n").is_err());
    assert_eq!(parse("FROM\n").unwrap_err(), error);
}

#[test]
fn instruction_that_fits_no_known_shape_is_kept_as_written() {
    let document = parse("FROM alpine\nCOPY onlyone\n").unwrap();
    assert_eq!(
        document.stages[0].instructions,
        vec![BuildInstruction::From, misc("COPY", vec![literal(" onlyone")])]
    );
}

#[test]
fn parse_reads_stages_in_order() {
    let text = "FROM alpine:3.12 as build\nRUN echo hello\nEXPOSE 8080\nFROM build as final\nCOPY /a /b\nFROM scratch\n";
    let document = parse(text).unwrap();
    assert_eq!(document.stages.len(), 3);
    assert_eq!(document.stages[0].index, 0);
    assert_eq!(document.stages[1].index, 1);
    assert_eq!(document.stages[2].index, 2);
    assert_eq!(document.stages[0].parent, None);
    assert!(document.stages[0].root);
    assert_eq!(document.stages[1].parent, Some(0));
    assert!(!document.stages[1].root);
    assert_eq!(document.stages[2].parent, None);
    assert!(document.stages[2].root);
    assert_eq!(
        document.stages[0].instructions,
        vec![
            BuildInstruction::From,
            BuildInstruction::Run,
            misc("EXPOSE", vec![literal(" 8080")]),
        ]
    );
    assert_eq!(document.stages[1].instructions, vec![BuildInstruction::From, BuildInstruction::Copy]);
    assert_eq!(document.stages[2].instructions, vec![BuildInstruction::From]);
    assert_eq!(extract_exposed_port(&document), Some(8080));
}

#[test]
fn parse_tells_the_instruction_kinds_apart() {
    let text = "ARG tag=latest\nFROM alpine:$tag\nLABEL a=b\nENV k=v\nRUN true\nCOPY a b\nENTRYPOINT [\"x\"]\nCMD [\"y\"]\nVOLUME /data\n";
    let document = parse(text).unwrap();
    assert_eq!(document.stages.len(), 1);
    assert_eq!(
        document.stages[0].instructions,
        vec![
            BuildInstruction::From,
            BuildInstruction::Label,
            BuildInstruction::Env,
            BuildInstruction::Run,
            BuildInstruction::Copy,
            BuildInstruction::Entrypoint,
            BuildInstruction::Cmd,
            misc("VOLUME", vec![literal(" /data")]),
        ]
    );
}

#[test]
fn parse_keeps_comments_between_continued_lines() {
    let text = "FROM alpine\nEXPOSE \\\n# the web port\n8080\n";
    let document = parse(text).unwrap();
    let instructions = &document.stages[0].instructions;
    assert_eq!(instructions.len(), 2);
    match &instructions[1] {
        BuildInstruction::Misc { name, arguments } => {
            assert_eq!(name, "EXPOSE");
            assert!(arguments.iter().any(|c| matches!(c, ArgumentComponent::Comment { .. })));
            assert!(arguments.len() >= 2);
        }
        other => panic!("unexpected instruction {:?}", other),
    }
}

#[test]
fn instructions_before_the_first_from_belong_to_no_stage() {
    let document = parse("EXPOSE 8080\nFROM alpine\n").unwrap();
    assert_eq!(document.stages.len(), 1);
    assert_eq!(document.stages[0].instructions, vec![BuildInstruction::From]);
    assert_eq!(extract_exposed_port(&document), None);
}

#[test]
fn extract_on_a_document_written_by_hand() {
    let document = DockerfileDocument {
        stages: vec![
            stage(0, vec![BuildInstruction::From, misc("EXPOSE", vec![literal("8080")])]),
            stage(1, vec![BuildInstruction::From, misc("EXPOSE", vec![literal("9090")])]),
        ],
    };
    assert_eq!(extract_exposed_port(&document), Some(8080));
}

#[test]
fn extract_passes_over_what_offers_no_literal() {
    let document = DockerfileDocument {
        stages: vec![
            stage(
                0,
                vec![
                    BuildInstruction::From,
                    misc("EXPOSE", vec![comment("# not yet"), literal("1111")]),
                    misc("EXPOSE", vec![]),
                    misc("WORKDIR", vec![literal("2222")]),
                ],
            ),
            stage(1, vec![BuildInstruction::Run, misc("EXPOSE", vec![literal(" 3333 "), literal("4444")])]),
        ],
    };
    assert_eq!(extract_exposed_port(&document), Some(3333));
}

#[test]
fn extract_on_empty_documents() {
    assert_eq!(extract_exposed_port(&DockerfileDocument { stages: vec![] }), None);
    assert_eq!(extract_exposed_port(&DockerfileDocument { stages: vec![stage(0, vec![])] }), None);
}

#[test]
fn parse_port_reads_decimal_numbers() {
    assert_eq!(parse_port("8080"), Some(8080));
    assert_eq!(parse_port(" 8080"), Some(8080));
    assert_eq!(parse_port("\t8080 \r"), Some(8080));
    assert_eq!(parse_port("\u{3000}80\u{a0}"), Some(80));
    assert_eq!(parse_port("+80"), Some(80));
    assert_eq!(parse_port("0080"), Some(80));
    assert_eq!(parse_port("0"), Some(0));
    assert_eq!(parse_port("65535"), Some(65535));
    assert_eq!(parse_port("000000000000000000065535"), Some(65535));
}

#[test]
fn parse_port_refuses_what_is_no_port() {
    assert_eq!(parse_port(""), None);
    assert_eq!(parse_port("   "), None);
    assert_eq!(parse_port("+"), None);
    assert_eq!(parse_port("++80"), None);
    assert_eq!(parse_port("-80"), None);
    assert_eq!(parse_port("65536"), None);
    assert_eq!(parse_port("99999999999999999999999999"), None);
    assert_eq!(parse_port("80/tcp"), None);
    assert_eq!(parse_port("80 443"), None);
    assert_eq!(parse_port("8_0"), None);
    assert_eq!(parse_port("0x50"), None);
    assert_eq!(parse_port("\u{0663}"), None);
    assert_eq!(parse_port("$PORT"), None);
}

#[test]
fn parse_port_agrees_with_the_standard_library() {
    let samples = [
        "", " ", "0", "1", "9", "10", "080", " 80 ", "+1", "+", "-1", "- 1", "1 ", "1\n", "\n1",
        "65534", "65535", "65536", "65540", "70000", "655350", "4294967296", "1e3", "1.0", "１２",
        "+0", "+65535", "+65536", " +7 ", "+ 7", "7+", "0000", "\u{2003}22\u{2003}", "\u{200b}22",
        "\u{85}5\u{1680}", "\u{feff}5", "3\u{0}", "٣",
    ];
    for sample in samples {
        assert_eq!(parse_port(sample), sample.trim().parse::<u16>().ok(), "on {:?}", sample);
    }
    for value in 0u32..70000 {
        let text = format!(" {}", value);
        assert_eq!(parse_port(&text), text.trim().parse::<u16>().ok());
    }
}

#[test]
fn is_space_agrees_with_the_standard_library() {
    for code in 0u32..=0x10ffff {
        if let Some(c) = char::from_u32(code) {
            assert_eq!(is_space(c), c.is_whitespace(), "on U+{:04X}", code);
        }
    }
}
