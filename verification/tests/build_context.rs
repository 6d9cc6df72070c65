use image_build::archive::context::{build_archive, build_context, ArchiveError};
use std::io::Read;

fn octal(value: u64, digits: usize) -> Vec<u8> {
    let mut field = format!("{:0width$o}", value, width = digits).into_bytes();
    field.push(0);
    field
}

fn expected_header(size: u64) -> Vec<u8> {
    let mut block = vec![0u8; 512];
    block[..10].copy_from_slice(b"Dockerfile");
    block[100..108].copy_from_slice(&octal(0o755, 7));
    block[124..136].copy_from_slice(&octal(size, 11));
    block[136..148].copy_from_slice(&octal(0, 11));
    block[257..263].copy_from_slice(b"ustar ");
    block[263..265].copy_from_slice(b" \0");
    let mut sum: u64 = 0;
    for (at, byte) in block.iter().enumerate() {
        sum += if (148..156).contains(&at) { 32 } else { u64::from(*byte) };
    }
    block[148..156].copy_from_slice(&octal(sum, 7));
    block
}

fn expected_archive(text: &str) -> Vec<u8> {
    let mut archive = expected_header(text.len() as u64);
    archive.extend_from_slice(text.as_bytes());
    while archive.len() % 512 != 0 {
        archive.push(0);
    }
    archive.extend_from_slice(&[0u8; 1024]);
    archive
}

fn gunzip(bytes: &[u8]) -> Vec<u8> {
    let mut decoder = flate2::read::GzDecoder::new(bytes);
    let mut out = Vec::new();
    decoder.read_to_end(&mut out).unwrap();
    out
}

const SAMPLE: &str = "FROM alpine as builder1
RUN touch bollard.txt
FROM alpine as builder2
RUN --mount=type=bind,from=builder1,target=mnt cp mnt/bollard.txt buildkit-bollard.txt
ENTRYPOINT ls buildkit-bollard.txt
";

#[test]
fn context_round_trips() {
    let context = build_context(SAMPLE).unwrap();
    let mut archive = tar::Archive::new(flate2::read::GzDecoder::new(&context[..]));
    let mut entries = archive.entries().unwrap();
    let mut entry = entries.next().unwrap().unwrap();
    assert_eq!(entry.path().unwrap().to_str(), Some("Dockerfile"));
    assert_eq!(entry.header().entry_type(), tar::EntryType::Regular);
    assert_eq!(entry.header().mode().unwrap(), 0o755);
    assert_eq!(entry.header().size().unwrap(), SAMPLE.len() as u64);
    assert_eq!(entry.header().mtime().unwrap(), 0);
    let mut content = Vec::new();
    entry.read_to_end(&mut content).unwrap();
    assert_eq!(content, SAMPLE.as_bytes());
    drop(entry);
    assert!(entries.next().is_none());
}

#[test]
fn context_round_trips_for_many_texts() {
    let texts = [
        String::new(),
        "FROM scratch".to_string(),
        "FROM alpine\nEXPOSE 8080\n".to_string(),
        "# caf\u{e9} \u{1f40b}\nFROM alpine\n".to_string(),
        "x".repeat(511),
        "x".repeat(512),
        "x".repeat(513),
        "line\n".repeat(5000),
    ];
    for text in &texts {
        let context = build_context(text).unwrap();
        let mut archive = tar::Archive::new(flate2::read::GzDecoder::new(&context[..]));
        let mut seen = 0;
        for entry in archive.entries().unwrap() {
            let mut entry = entry.unwrap();
            assert_eq!(entry.path_bytes().as_ref(), b"Dockerfile");
            let mut content = String::new();
            entry.read_to_string(&mut content).unwrap();
            assert_eq!(&content, text);
            seen += 1;
        }
        assert_eq!(seen, 1);
    }
}

#[test]
fn context_is_deterministic() {
    let first = build_context(SAMPLE).unwrap();
    let second = build_context(SAMPLE).unwrap();
    assert_eq!(first, second);
    assert_ne!(first, build_context("FROM scratch\n").unwrap());
}

#[test]
fn context_is_a_gzip_stream_of_the_archive() {
    let archive = build_archive(SAMPLE).unwrap();
    let context = build_context(SAMPLE).unwrap();
    assert_ne!(context, archive);
    assert_eq!(&context[..4], &[0x1f, 0x8b, 0x08, 0x00]);
    assert_eq!(&context[4..8], &[0, 0, 0, 0]);
    assert!(context.len() < archive.len());
    assert_eq!(gunzip(&context), archive);
}

#[test]
fn archive_is_laid_out_byte_for_byte() {
    for text in ["", "FROM scratch\n", SAMPLE] {
        assert_eq!(build_archive(text).unwrap(), expected_archive(text));
    }
    let long = "y".repeat(4097);
    assert_eq!(build_archive(&long).unwrap(), expected_archive(&long));
}

#[test]
fn archive_header_for_a_known_text() {
    let archive = build_archive("FROM scratch\n").unwrap();
    assert_eq!(archive.len(), 2048);
    assert_eq!(&archive[..11], b"Dockerfile\0");
    assert_eq!(&archive[100..108], b"0000755\0");
    assert_eq!(&archive[108..124], &[0u8; 16]);
    assert_eq!(&archive[124..136], b"00000000015\0");
    assert_eq!(&archive[136..148], b"00000000000\0");
    assert_eq!(&archive[148..156], b"0006356\0");
    assert_eq!(archive[156], 0);
    assert_eq!(&archive[257..265], b"ustar  \0");
    assert_eq!(&archive[512..525], b"FROM scratch\n");
    assert!(archive[525..].iter().all(|byte| *byte == 0));
}

#[test]
fn archive_sizes() {
    assert_eq!(build_archive("").unwrap().len(), 512 + 1024);
    assert_eq!(build_archive("x").unwrap().len(), 512 + 512 + 1024);
    assert_eq!(build_archive(&"x".repeat(512)).unwrap().len(), 512 + 512 + 1024);
    assert_eq!(build_archive(&"x".repeat(513)).unwrap().len(), 512 + 1024 + 1024);
    assert_eq!(build_archive("\u{20ac}").unwrap()[124..136], *b"00000000003\0");
}

#[test]
fn archive_error_as_text() {
    let error = ArchiveError::Construction { message: "disk full".to_string() };
    assert_eq!(error.to_string(), "cannot write the build context: disk full");
    let error = ArchiveError::Compression { message: "bad stream".to_string() };
    assert_eq!(error.to_string(), "cannot compress the build context: bad stream");
}
