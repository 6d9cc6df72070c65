use image_build::orchestrator::{
    build_options, surface_events, BuildError, BuildEvent, BuilderKind, DaemonMessage, EventStream,
};

fn aux(payload: &str) -> DaemonMessage {
    DaemonMessage::Aux { payload: payload.to_string() }
}

fn log(line: &str) -> DaemonMessage {
    DaemonMessage::Log { line: line.to_string() }
}

fn failure(message: &str) -> DaemonMessage {
    DaemonMessage::Failure { message: message.to_string() }
}

fn progress(payload: &str) -> BuildEvent {
    BuildEvent::AuxInfo { payload: payload.to_string() }
}

fn error(last_aux: Option<&str>, message: &str) -> BuildEvent {
    BuildEvent::Error {
        error: BuildError {
            last_aux: last_aux.map(|payload| payload.to_string()),
            message: message.to_string(),
        },
    }
}

#[test]
fn request_for_an_image() {
    let request = build_options("myimage");
    assert_eq!(request.tag, "myimage");
    assert_eq!(request.dockerfile_path, "Dockerfile");
    assert_eq!(request.builder, BuilderKind::BuildKit);
    assert!(request.pull);
    assert_eq!(request.session, "myimage");
}

#[test]
fn request_for_an_image_without_a_name() {
    let request = build_options("");
    assert_eq!(request.tag, "");
    assert_eq!(request.session, "");
    assert_eq!(request.dockerfile_path, "Dockerfile");
}

#[test]
fn build_that_fails_midway_ends_with_the_error() {
    let messages = vec![
        aux("step 1"),
        log("Step 1/3 : FROM alpine"),
        aux("step 2"),
        failure("The command '/bin/sh -c false' returned a non-zero code: 1"),
        aux("step 3"),
        log("never shown"),
        failure("a second failure"),
    ];
    assert_eq!(
        surface_events(&messages),
        vec![
            progress("step 1"),
            progress("step 2"),
            error(Some("step 2"), "The command '/bin/sh -c false' returned a non-zero code: 1"),
        ]
    );
}

#[test]
fn nothing_is_given_after_a_failure() {
    let mut stream = EventStream::new();
    assert!(!stream.is_finished());
    assert_eq!(stream.next(&aux("a")), Some(progress("a")));
    assert!(!stream.is_finished());
    assert_eq!(stream.next(&failure("boom")), Some(error(Some("a"), "boom")));
    assert!(stream.is_finished());
    assert_eq!(stream.next(&aux("b")), None);
    assert_eq!(stream.next(&log("c")), None);
    assert_eq!(stream.next(&failure("again")), None);
    assert!(stream.is_finished());
}

#[test]
fn log_lines_are_dropped() {
    let messages = vec![log("a"), aux("1"), log("b"), log("c"), aux("2"), log("d")];
    assert_eq!(surface_events(&messages), vec![progress("1"), progress("2")]);
    let mut stream = EventStream::new();
    assert_eq!(stream.next(&log("only a line")), None);
    assert!(!stream.is_finished());
}

#[test]
fn failure_without_progress_before_it() {
    assert_eq!(surface_events(&vec![failure("no such image")]), vec![error(None, "no such image")]);
    assert_eq!(
        surface_events(&vec![log("x"), failure("no such image")]),
        vec![error(None, "no such image")]
    );
}

#[test]
fn error_carries_the_last_progress_only() {
    let messages = vec![aux("1"), aux("2"), aux("3"), log("x"), failure("f")];
    assert_eq!(
        surface_events(&messages),
        vec![progress("1"), progress("2"), progress("3"), error(Some("3"), "f")]
    );
}

#[test]
fn build_that_succeeds_gives_progress_only() {
    assert_eq!(surface_events(&Vec::new()), Vec::new());
    assert_eq!(surface_events(&vec![aux("a"), aux("a")]), vec![progress("a"), progress("a")]);
}

#[test]
fn stream_and_whole_run_agree() {
    let messages = vec![log("l"), aux("1"), failure("f"), aux("2")];
    let mut stream = EventStream::new();
    let mut seen = Vec::new();
    for message in &messages {
        if let Some(event) = stream.next(message) {
            seen.push(event);
        }
    }
    assert_eq!(seen, surface_events(&messages));
}
