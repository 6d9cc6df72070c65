//! The build itself: what is asked of the daemon, and which of the events
//! it streams back reach the caller.
//!
//! The daemon sends three kinds of message: structured progress of the
//! builder, plain log lines, and the report of a failed build. Progress is
//! handed on, log lines are dropped, and a failure ends the sequence with an
//! error that carries the daemon's words and the last progress seen.

use vstd::prelude::*;

verus! {

/// The builder that the daemon is to use.
#[derive(Debug, Clone, Copy, PartialEq, Eq)]
pub enum BuilderKind {
    BuildKit,
}

/// What is asked of the daemon's build endpoint.
#[derive(Debug, Clone, PartialEq, Eq)]
pub struct BuildRequest {
    /// The name the built image gets.
    pub tag: String,
    /// Where in the build context the Dockerfile lies.
    pub dockerfile_path: String,
    pub builder: BuilderKind,
    /// Whether to pull the base image even where an older one is at hand.
    pub pull: bool,
    /// The identifier of the build session.
    pub session: String,
}

/// What a [`BuildRequest`] holds, as a mathematical value.
pub ghost struct BuildRequestView {
    pub tag: Seq<char>,
    pub dockerfile_path: Seq<char>,
    pub builder: BuilderKind,
    pub pull: bool,
    pub session: Seq<char>,
}

impl View for BuildRequest {
    type V = BuildRequestView;

    open spec fn view(&self) -> BuildRequestView {
        BuildRequestView {
            tag: self.tag@,
            dockerfile_path: self.dockerfile_path@,
            builder: self.builder,
            pull: self.pull,
            session: self.session@,
        }
    }
}

/// The request that builds the image `id`: the image identifier is both the
/// tag and the session, the Dockerfile lies at `Dockerfile`, the builder is
/// BuildKit, and the base image is pulled.
pub open spec fn request_for(id: Seq<char>) -> BuildRequestView {
    BuildRequestView {
        tag: id,
        dockerfile_path: "Dockerfile"@,
        builder: BuilderKind::BuildKit,
        pull: true,
        session: id,
    }
}

/// Makes the request that builds the image `id`.
pub fn build_options(id: &str) -> (request: BuildRequest)
    ensures
        request@ == request_for(id@),
{
    BuildRequest {
        tag: id.to_owned(),
        dockerfile_path: "Dockerfile".to_owned(),
        builder: BuilderKind::BuildKit,
        pull: true,
        session: id.to_owned(),
    }
}

/// A message of the daemon on the build stream.
#[derive(Debug, Clone, PartialEq, Eq)]
pub enum DaemonMessage {
    /// Structured progress of the builder.
    Aux { payload: String },
    /// A line of plain build log.
    Log { line: String },
    /// The report that the build failed.
    Failure { message: String },
}

/// What a [`DaemonMessage`] holds, as a mathematical value.
pub ghost enum DaemonMessageView {
    Aux { payload: Seq<char> },
    Log { line: Seq<char> },
    Failure { message: Seq<char> },
}

impl View for DaemonMessage {
    type V = DaemonMessageView;

    open spec fn view(&self) -> DaemonMessageView {
        match self {
            DaemonMessage::Aux { payload } => DaemonMessageView::Aux { payload: payload@ },
            DaemonMessage::Log { line } => DaemonMessageView::Log { line: line@ },
            DaemonMessage::Failure { message } => DaemonMessageView::Failure { message: message@ },
        }
    }
}

/// A failed build: the daemon's words, and the last progress that came
/// before them.
#[derive(Debug, Clone, PartialEq, Eq)]
pub struct BuildError {
    pub last_aux: Option<String>,
    pub message: String,
}

/// What a [`BuildError`] holds, as a mathematical value.
pub ghost struct BuildErrorView {
    pub last_aux: Option<Seq<char>>,
    pub message: Seq<char>,
}

impl View for BuildError {
    type V = BuildErrorView;

    open spec fn view(&self) -> BuildErrorView {
        BuildErrorView {
            last_aux: match self.last_aux {
                Some(payload) => Some(payload@),
                None => None,
            },
            message: self.message@,
        }
    }
}

/// An event of the build as the caller sees it.
#[derive(Debug, Clone, PartialEq, Eq)]
pub enum BuildEvent {
    /// Structured progress of the builder.
    AuxInfo { payload: String },
    /// The build failed; no event follows.
    Error { error: BuildError },
}

/// What a [`BuildEvent`] holds, as a mathematical value.
pub ghost enum BuildEventView {
    AuxInfo { payload: Seq<char> },
    Error { error: BuildErrorView },
}

impl View for BuildEvent {
    type V = BuildEventView;

    open spec fn view(&self) -> BuildEventView {
        match self {
            BuildEvent::AuxInfo { payload } => BuildEventView::AuxInfo { payload: payload@ },
            BuildEvent::Error { error } => BuildEventView::Error { error: error@ },
        }
    }
}

/// Where the first failure stands among the messages; their number where
/// none of them is a failure.
pub open spec fn first_failure(messages: Seq<DaemonMessageView>) -> nat
    decreases messages.len(),
{
    if messages.len() == 0 || messages.first() is Failure {
        0
    } else {
        1 + first_failure(messages.drop_first())
    }
}

/// One progress event for each progress message, in order; log lines leave
/// no trace.
pub open spec fn aux_events(messages: Seq<DaemonMessageView>) -> Seq<BuildEventView>
    decreases messages.len(),
{
    if messages.len() == 0 {
        Seq::empty()
    } else {
        match messages.last() {
            DaemonMessageView::Aux { payload } => aux_events(messages.drop_last()).push(
                BuildEventView::AuxInfo { payload },
            ),
            _ => aux_events(messages.drop_last()),
        }
    }
}

/// The payload of the last progress message, if there is one.
pub open spec fn last_payload(messages: Seq<DaemonMessageView>) -> Option<Seq<char>>
    decreases messages.len(),
{
    if messages.len() == 0 {
        None
    } else {
        match messages.last() {
            DaemonMessageView::Aux { payload } => Some(payload),
            _ => last_payload(messages.drop_last()),
        }
    }
}

/// The events that the caller sees of a run of daemon messages: the
/// progress up to the first failure, then, where there is a failure, one
/// error with the daemon's words and the last progress before it. What the
/// daemon sends after a failure is not looked at.
pub open spec fn surfaced(messages: Seq<DaemonMessageView>) -> Seq<BuildEventView> {
    let end = first_failure(messages) as int;
    let before = messages.take(end);
    if end < messages.len() {
        aux_events(before).push(
            BuildEventView::Error {
                error: BuildErrorView {
                    last_aux: last_payload(before),
                    message: messages[end]->Failure_message,
                },
            },
        )
    } else {
        aux_events(before)
    }
}

/// The event that one more message gives the caller, after the messages
/// `seen`: nothing once a failure was seen; else progress for progress,
/// nothing for a log line, and for a failure the error with the daemon's
/// words and the last progress seen.
pub open spec fn event_for(
    seen: Seq<DaemonMessageView>,
    message: DaemonMessageView,
) -> Option<BuildEventView> {
    if first_failure(seen) < seen.len() {
        None
    } else {
        match message {
            DaemonMessageView::Aux { payload } => Some(BuildEventView::AuxInfo { payload }),
            DaemonMessageView::Log { .. } => None,
            DaemonMessageView::Failure { message } => Some(
                BuildEventView::Error {
                    error: BuildErrorView { last_aux: last_payload(seen), message },
                },
            ),
        }
    }
}

/// What one event looks like as a mathematical value, if there is one.
pub open spec fn event_view(event: Option<BuildEvent>) -> Option<BuildEventView> {
    match event {
        Some(e) => Some(e@),
        None => None,
    }
}

/// `first_failure` finds the first failure: none stands before it, and it
/// is either the number of messages or the place of a failure.
pub proof fn lemma_first_failure(messages: Seq<DaemonMessageView>)
    ensures
        first_failure(messages) <= messages.len(),
        forall|i: int| 0 <= i < first_failure(messages) ==> !(#[trigger] messages[i] is Failure),
        first_failure(messages) < messages.len() ==> messages[first_failure(
            messages,
        ) as int] is Failure,
    decreases messages.len(),
{
    if messages.len() > 0 && !(messages.first() is Failure) {
        let rest = messages.drop_first();
        lemma_first_failure(rest);
        assert forall|i: int| 0 <= i < first_failure(messages) implies !(
        #[trigger] messages[i] is Failure) by {
            if i > 0 {
                assert(rest[i - 1] == messages[i]);
            }
        }
    }
}

/// A place that holds a failure, with none before it, is the first failure.
pub proof fn lemma_first_failure_is(messages: Seq<DaemonMessageView>, at: int)
    requires
        0 <= at <= messages.len(),
        forall|i: int| 0 <= i < at ==> !(#[trigger] messages[i] is Failure),
        at < messages.len() ==> messages[at] is Failure,
    ensures
        first_failure(messages) == at,
    decreases at,
{
    if at > 0 {
        let rest = messages.drop_first();
        assert(!(messages[0] is Failure));
        assert forall|i: int| 0 <= i < at - 1 implies !(#[trigger] rest[i] is Failure) by {
            assert(rest[i] == messages[i + 1]);
        }
        lemma_first_failure_is(rest, at - 1);
    }
}

/// A failure ends the sequence: whatever the daemon sends after its first
/// failure, the caller sees the same events, and the last of them is the
/// error with the daemon's words.
pub proof fn lemma_nothing_after_failure(
    messages: Seq<DaemonMessageView>,
    later: Seq<DaemonMessageView>,
)
    requires
        first_failure(messages) < messages.len(),
    ensures
        surfaced(messages + later) == surfaced(messages),
        surfaced(messages).len() > 0,
        surfaced(messages).last() matches BuildEventView::Error { error } && error.message
            == messages[first_failure(messages) as int]->Failure_message,
{
    lemma_first_failure(messages);
    let at = first_failure(messages) as int;
    let all = messages + later;
    assert forall|i: int| 0 <= i < at implies !(#[trigger] all[i] is Failure) by {
        assert(all[i] == messages[i]);
    }
    assert(all[at] == messages[at]);
    lemma_first_failure_is(all, at);
    assert(all.take(at) == messages.take(at));
}

/// Every event before the last is progress: an error can only stand at the
/// end of what the caller sees.
pub proof fn lemma_error_only_last(messages: Seq<DaemonMessageView>, i: int)
    requires
        0 <= i < surfaced(messages).len(),
        surfaced(messages)[i] is Error,
    ensures
        i == surfaced(messages).len() - 1,
        first_failure(messages) < messages.len(),
{
    lemma_first_failure(messages);
    let before = messages.take(first_failure(messages) as int);
    lemma_aux_events_are_progress(before);
}

/// What `aux_events` gives is progress and nothing else.
pub proof fn lemma_aux_events_are_progress(messages: Seq<DaemonMessageView>)
    ensures
        forall|i: int|
            0 <= i < aux_events(messages).len() ==> #[trigger] aux_events(messages)[i] is AuxInfo,
    decreases messages.len(),
{
    if messages.len() > 0 {
        lemma_aux_events_are_progress(messages.drop_last());
    }
}

/// Without a failure the caller sees the progress messages and nothing
/// else: log lines are dropped.
pub proof fn lemma_logs_are_dropped(messages: Seq<DaemonMessageView>)
    requires
        forall|i: int| 0 <= i < messages.len() ==> !(#[trigger] messages[i] is Failure),
    ensures
        surfaced(messages) == aux_events(messages),
{
    lemma_first_failure_is(messages, messages.len() as int);
    assert(messages.take(messages.len() as int) == messages);
}

/// What one more message changes: once a failure was seen, nothing; else
/// a failure becomes the first failure, and any other message moves the
/// end of the messages that count by one.
proof fn lemma_one_more_message(seen: Seq<DaemonMessageView>, message: DaemonMessageView)
    ensures
        first_failure(seen.push(message)) == if first_failure(seen) < seen.len()
            || message is Failure {
            first_failure(seen)
        } else {
            seen.len() + 1
        },
        seen.push(message).take(first_failure(seen.push(message)) as int) == if first_failure(seen)
            < seen.len() || message is Failure {
            seen.take(first_failure(seen) as int)
        } else {
            seen.push(message)
        },
        first_failure(seen) == seen.len() ==> seen.take(first_failure(seen) as int) == seen,
{
    let after = seen.push(message);
    let end = first_failure(seen) as int;
    lemma_first_failure(seen);
    assert forall|i: int| 0 <= i < end implies !(#[trigger] after[i] is Failure) by {
        assert(after[i] == seen[i]);
    }
    if end < seen.len() {
        assert(after[end] == seen[end]);
        lemma_first_failure_is(after, end);
        assert(after.take(end) == seen.take(end));
    } else {
        assert(seen.take(end) == seen);
        if message is Failure {
            lemma_first_failure_is(after, end);
            assert(after.take(end) == seen);
        } else {
            lemma_first_failure_is(after, end + 1);
            assert(after.take(end + 1) == after);
        }
    }
}

/// Message by message, the caller's events grow by exactly the event that
/// each message gives, and by nothing where it gives none.
pub proof fn lemma_event_extends_surfaced(
    seen: Seq<DaemonMessageView>,
    message: DaemonMessageView,
)
    ensures
        surfaced(seen.push(message)) == match event_for(seen, message) {
            Some(event) => surfaced(seen).push(event),
            None => surfaced(seen),
        },
{
    lemma_one_more_message(seen, message);
    lemma_first_failure(seen);
    let after = seen.push(message);
    assert(after.drop_last() == seen);
    if first_failure(seen) < seen.len() {
        assert(after[first_failure(seen) as int] == seen[first_failure(seen) as int]);
    }
}

/// The reading end of a build stream: it takes the daemon's messages one by
/// one and says which event, if any, each one gives the caller.
pub struct EventStream {
    last_aux: Option<String>,
    failed: bool,
    seen: Ghost<Seq<DaemonMessageView>>,
}

impl View for EventStream {
    type V = Seq<DaemonMessageView>;

    /// The messages taken so far, in order.
    closed spec fn view(&self) -> Seq<DaemonMessageView> {
        self.seen@
    }
}

impl EventStream {
    #[verifier::type_invariant]
    spec fn consistent(self) -> bool {
        let end = first_failure(self.seen@) as int;
        &&& self.failed == (end < self.seen@.len())
        &&& last_payload(self.seen@.take(end)) == match self.last_aux {
            Some(payload) => Some(payload@),
            None => None,
        }
    }

    /// A stream that has taken no message yet.
    pub fn new() -> (stream: EventStream)
        ensures
            stream@ == Seq::<DaemonMessageView>::empty(),
    {
        let stream = EventStream { last_aux: None, failed: false, seen: Ghost(Seq::empty()) };
        assert(stream.seen@.take(0) == Seq::<DaemonMessageView>::empty());
        stream
    }

    /// Whether the build has failed: no event follows.
    pub fn is_finished(&self) -> (finished: bool)
        ensures
            finished == (first_failure(self@) < self@.len()),
    {
        proof {
            use_type_invariant(self);
        }
        self.failed
    }

    /// Takes the daemon's next message and gives the event it means for the
    /// caller, if it means one.
    ///
    /// Progress is handed on; a log line gives nothing; the first failure
    /// gives the error. After a failure nothing is given any more.
    pub fn next(&mut self, message: &DaemonMessage) -> (event: Option<BuildEvent>)
        ensures
            final(self)@ == old(self)@.push(message@),
            event_view(event) == event_for(old(self)@, message@),
            surfaced(final(self)@) == match event {
                Some(e) => surfaced(old(self)@).push(e@),
                None => surfaced(old(self)@),
            },
    {
        proof {
            use_type_invariant(&*self);
        }
        let ghost before = self.seen@;
        let ghost after = before.push(message@);
        proof {
            lemma_first_failure(before);
            lemma_one_more_message(before, message@);
            lemma_event_extends_surfaced(before, message@);
            assert(after.drop_last() == before);
            assert(after.last() == message@);
        }
        let last_aux = match &self.last_aux {
            Some(payload) => Some(payload.clone()),
            None => None,
        };
        if self.failed {
            *self = EventStream { last_aux, failed: true, seen: Ghost(after) };
            return None;
        }
        match message {
            DaemonMessage::Aux { payload } => {
                *self = EventStream {
                    last_aux: Some(payload.clone()),
                    failed: false,
                    seen: Ghost(after),
                };
                Some(BuildEvent::AuxInfo { payload: payload.clone() })
            },
            DaemonMessage::Log { line: _ } => {
                *self = EventStream { last_aux, failed: false, seen: Ghost(after) };
                None
            },
            DaemonMessage::Failure { message } => {
                let seen_before = match &last_aux {
                    Some(payload) => Some(payload.clone()),
                    None => None,
                };
                *self = EventStream { last_aux, failed: true, seen: Ghost(after) };
                Some(
                    BuildEvent::Error {
                        error: BuildError { last_aux: seen_before, message: message.clone() },
                    },
                )
            },
        }
    }
}

/// The events that the caller sees of a whole run of daemon messages.
pub fn surface_events(messages: &Vec<DaemonMessage>) -> (events: Vec<BuildEvent>)
    ensures
        events@.map_values(|e: BuildEvent| e@) == surfaced(
            messages@.map_values(|m: DaemonMessage| m@),
        ),
{
    let ghost all = messages@.map_values(|m: DaemonMessage| m@);
    let mut stream = EventStream::new();
    let mut events: Vec<BuildEvent> = Vec::new();
    let n: usize = messages.len();
    let mut i: usize = 0;
    assert(all.take(0) == Seq::<DaemonMessageView>::empty());
    assert(events@.map_values(|e: BuildEvent| e@) == Seq::<BuildEventView>::empty());
    while i < n
        invariant
            i <= n == messages@.len(),
            all == messages@.map_values(|m: DaemonMessage| m@),
            stream@ == all.take(i as int),
            events@.map_values(|e: BuildEvent| e@) == surfaced(stream@),
        decreases n - i,
    {
        let ghost shown = events@.map_values(|e: BuildEvent| e@);
        let event = stream.next(&messages[i]);
        assert(all.take(i as int).push(all[i as int]) == all.take(i + 1));
        match event {
            Some(event) => {
                events.push(event);
                assert(events@.map_values(|e: BuildEvent| e@) == shown.push(event@));
            },
            None => {},
        }
        i = i + 1;
    }
    assert(all.take(n as int) == all);
    events
}

} // verus!
