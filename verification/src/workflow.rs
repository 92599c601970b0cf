//! The workflow orchestrator: a state machine that sequences
//! resolve, fetch, edit, change detection and conditional writeback.
//!
//! The orchestrator never performs I/O itself.  Each step hands the
//! surrounding process an [`Action`] to perform (create the scratch file,
//! fetch, run the editor, store); the process reports the result back as
//! an [`Event`], and [`step`] decides what follows.  A run ends when the
//! action is [`Action::Finish`]: the process then deletes the scratch
//! file, if one was created, and exits with the carried [`Outcome`].

use crate::address::spec_resolve;
use crate::address::ParseError;
use crate::address::RemoteReference;
use crate::digest::fingerprint_of;
use crate::digest::Digest;
use vstd::pervasive::unreached;
use vstd::prelude::*;

verus! {

/// Why a workflow run failed.
#[derive(Clone, Copy, Debug, PartialEq, Eq, Structural)]
pub enum FailureReason {
    /// The address did not resolve.
    AddressParse(ParseError),
    /// The local filesystem could not create or re-read the scratch file.
    ScratchFile,
    /// The remote fetch failed, at the initial call or while a chunk was read.
    TransportFetch,
    /// The editor could not be started.
    EditorSpawn,
    /// The editor exited with this non-zero status.
    EditorExit(i32),
    /// The writeback to the remote store failed.
    TransportWrite,
}

/// How a workflow run ended.
#[derive(Clone, Copy, Debug, PartialEq, Eq, Structural)]
pub enum Outcome {
    /// The content changed and was written back to the remote store.
    WrittenBack,
    /// The content did not change; nothing was written.
    Skipped,
    /// A stage failed; the remote object was left untouched.
    Failed(FailureReason),
}

/// What the surrounding process reports back: the result of the action it
/// was last asked to perform.
pub enum Event {
    /// The scratch file was created, empty and open for read and write.
    ScratchCreated,
    /// The scratch file could not be created, or a chunk could not be
    /// written to it.
    ScratchFailed,
    /// The fetch stream yielded one more chunk of content.
    FetchChunk(Vec<u8>),
    /// The fetch stream ended; the whole object has arrived.
    FetchDone,
    /// The fetch call, or the read of a chunk, failed.
    FetchFailed,
    /// The editor ran and exited with this status (`0` means success).
    EditorExited(i32),
    /// The editor could not be started.
    EditorSpawnFailed,
    /// The scratch file was re-read after editing; these are its bytes.
    ScratchReread(Vec<u8>),
    /// The scratch file could not be re-read.
    ScratchRereadFailed,
    /// The writeback succeeded.
    StoreOk,
    /// The writeback failed.
    StoreFailed,
}

/// What the orchestrator asks the surrounding process to do next.
pub enum Action {
    /// Create the scratch file, its name suffixed for this extension hint.
    CreateScratch(Option<String>),
    /// Begin fetching the object under this container and key.
    BeginFetch(String, String),
    /// Append this chunk to the scratch file, then await the next stream item.
    WriteChunk(Vec<u8>),
    /// Run the editor on the scratch file and await its exit.
    RunEditor,
    /// Re-read the whole scratch file from its start.
    RereadScratch,
    /// Store these bytes under this container and key in the remote store.
    Store(String, String, Vec<u8>),
    /// Delete the scratch file, if one was created, and end with this outcome.
    Finish(Outcome),
}

/// Where a run stands, and what it carries from stage to stage.
pub enum State {
    /// The address resolved; awaiting the scratch file.
    Resolved { reference: RemoteReference },
    /// The scratch file exists; fetched chunks are arriving and folding
    /// into the running digest as they are written out.
    Fetching { reference: RemoteReference, digest: Digest },
    /// The whole object is on disk; the editor is running.
    Editing { reference: RemoteReference, before: u64 },
    /// The editor succeeded; awaiting the re-read of the scratch file.
    Deciding { reference: RemoteReference, before: u64 },
    /// The changed bytes are being written back.
    Storing,
    /// The run ended.
    Done { outcome: Outcome },
}

/// The internal invariant a reachable state satisfies.
pub open spec fn state_wf(s: State) -> bool {
    match s {
        State::Fetching { digest, .. } => digest.wf(),
        _ => true,
    }
}

/// Which events can answer the action that goes with each state.
pub open spec fn admits(s: State, e: Event) -> bool {
    match s {
        State::Resolved { .. } => e is ScratchCreated || e is ScratchFailed,
        State::Fetching { .. } => e is FetchChunk || e is FetchDone || e is FetchFailed
            || e is ScratchFailed,
        State::Editing { .. } => e is EditorExited || e is EditorSpawnFailed,
        State::Deciding { .. } => e is ScratchReread || e is ScratchRereadFailed,
        State::Storing => e is StoreOk || e is StoreFailed,
        State::Done { .. } => false,
    }
}

/// The transition relation of the orchestrator: from state `s`, event `e`
/// leads to state `t` with action `a`.
pub open spec fn transition(s: State, e: Event, t: State, a: Action) -> bool {
    match (s, e) {
        (State::Resolved { reference }, Event::ScratchCreated) => {
            &&& t matches State::Fetching { reference: tref, digest }
                && tref == reference
                && digest.wf()
                && digest.fed() == Seq::<u8>::empty()
            &&& a matches Action::BeginFetch(c, k)
                && c@ == reference.container@
                && k@ == reference.key@
        },
        (State::Resolved { reference }, Event::ScratchFailed) => {
            &&& t == State::Done { outcome: Outcome::Failed(FailureReason::ScratchFile) }
            &&& a == Action::Finish(Outcome::Failed(FailureReason::ScratchFile))
        },
        (State::Fetching { reference, digest }, Event::FetchChunk(bytes)) => {
            &&& t matches State::Fetching { reference: tref, digest: tdig }
                && tref == reference
                && tdig.wf()
                && tdig.fed() == digest.fed() + bytes@
            &&& a matches Action::WriteChunk(out) && out@ == bytes@
        },
        (State::Fetching { reference, digest }, Event::FetchDone) => {
            &&& t == (State::Editing { reference, before: fingerprint_of(digest.fed()) })
            &&& a == Action::RunEditor
        },
        (State::Fetching { reference, digest }, Event::FetchFailed) => {
            &&& t == State::Done { outcome: Outcome::Failed(FailureReason::TransportFetch) }
            &&& a == Action::Finish(Outcome::Failed(FailureReason::TransportFetch))
        },
        (State::Fetching { reference, digest }, Event::ScratchFailed) => {
            &&& t == State::Done { outcome: Outcome::Failed(FailureReason::ScratchFile) }
            &&& a == Action::Finish(Outcome::Failed(FailureReason::ScratchFile))
        },
        (State::Editing { reference, before }, Event::EditorExited(code)) => {
            if code == 0 {
                &&& t == (State::Deciding { reference, before })
                &&& a == Action::RereadScratch
            } else {
                &&& t == State::Done { outcome: Outcome::Failed(FailureReason::EditorExit(code)) }
                &&& a == Action::Finish(Outcome::Failed(FailureReason::EditorExit(code)))
            }
        },
        (State::Editing { reference, before }, Event::EditorSpawnFailed) => {
            &&& t == State::Done { outcome: Outcome::Failed(FailureReason::EditorSpawn) }
            &&& a == Action::Finish(Outcome::Failed(FailureReason::EditorSpawn))
        },
        (State::Deciding { reference, before }, Event::ScratchReread(bytes)) => {
            if fingerprint_of(bytes@) == before {
                &&& t == State::Done { outcome: Outcome::Skipped }
                &&& a == Action::Finish(Outcome::Skipped)
            } else {
                &&& t == State::Storing
                &&& a matches Action::Store(c, k, out)
                    && c@ == reference.container@
                    && k@ == reference.key@
                    && out@ == bytes@
            }
        },
        (State::Deciding { reference, before }, Event::ScratchRereadFailed) => {
            &&& t == State::Done { outcome: Outcome::Failed(FailureReason::ScratchFile) }
            &&& a == Action::Finish(Outcome::Failed(FailureReason::ScratchFile))
        },
        (State::Storing, Event::StoreOk) => {
            &&& t == State::Done { outcome: Outcome::WrittenBack }
            &&& a == Action::Finish(Outcome::WrittenBack)
        },
        (State::Storing, Event::StoreFailed) => {
            &&& t == State::Done { outcome: Outcome::Failed(FailureReason::TransportWrite) }
            &&& a == Action::Finish(Outcome::Failed(FailureReason::TransportWrite))
        },
        _ => false,
    }
}

/// The view of an optional string.
pub open spec fn opt_string_view(o: Option<String>) -> Option<Seq<char>> {
    match o {
        Some(s) => Some(s@),
        None => None,
    }
}

/// Begin a run: resolve the raw address and ask for the first action.
///
/// A malformed address ends the run at once; otherwise the surrounding
/// process is asked to create the scratch file, suffixed for the resolved
/// extension hint.
pub fn start(raw: &str) -> (r: (State, Action))
    ensures
        state_wf(r.0),
        match spec_resolve(raw@) {
            Err(e) => {
                &&& r.0 == State::Done { outcome: Outcome::Failed(FailureReason::AddressParse(e)) }
                &&& r.1 == Action::Finish(Outcome::Failed(FailureReason::AddressParse(e)))
            },
            Ok(model) => {
                &&& r.0 matches State::Resolved { reference } && reference@ == model
                &&& r.1 matches Action::CreateScratch(hint)
                    && opt_string_view(hint) == model.extension
            },
        },
{
    match RemoteReference::resolve(raw) {
        Err(e) => {
            let outcome = Outcome::Failed(FailureReason::AddressParse(e));
            (State::Done { outcome }, Action::Finish(outcome))
        },
        Ok(reference) => {
            let hint: Option<String> = match &reference.extension {
                Some(ext) => Some(ext.clone()),
                None => None,
            };
            (State::Resolved { reference }, Action::CreateScratch(hint))
        },
    }
}

/// One step of the orchestrator: consume the event that answers the
/// previous action and decide the next state and action.
pub fn step(s: State, e: Event) -> (r: (State, Action))
    requires
        state_wf(s),
        admits(s, e),
    ensures
        state_wf(r.0),
        transition(s, e, r.0, r.1),
{
    match (s, e) {
        (State::Resolved { reference }, Event::ScratchCreated) => {
            let container = reference.container.clone();
            let key = reference.key.clone();
            let digest = Digest::new();
            (State::Fetching { reference, digest }, Action::BeginFetch(container, key))
        },
        (State::Resolved { reference: _ }, Event::ScratchFailed) => {
            let outcome = Outcome::Failed(FailureReason::ScratchFile);
            (State::Done { outcome }, Action::Finish(outcome))
        },
        (State::Fetching { reference, digest }, Event::FetchChunk(bytes)) => {
            let mut digest = digest;
            digest.update(bytes.as_slice());
            (State::Fetching { reference, digest }, Action::WriteChunk(bytes))
        },
        (State::Fetching { reference, digest }, Event::FetchDone) => {
            let before = digest.finish();
            (State::Editing { reference, before }, Action::RunEditor)
        },
        (State::Fetching { reference: _, digest: _ }, Event::FetchFailed) => {
            let outcome = Outcome::Failed(FailureReason::TransportFetch);
            (State::Done { outcome }, Action::Finish(outcome))
        },
        (State::Fetching { reference: _, digest: _ }, Event::ScratchFailed) => {
            let outcome = Outcome::Failed(FailureReason::ScratchFile);
            (State::Done { outcome }, Action::Finish(outcome))
        },
        (State::Editing { reference, before }, Event::EditorExited(code)) => {
            if code == 0 {
                (State::Deciding { reference, before }, Action::RereadScratch)
            } else {
                let outcome = Outcome::Failed(FailureReason::EditorExit(code));
                (State::Done { outcome }, Action::Finish(outcome))
            }
        },
        (State::Editing { reference: _, before: _ }, Event::EditorSpawnFailed) => {
            let outcome = Outcome::Failed(FailureReason::EditorSpawn);
            (State::Done { outcome }, Action::Finish(outcome))
        },
        (State::Deciding { reference, before }, Event::ScratchReread(bytes)) => {
            let after = Digest::fingerprint(bytes.as_slice());
            if after == before {
                let outcome = Outcome::Skipped;
                (State::Done { outcome }, Action::Finish(outcome))
            } else {
                let container = reference.container;
                let key = reference.key;
                (State::Storing, Action::Store(container, key, bytes))
            }
        },
        (State::Deciding { reference: _, before: _ }, Event::ScratchRereadFailed) => {
            let outcome = Outcome::Failed(FailureReason::ScratchFile);
            (State::Done { outcome }, Action::Finish(outcome))
        },
        (State::Storing, Event::StoreOk) => {
            let outcome = Outcome::WrittenBack;
            (State::Done { outcome }, Action::Finish(outcome))
        },
        (State::Storing, Event::StoreFailed) => {
            let outcome = Outcome::Failed(FailureReason::TransportWrite);
            (State::Done { outcome }, Action::Finish(outcome))
        },
        _ => unreached(),
    }
}

/// A finished run takes no further step: nothing follows `Done`, so no
/// action at all — in particular no writeback — comes after the outcome
/// is decided.
pub proof fn lemma_done_is_terminal(outcome: Outcome, e: Event, t: State, a: Action)
    ensures
        !transition((State::Done { outcome }), e, t, a),
{
}

/// An unchanged file is never written back: when the re-read bytes
/// fingerprint to the same value as the fetched content, the run ends in
/// `Skipped`, releasing the scratch file without a store.
pub proof fn lemma_unchanged_skips(
    reference: RemoteReference,
    before: u64,
    bytes: Vec<u8>,
    t: State,
    a: Action,
)
    requires
        transition((State::Deciding { reference, before }), Event::ScratchReread(bytes), t, a),
        fingerprint_of(bytes@) == before,
    ensures
        t == (State::Done { outcome: Outcome::Skipped }),
        a == Action::Finish(Outcome::Skipped),
{
}

/// A changed file is stored exactly once, with exactly the bytes read
/// back from disk, under the resolved container and key.
pub proof fn lemma_changed_stores_exact_bytes(
    reference: RemoteReference,
    before: u64,
    bytes: Vec<u8>,
    t: State,
    a: Action,
)
    requires
        transition((State::Deciding { reference, before }), Event::ScratchReread(bytes), t, a),
        fingerprint_of(bytes@) != before,
    ensures
        t == State::Storing,
        (a matches Action::Store(c, k, out)
            && c@ == reference.container@
            && k@ == reference.key@
            && out@ == bytes@),
{
}

/// A failing editor never triggers a writeback: the run ends at once with
/// its exit status, and the scratch file is still released.
pub proof fn lemma_editor_failure_no_store(
    reference: RemoteReference,
    before: u64,
    code: i32,
    t: State,
    a: Action,
)
    requires
        transition((State::Editing { reference, before }), Event::EditorExited(code), t, a),
        code != 0,
    ensures
        t == (State::Done { outcome: Outcome::Failed(FailureReason::EditorExit(code)) }),
        a == Action::Finish(Outcome::Failed(FailureReason::EditorExit(code))),
{
}

/// A failed fetch ends the run at once: the scratch file is released and,
/// since the run is then terminal, no editor is ever launched.
pub proof fn lemma_fetch_failure_releases(
    reference: RemoteReference,
    digest: Digest,
    t: State,
    a: Action,
)
    requires
        transition((State::Fetching { reference, digest }), Event::FetchFailed, t, a),
    ensures
        t == (State::Done { outcome: Outcome::Failed(FailureReason::TransportFetch) }),
        a == Action::Finish(Outcome::Failed(FailureReason::TransportFetch)),
{
}

/// The editor is launched only once the whole object has arrived intact.
pub proof fn lemma_editor_only_after_fetch(s: State, e: Event, t: State, a: Action)
    requires
        transition(s, e, t, a),
        (a is RunEditor),
    ensures
        (s is Fetching),
        (e is FetchDone),
{
}

/// A store is asked for only from the deciding state, and only on re-read
/// bytes whose fingerprint differs from the fetched content's.
pub proof fn lemma_store_only_when_changed(s: State, e: Event, t: State, a: Action)
    requires
        transition(s, e, t, a),
        (a is Store),
    ensures
        (s matches State::Deciding { reference, before }
            && e matches Event::ScratchReread(bytes)
            && fingerprint_of(bytes@) != before),
        t == State::Storing,
{
}

/// The stage each state belongs to, in workflow order.
pub open spec fn stage(s: State) -> int {
    match s {
        State::Resolved { .. } => 0,
        State::Fetching { .. } => 1,
        State::Editing { .. } => 2,
        State::Deciding { .. } => 3,
        State::Storing => 4,
        State::Done { .. } => 5,
    }
}

/// Steps never move backwards: each transition stays in its stage or
/// advances, and a step out of the deciding stage leaves it for good.
pub proof fn lemma_stage_monotone(s: State, e: Event, t: State, a: Action)
    requires
        transition(s, e, t, a),
    ensures
        stage(t) >= stage(s),
        (s is Deciding) ==> stage(t) >= 4,
        (a is Store) ==> ((s is Deciding) && t == State::Storing),
{
}

/// One recorded step of a run.
pub struct StepRecord {
    pub state: State,
    pub event: Event,
    pub next: State,
    pub action: Action,
}

/// A run: consecutive steps, each a transition, each starting where the
/// previous one ended.
pub open spec fn valid_run(run: Seq<StepRecord>) -> bool {
    &&& forall|i: int|
        0 <= i < run.len() ==> #[trigger] transition(
            run[i].state,
            run[i].event,
            run[i].next,
            run[i].action,
        )
    &&& forall|i: int| 0 <= i < run.len() - 1 ==> #[trigger] run[i + 1].state == run[i].next
}

/// How many of the run's actions are writebacks.
pub open spec fn store_count(run: Seq<StepRecord>) -> int
    decreases run.len(),
{
    if run.len() == 0 {
        0
    } else {
        (if run[0].action is Store {
            1int
        } else {
            0int
        }) + store_count(run.skip(1))
    }
}

proof fn lemma_store_count_bounded(run: Seq<StepRecord>)
    requires
        valid_run(run),
    ensures
        store_count(run) <= 1,
        run.len() > 0 && stage(run[0].state) >= 4 ==> store_count(run) == 0,
    decreases run.len(),
{
    if run.len() > 0 {
        let rest = run.skip(1);
        assert forall|i: int| 0 <= i < rest.len() implies #[trigger] transition(
            rest[i].state,
            rest[i].event,
            rest[i].next,
            rest[i].action,
        ) by {
            assert(rest[i] == run[i + 1]);
        }
        assert forall|i: int| 0 <= i < rest.len() - 1 implies #[trigger] rest[i + 1].state
            == rest[i].next by {
            assert(rest[i] == run[i + 1]);
            assert(rest[i + 1] == run[i + 2]);
        }
        lemma_store_count_bounded(rest);
        lemma_stage_monotone(run[0].state, run[0].event, run[0].next, run[0].action);
        if rest.len() > 0 {
            assert(rest[0] == run[1]);
            assert(run[1].state == run[0].next);
        }
    }
}

/// However a run unfolds, at most one writeback ever happens: a store
/// leaves the deciding stage, and no later step returns to it.
pub proof fn lemma_at_most_one_store(run: Seq<StepRecord>)
    requires
        valid_run(run),
    ensures
        store_count(run) <= 1,
{
    lemma_store_count_bounded(run);
}

/// Stages never decrease along a run.
proof fn lemma_stage_monotone_run(run: Seq<StepRecord>, i: int, j: int)
    requires
        valid_run(run),
        0 <= i <= j < run.len(),
    ensures
        stage(run[j].state) >= stage(run[i].state),
    decreases j - i,
{
    if i < j {
        lemma_stage_monotone_run(run, i, j - 1);
        assert(run[(j - 1) + 1].state == run[j - 1].next);
        lemma_stage_monotone(run[j - 1].state, run[j - 1].event, run[j - 1].next, run[j - 1].action);
    }
}

/// A run none of whose actions is a store stores nothing.
proof fn lemma_store_count_zero(run: Seq<StepRecord>)
    requires
        forall|j: int| 0 <= j < run.len() ==> !((#[trigger] run[j].action) is Store),
    ensures
        store_count(run) == 0,
    decreases run.len(),
{
    if run.len() > 0 {
        let rest = run.skip(1);
        assert forall|j: int| 0 <= j < rest.len() implies !((#[trigger] rest[j].action)
            is Store) by {
            assert(rest[j] == run[j + 1]);
        }
        lemma_store_count_zero(rest);
    }
}

/// In a valid run, one step that stands before the storing stage, stores
/// nothing itself, and goes straight to `Done` rules every store out:
/// none can precede it, and nothing follows a terminal state.
proof fn lemma_no_store_around_terminal_step(run: Seq<StepRecord>, i: int)
    requires
        valid_run(run),
        0 <= i < run.len(),
        stage(run[i].state) < 4,
        !(run[i].action is Store),
        (run[i].next is Done),
    ensures
        store_count(run) == 0,
{
    assert forall|j: int| 0 <= j < run.len() implies !((#[trigger] run[j].action) is Store) by {
        if run[j].action is Store {
            assert(transition(run[j].state, run[j].event, run[j].next, run[j].action));
            lemma_store_only_when_changed(run[j].state, run[j].event, run[j].next, run[j].action);
            if j < i {
                assert(run[(j) + 1].state == run[j].next);
                lemma_stage_monotone_run(run, j + 1, i);
            } else if j > i {
                assert(run[(i) + 1].state == run[i].next);
                lemma_stage_monotone_run(run, i + 1, j);
            }
        }
    }
    lemma_store_count_zero(run);
}

/// A run in which the decision went to "unchanged" performs no writeback
/// at all: the skip path is a true no-op towards the remote store.
pub proof fn lemma_skip_run_never_stores(run: Seq<StepRecord>, i: int)
    requires
        valid_run(run),
        0 <= i < run.len(),
        (run[i].state matches State::Deciding { reference: _, before }
            && run[i].event matches Event::ScratchReread(bytes)
            && fingerprint_of(bytes@) == before),
    ensures
        store_count(run) == 0,
{
    assert(transition(run[i].state, run[i].event, run[i].next, run[i].action));
    lemma_no_store_around_terminal_step(run, i);
}

/// A run in which the editor exited with a non-zero status performs no
/// writeback at all, before or after that step.
pub proof fn lemma_editor_failure_run_never_stores(run: Seq<StepRecord>, i: int)
    requires
        valid_run(run),
        0 <= i < run.len(),
        (run[i].state is Editing),
        (run[i].event matches Event::EditorExited(code) && code != 0),
    ensures
        store_count(run) == 0,
{
    assert(transition(run[i].state, run[i].event, run[i].next, run[i].action));
    lemma_no_store_around_terminal_step(run, i);
}

/// A run in which the fetch failed never launches the editor: not before
/// (the fetch was still under way) and not after (the run is over).
pub proof fn lemma_fetch_failure_run_never_edits(run: Seq<StepRecord>, i: int)
    requires
        valid_run(run),
        0 <= i < run.len(),
        (run[i].state is Fetching),
        (run[i].event is FetchFailed),
    ensures
        forall|j: int| 0 <= j < run.len() ==> !((#[trigger] run[j].action) is RunEditor),
{
    assert(transition(run[i].state, run[i].event, run[i].next, run[i].action));
    assert forall|j: int| 0 <= j < run.len() implies !((#[trigger] run[j].action)
        is RunEditor) by {
        if run[j].action is RunEditor {
            assert(transition(run[j].state, run[j].event, run[j].next, run[j].action));
            lemma_editor_only_after_fetch(run[j].state, run[j].event, run[j].next, run[j].action);
            if j < i {
                assert(stage(run[j].next) == 2);
                assert(run[(j) + 1].state == run[j].next);
                lemma_stage_monotone_run(run, j + 1, i);
            } else if j > i {
                assert(run[(i) + 1].state == run[i].next);
                lemma_stage_monotone_run(run, i + 1, j);
            }
        }
    }
}

} // verus!
