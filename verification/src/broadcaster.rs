//! The broadcaster: the per-session actor that paces Opus-in-Ogg pages
//! into the shared media track.
//!
//! [`BroadcasterState`] is the actor's decision core.  Commands arrive on
//! a channel; [`BroadcasterState::handle_command`] says how the state
//! changes and which outside action the actor must perform (materialize a
//! blob and start a pacing task, halt pacing, attach a peer).  A pacing
//! task consults [`BroadcasterState::pacing_page_step`] before every page
//! and [`BroadcasterState::pacing_eof_step`] at end of file, so that at
//! most one task is live and a stopped play never emits `End`.

use vstd::prelude::*;
use crate::errors::Error;

verus! {

/// A command for the broadcaster actor.
pub enum BroadcasterCommand {
    Play { key: String },
    Pause,
    Stop,
    Attach { peer_id: String },
}

/// An event the broadcaster fans out to its session.
pub enum BroadcasterEvent {
    End,
    TrackAdded,
}

/// The outside action the actor must perform after handling a command.
pub enum BroadcasterDirective {
    /// Halt any running pacing task, stage the blob for `key` in the
    /// session scratch directory, and start a fresh pacing task for it.
    StartPacing { key: String },
    /// Halt any running pacing task.
    HaltPacing,
    /// Look the peer up in the shared peer map, attach the shared track,
    /// and fulfill the caller's reply.
    AttachPeer { peer_id: String },
    /// Nothing to do.
    Ignore,
}

/// Abstract value of a [`BroadcasterState`]: whether pacing is allowed,
/// how many pacing tasks were ever started, which one (if any) is live,
/// and which key it plays.
pub struct BroadcasterView {
    pub broadcasting: bool,
    pub generation: int,
    pub active_task: Option<int>,
    pub active_key: Option<Seq<char>>,
}

impl BroadcasterView {
    /// A live task identifier is always one that was handed out.
    pub open spec fn wf(self) -> bool {
        self.active_task matches Some(g) ==> 0 <= g < self.generation
    }
}

/// Whether the pacing task `task` may still write pages and emit `End`.
pub open spec fn may_emit_end(v: BroadcasterView, task: int) -> bool {
    v.broadcasting && v.active_task == Some(task)
}

/// `Play`: the previous task (if any) is retired first, then a fresh
/// task — the next generation — becomes the only live one.
pub open spec fn spec_play(v: BroadcasterView, key: Seq<char>) -> BroadcasterView {
    BroadcasterView {
        broadcasting: true,
        generation: v.generation + 1,
        active_task: Some(v.generation),
        active_key: Some(key),
    }
}

/// `Stop`: pacing is off and no task is live; the task that was live
/// exits before its next page without emitting `End`.
pub open spec fn spec_stop(v: BroadcasterView) -> BroadcasterView {
    BroadcasterView {
        broadcasting: false,
        generation: v.generation,
        active_task: None,
        active_key: None,
    }
}

/// The duration carried by one Ogg page: the granule positions are
/// cumulative sample counts at 48 kHz, so the page spans
/// `(granule - last) * 1000 / 48000` milliseconds (zero on a
/// non-increasing granule).
pub open spec fn spec_page_duration_ms(granule: int, last: int) -> int {
    if granule <= last {
        0
    } else {
        (granule - last) * 1000 / 48000
    }
}

pub struct BroadcasterState {
    is_broadcasting: bool,
    generation: u64,
    active_task: Option<u64>,
    active_key: Option<String>,
}

impl View for BroadcasterState {
    type V = BroadcasterView;

    closed spec fn view(&self) -> BroadcasterView {
        BroadcasterView {
            broadcasting: self.is_broadcasting,
            generation: self.generation as int,
            active_task: match self.active_task {
                Some(g) => Some(g as int),
                None => None,
            },
            active_key: match self.active_key {
                Some(ref k) => Some(k@),
                None => None,
            },
        }
    }
}

impl BroadcasterState {
    pub fn new() -> (b: Self)
        ensures
            b@.broadcasting == false,
            b@.generation == 0,
            b@.active_task is None,
            b@.active_key is None,
            b@.wf(),
    {
        Self { is_broadcasting: false, generation: 0, active_task: None, active_key: None }
    }

    /// One step of the actor's command loop.  `Play` with an empty key is
    /// skipped; any other `Play` retires the running task and starts the
    /// next one; commands arrive in channel order, so a `Play` after a
    /// `Stop` always finds the stop already applied.
    pub fn handle_command(&mut self, cmd: BroadcasterCommand) -> (d: BroadcasterDirective)
        requires
            old(self)@.generation < u64::MAX,
            old(self)@.wf(),
        ensures
            final(self)@.wf(),
            cmd matches BroadcasterCommand::Play { key } ==> {
                &&& key@.len() > 0 ==> final(self)@ == spec_play(old(self)@, key@) && (d matches
                    BroadcasterDirective::StartPacing { key: dk } && dk@ == key@)
                &&& key@.len() == 0 ==> final(self)@ == old(self)@ && d is Ignore
            },
            cmd is Stop ==> final(self)@ == spec_stop(old(self)@) && d is HaltPacing,
            cmd is Pause ==> final(self)@ == old(self)@ && d is Ignore,
            cmd matches BroadcasterCommand::Attach { peer_id } ==> final(self)@ == old(self)@ && (d
                matches BroadcasterDirective::AttachPeer { peer_id: dp } && dp@ == peer_id@),
    {
        match cmd {
            BroadcasterCommand::Play { key } => {
                if key.as_str().is_empty() {
                    return BroadcasterDirective::Ignore;
                }
                self.is_broadcasting = true;
                self.active_task = Some(self.generation);
                self.generation = self.generation + 1;
                self.active_key = Some(key.clone());
                BroadcasterDirective::StartPacing { key }
            },
            BroadcasterCommand::Pause => BroadcasterDirective::Ignore,
            BroadcasterCommand::Stop => {
                self.is_broadcasting = false;
                self.active_task = None;
                self.active_key = None;
                BroadcasterDirective::HaltPacing
            },
            BroadcasterCommand::Attach { peer_id } => {
                BroadcasterDirective::AttachPeer { peer_id }
            },
        }
    }

    /// What the pacing task `task_gen` does with the page it just parsed:
    /// exit silently when it is no longer the live task, else write the
    /// page with its derived duration and keep going.
    pub fn pacing_page_step(&self, task_gen: u64, granule: u64, last_granule: u64) -> (r: Option<
        u64,
    >)
        ensures
            r is Some <==> may_emit_end(self@, task_gen as int),
            r matches Some(d) ==> d == spec_page_duration_ms(granule as int, last_granule as int),
    {
        if !self.should_continue(task_gen) {
            return None;
        }
        Some(page_duration_ms(granule, last_granule))
    }

    /// Whether the pacing task `task_gen` emits `End` at end of file: only
    /// when it is still the live task (a stopped play ends silently).
    pub fn pacing_eof_step(&self, task_gen: u64) -> (emit: bool)
        ensures
            emit == may_emit_end(self@, task_gen as int),
    {
        self.should_continue(task_gen)
    }

    /// The generation of the live pacing task, if one is live; the task
    /// an actor just started reads its own identity from here.
    pub fn live_task(&self) -> (r: Option<u64>)
        ensures
            r matches Some(g) ==> self@.active_task == Some(g as int),
            r is None ==> self@.active_task is None,
    {
        self.active_task
    }

    fn should_continue(&self, task_gen: u64) -> (r: bool)
        ensures
            r == may_emit_end(self@, task_gen as int),
    {
        if !self.is_broadcasting {
            return false;
        }
        match self.active_task {
            Some(g) => g == task_gen,
            None => false,
        }
    }
}

/// The duration in milliseconds of a page whose granule position moved
/// from `last_granule` to `granule`.
pub fn page_duration_ms(granule: u64, last_granule: u64) -> (d: u64)
    ensures
        d == spec_page_duration_ms(granule as int, last_granule as int),
{
    if granule <= last_granule {
        return 0;
    }
    let samples = (granule - last_granule) as u128;
    let ms = samples * 1000 / 48000;
    proof {
        assert(ms <= u64::MAX) by (nonlinear_arith)
            requires
                ms == samples * 1000 / 48000,
                samples <= u64::MAX,
        ;
    }
    ms as u64
}

/// The session's scratch directory.
pub fn session_dir(session_id: &str) -> (r: String)
    ensures
        r@ == "./sessions/"@ + session_id@,
{
    let mut s = String::from_str("./sessions/");
    s.append(session_id);
    s
}

/// Where the staged blob for `key` lives inside the session's scratch
/// directory.
pub fn staged_file_path(session_id: &str, key: &str) -> (r: String)
    ensures
        r@ == "./sessions/"@ + session_id@ + "/"@ + key@ + ".ogg"@,
{
    let mut s = session_dir(session_id);
    s.append("/");
    s.append(key);
    s.append(".ogg");
    s
}

/// The object key of a stored blob.
pub fn blob_object_key(key: &str) -> (r: String)
    ensures
        r@ == key@ + ".ogg"@,
{
    let mut s = String::from_str(key);
    s.append(".ogg");
    s
}

/// Whether a staged download produced a usable file: a download of zero
/// bytes fails, anything else stands.
pub fn staged_download_check(byte_count: usize) -> (r: Result<(), Error>)
    ensures
        r is Ok <==> byte_count > 0,
        r is Err ==> (r matches Err(Error::S3DownloadError { .. })),
{
    if byte_count == 0 {
        return Err(
            Error::S3DownloadError { msg: String::from_str("the download produced no bytes") },
        );
    }
    Ok(())
}

/// Law: after a `Stop`, no pacing task — in particular not the one that
/// was live — may write another page or emit `End`.
pub proof fn lemma_stop_silences_all_tasks(v: BroadcasterView, task: int)
    ensures
        !may_emit_end(spec_stop(v), task),
{
}

/// Law: at most one pacing task is live at any instant: after a `Play`,
/// the fresh task is the only one that may still emit `End`, and every
/// task started earlier — the previously live one included — is retired.
pub proof fn lemma_play_keeps_one_task(v: BroadcasterView, key: Seq<char>, t1: int, t2: int)
    requires
        may_emit_end(spec_play(v, key), t1),
        may_emit_end(spec_play(v, key), t2),
    ensures
        t1 == t2,
{
}

/// Law: a `Play` retires every previously started task.
pub proof fn lemma_play_retires_previous(v: BroadcasterView, key: Seq<char>, task: int)
    requires
        v.wf(),
        task < v.generation,
    ensures
        !may_emit_end(spec_play(v, key), task),
{
}

} // verus!
