//! Scheduled jobs: when they run, and what a run does step by step.

use crate::error::SchedulerError;
use crate::json::{json_of_text, opt_string, Json, JsonV};
use crate::registry::Registry;
use crate::text::{count_words, join2, owned, word_count};
use vstd::prelude::*;

verus! {

/// The times as the clockwork takes them: it wants a field for the seconds before the five
/// of a crontab.
pub open spec fn seconds_cron(cron: Seq<char>) -> Seq<char> {
    if word_count(cron) == 5 {
        "0 "@ + cron
    } else {
        cron
    }
}

/// The times as the clockwork takes them.
pub fn to_seconds_cron(cron: &str) -> (r: String)
    ensures
        r@ == seconds_cron(cron@),
{
    if count_words(cron) == 5 {
        join2("0 ", cron)
    } else {
        owned(cron)
    }
}

/// A crontab of five fields gets a sixth, and times that have one stay as they are.
pub proof fn seconds_come_first(cron: Seq<char>)
    ensures
        word_count(cron) == 5 ==> word_count(seconds_cron(cron)) == 6,
        seconds_cron(seconds_cron(cron)) == seconds_cron(cron),
{
    if word_count(cron) == 5 {
        let p = "0 "@;
        reveal_strlit("0 ");
        assert(p.len() == 2 && p[0] == '0' && p[1] == ' ');
        assert(p.drop_last() =~= seq!['0']);
        assert(seq!['0'].drop_last() =~= Seq::<char>::empty());
        assert(word_count(Seq::<char>::empty()) == 0);
        assert(word_count(seq!['0']) == 1);
        assert(word_count(p) == 1);
        words_add_up(p, cron);
    }
}

proof fn words_add_up(p: Seq<char>, s: Seq<char>)
    requires
        p.len() > 0,
        crate::text::is_space(p.last()),
    ensures
        word_count(p + s) == word_count(p) + word_count(s),
    decreases s.len(),
{
    if s.len() == 0 {
        assert(p + s =~= p);
    } else {
        words_add_up(p, s.drop_last());
        assert((p + s).drop_last() =~= p + s.drop_last());
        assert((p + s).last() == s.last());
        let b = s.drop_last();
        if b.len() > 0 {
            assert((p + b).last() == b.last());
        } else {
            assert((p + b).last() == p.last());
        }
    }
}

/// The jobs that run.
pub struct InFlight {
    jobs: Registry<bool>,
}

impl InFlight {
    /// The table is sound.
    pub closed spec fn wf(&self) -> bool {
        self.jobs.wf()
    }

    /// The jobs that run.
    pub closed spec fn running(&self) -> Set<Seq<char>> {
        self.jobs@.dom()
    }

    /// No job runs.
    pub fn new() -> (r: InFlight)
        ensures
            r.wf(),
            r.running() == Set::<Seq<char>>::empty(),
    {
        let r = InFlight { jobs: Registry::new() };
        proof {
            assert(r.running() =~= Set::<Seq<char>>::empty());
        }
        r
    }

    /// Claims a job. `false` where it runs already: then it is not started again.
    pub fn claim(&mut self, job_id: &str) -> (r: bool)
        requires
            old(self).wf(),
        ensures
            final(self).wf(),
            r == !old(self).running().contains(job_id@),
            final(self).running() == old(self).running().insert(job_id@),
    {
        if self.jobs.contains_key(job_id) {
            proof {
                assert(self.running().insert(job_id@) =~= self.running());
            }
            return false;
        }
        self.jobs.insert(job_id, true);
        proof {
            assert(self.running() =~= old(self).running().insert(job_id@));
        }
        true
    }

    /// A job has ended.
    pub fn release(&mut self, job_id: &str)
        requires
            old(self).wf(),
        ensures
            final(self).wf(),
            final(self).running() == old(self).running().remove(job_id@),
    {
        let _ = self.jobs.remove(job_id);
        proof {
            assert(self.running() =~= old(self).running().remove(job_id@));
        }
    }
}

/// A stored schedule.
#[derive(Debug, Clone, PartialEq)]
pub struct ScheduleRow {
    pub id: String,
    pub name: String,
    pub cron: String,
    pub recipe_id: String,
    pub parameters: Option<String>,
    pub enabled: i32,
}

/// The parameters of a run: what is stored says, an empty object where it says nothing.
pub open spec fn run_parameters(stored: Option<Seq<char>>) -> JsonV {
    match stored {
        Some(s) => match json_of_text(s) {
            Some(j) => j,
            None => JsonV::empty(),
        },
        None => JsonV::empty(),
    }
}

/// What was done of a run.
pub enum JobEvent {
    /// The schedule was read: there is none, or it could not be read, or here it is.
    Read(Option<ScheduleRow>),
    /// The session of the run was made, or not.
    SessionMade(bool),
    /// The record of the run was made, or not.
    Recorded(bool),
    /// The recipe ran and left this session.
    Ran(String),
    /// The recipe failed, for a reason.
    RunFailed(String),
    /// The success was noted, or not.
    SuccessNoted(bool),
    /// The failure was noted, or not.
    FailureNoted(bool),
    /// The session of the run was dropped.
    Dropped,
}

/// What is to be done next of a run.
pub enum JobAction {
    MakeSession,
    Record,
    Run { recipe_id: String, parameters: Json },
    NoteSuccess(String),
    NoteFailure(String),
    DropSession,
    Stop,
}

/// The action that follows an event. A disabled schedule does not run, whatever fired. The
/// session of a run is dropped after it, unless its record still points to it: where a
/// failure could not be noted.
pub open spec fn follows(event: JobEvent, action: JobAction) -> bool {
    match event {
        JobEvent::Read(row) => match row {
            Some(job) => if job.enabled == 0 {
                action is Stop
            } else {
                action is MakeSession
            },
            None => action is Stop,
        },
        JobEvent::SessionMade(ok) => if ok {
            action is Record
        } else {
            action is Stop
        },
        JobEvent::Recorded(ok) => if ok {
            action is Run
        } else {
            action is DropSession
        },
        JobEvent::Ran(id) => action matches JobAction::NoteSuccess(s) && s@ == id@,
        JobEvent::RunFailed(e) => action matches JobAction::NoteFailure(s) && s@ == e@,
        JobEvent::SuccessNoted(_) => action is DropSession,
        JobEvent::FailureNoted(ok) => if ok {
            action is DropSession
        } else {
            action is Stop
        },
        JobEvent::Dropped => action is Stop,
    }
}

/// A run of a job.
pub struct JobRun {
    recipe_id: String,
    parameters: Json,
}

impl JobRun {
    /// The recipe that the run is for.
    pub closed spec fn recipe(&self) -> Seq<char> {
        self.recipe_id@
    }

    /// The parameters of the run.
    pub closed spec fn params(&self) -> JsonV {
        self.parameters@
    }

    /// A run of which nothing is known.
    pub fn new() -> (r: JobRun)
        ensures
            r.recipe() == ""@,
            r.params() == JsonV::empty(),
    {
        JobRun { recipe_id: owned(""), parameters: Json::object() }
    }

    /// What is to be done after an event.
    pub fn next(&mut self, event: JobEvent) -> (r: JobAction)
        ensures
            follows(event, r),
            match event {
                JobEvent::Read(Some(job)) => final(self).recipe() == job.recipe_id@
                    && final(self).params() == run_parameters(opt_string(job.parameters)),
                _ => final(self).recipe() == old(self).recipe() && final(self).params() == old(
                    self,
                ).params(),
            },
            r matches JobAction::Run { recipe_id, parameters } ==> recipe_id@ == old(
                self,
            ).recipe() && parameters@ == old(self).params(),
    {
        match event {
            JobEvent::Read(row) => match row {
                Some(job) => {
                    self.parameters = match &job.parameters {
                        Some(s) => match Json::parse(s.as_str()) {
                            Ok(j) => j,
                            Err(_) => Json::object(),
                        },
                        None => Json::object(),
                    };
                    self.recipe_id = job.recipe_id;
                    if job.enabled == 0 {
                        JobAction::Stop
                    } else {
                        JobAction::MakeSession
                    }
                },
                None => JobAction::Stop,
            },
            JobEvent::SessionMade(ok) => if ok {
                JobAction::Record
            } else {
                JobAction::Stop
            },
            JobEvent::Recorded(ok) => if ok {
                JobAction::Run {
                    recipe_id: self.recipe_id.clone(),
                    parameters: self.parameters.copy(),
                }
            } else {
                JobAction::DropSession
            },
            JobEvent::Ran(id) => JobAction::NoteSuccess(id),
            JobEvent::RunFailed(e) => JobAction::NoteFailure(e),
            JobEvent::SuccessNoted(_) => JobAction::DropSession,
            JobEvent::FailureNoted(ok) => if ok {
                JobAction::DropSession
            } else {
                JobAction::Stop
            },
            JobEvent::Dropped => JobAction::Stop,
        }
    }
}

/// The event tells what became of an action.
pub open spec fn answers(action: JobAction, event: JobEvent) -> bool {
    match action {
        JobAction::MakeSession => event is SessionMade,
        JobAction::Record => event is Recorded,
        JobAction::Run { .. } => event is Ran || event is RunFailed,
        JobAction::NoteSuccess(_) => event is SuccessNoted,
        JobAction::NoteFailure(_) => event is FailureNoted,
        JobAction::DropSession => event is Dropped,
        JobAction::Stop => false,
    }
}

/// A whole run: it begins with the reading of the schedule, each action follows an event,
/// each event after the first tells what became of the action before, and it ends.
pub open spec fn is_whole_run(events: Seq<JobEvent>, actions: Seq<JobAction>) -> bool {
    &&& events.len() == actions.len()
    &&& events.len() > 0
    &&& events[0] is Read
    &&& forall|i: int| 0 <= i < events.len() ==> follows(#[trigger] events[i], actions[i])
    &&& forall|i: int| 0 < i < events.len() ==> answers(actions[i - 1], #[trigger] events[i])
    &&& actions.last() is Stop
}

/// A run that made its session drops it, and does so last. The one exception is a failure
/// that could not be noted, for then the record still points to the session.
pub proof fn runs_leave_no_session(events: Seq<JobEvent>, actions: Seq<JobAction>)
    requires
        is_whole_run(events, actions),
    ensures
        events.contains(JobEvent::SessionMade(true)) ==> events.last() is Dropped || events.last()
            == JobEvent::FailureNoted(false),
        !events.contains(JobEvent::SessionMade(true)) ==> forall|i: int|
            0 <= i < events.len() ==> !(#[trigger] events[i] is Ran || events[i] is RunFailed),
{
    let n = events.len();
    assert(follows(events[0], actions[0]));
    if n > 1 {
        assert(answers(actions[0], events[1]));
        assert(follows(events[1], actions[1]));
        if n > 2 {
            assert(answers(actions[1], events[2]));
            assert(follows(events[2], actions[2]));
            assert(events[1] == JobEvent::SessionMade(true));
            if n > 3 {
                assert(answers(actions[2], events[3]));
                assert(follows(events[3], actions[3]));
                if n > 4 {
                    assert(answers(actions[3], events[4]));
                    assert(follows(events[4], actions[4]));
                    if n > 5 {
                        assert(answers(actions[4], events[5]));
                        assert(follows(events[5], actions[5]));
                        if n > 6 {
                            assert(answers(actions[5], events[6]));
                        }
                    }
                }
            }
        }
    }
}

/// The identifier of the session of a run.
pub open spec fn session_of_run(exec_id: Seq<char>) -> Seq<char> {
    "_job_"@ + exec_id
}

/// The name of the session of a run.
pub open spec fn name_of_run(job_id: Seq<char>) -> Seq<char> {
    "scheduled:"@ + job_id
}

/// The session of a run, under the identifier of the run.
pub fn run_session_id(exec_id: &str) -> (r: String)
    ensures
        r@ == session_of_run(exec_id@),
{
    join2("_job_", exec_id)
}

/// The name of the session of a run.
pub fn run_session_name(job_id: &str) -> (r: String)
    ensures
        r@ == name_of_run(job_id@),
{
    join2("scheduled:", job_id)
}

/// What is done with the clockwork after an attempt to register a job.
#[derive(Debug, Clone, Copy, PartialEq, Eq, Structural)]
pub enum Swap {
    /// The new entry counts, and this old one is retired.
    Retire(u64),
    /// The new entry counts, and there was none before.
    Fresh,
    /// The attempt failed: all is as before.
    Kept,
}

/// The entries of the clockwork by the jobs they fire.
pub struct LiveJobs {
    entries: Registry<u64>,
}

impl View for LiveJobs {
    type V = Map<Seq<char>, u64>;

    closed spec fn view(&self) -> Map<Seq<char>, u64> {
        self.entries@
    }
}

/// The entries once a job was registered, or the attempt failed.
pub open spec fn live_after(m: Map<Seq<char>, u64>, job_id: Seq<char>, new: Option<u64>) -> Map<
    Seq<char>,
    u64,
> {
    match new {
        Some(h) => m.insert(job_id, h),
        None => m,
    }
}

/// What is done with the clockwork then.
pub open spec fn swap_of(m: Map<Seq<char>, u64>, job_id: Seq<char>, new: Option<u64>) -> Swap {
    match new {
        Some(_) => if m.contains_key(job_id) {
            Swap::Retire(m[job_id])
        } else {
            Swap::Fresh
        },
        None => Swap::Kept,
    }
}

impl LiveJobs {
    /// The table is sound.
    pub closed spec fn wf(&self) -> bool {
        self.entries.wf()
    }

    /// No job registered.
    pub fn new() -> (r: LiveJobs)
        ensures
            r.wf(),
            r@ == Map::<Seq<char>, u64>::empty(),
    {
        LiveJobs { entries: Registry::new() }
    }

    /// A job was registered, or the attempt failed. The old entry is retired only once the
    /// new one is there, so that the job never stops firing; and where the new one cannot be
    /// had, nothing changes.
    pub fn swap(&mut self, job_id: &str, new: Option<u64>) -> (r: Swap)
        requires
            old(self).wf(),
        ensures
            final(self).wf(),
            final(self)@ == live_after(old(self)@, job_id@, new),
            r == swap_of(old(self)@, job_id@, new),
    {
        match new {
            Some(h) => {
                let old_entry: Option<u64> = match self.entries.get(job_id) {
                    Some(e) => Some(*e),
                    None => None,
                };
                self.entries.insert(job_id, h);
                match old_entry {
                    Some(e) => Swap::Retire(e),
                    None => Swap::Fresh,
                }
            },
            None => Swap::Kept,
        }
    }

    /// A job is taken out: its entry, where it has one, is to be removed from the clockwork.
    pub fn unregister(&mut self, job_id: &str) -> (r: Option<u64>)
        requires
            old(self).wf(),
        ensures
            final(self).wf(),
            final(self)@ == old(self)@.remove(job_id@),
            r == (if old(self)@.contains_key(job_id@) {
                Some(old(self)@[job_id@])
            } else {
                None
            }),
    {
        self.entries.remove(job_id)
    }
}

/// What was done of an edit.
pub enum EditEvent {
    /// The schedule was read, or it is not there.
    Read(Option<ScheduleRow>),
    /// The job was registered with its new times, or not.
    Registered(bool),
    Unregistered,
    /// The edit was stored, or not.
    Stored(bool),
    /// The job was registered again as it is stored, or not.
    Restored(bool),
}

/// How an edit ends.
#[derive(Debug, Clone, Copy, PartialEq, Eq, Structural)]
pub enum EditEnd {
    Done,
    NotFound,
    NotRegistered,
    NotStored,
}

/// What is to be done next of an edit.
pub enum EditAction {
    /// The job is registered with these times, in place of its old entry.
    Register(String),
    Unregister,
    Store,
    /// The job is unregistered, and registered with these times where there are any.
    Restore(Option<String>),
    Finish(EditEnd),
}

/// An edit of a schedule: what it changes, and what is stored. What it leaves out stays.
#[verifier::ext_equal]
pub struct EditV {
    pub cron: Option<Seq<char>>,
    pub enabled: Option<bool>,
    pub old_cron: Seq<char>,
    pub was_enabled: bool,
}

impl EditV {
    /// The times after the edit.
    pub open spec fn new_cron(self) -> Seq<char> {
        match self.cron {
            Some(c) => c,
            None => self.old_cron,
        }
    }

    /// Whether the schedule is enabled after the edit.
    pub open spec fn is_enabled(self) -> bool {
        match self.enabled {
            Some(b) => b,
            None => self.was_enabled,
        }
    }

    /// The edit once an event is known.
    pub open spec fn knows(self, event: EditEvent) -> EditV {
        match event {
            EditEvent::Read(Some(row)) => EditV {
                old_cron: row.cron@,
                was_enabled: row.enabled != 0,
                ..self
            },
            _ => self,
        }
    }

    /// The action that follows an event. The new times are tried before anything is stored;
    /// and where they cannot be stored, the clockwork goes back to what is stored.
    pub open spec fn follows(self, event: EditEvent, action: EditAction) -> bool {
        match event {
            EditEvent::Read(Some(_)) => if self.is_enabled() {
                action matches EditAction::Register(c) && c@ == self.new_cron()
            } else {
                action is Unregister
            },
            EditEvent::Read(None) => action == EditAction::Finish(EditEnd::NotFound),
            EditEvent::Registered(ok) => if ok {
                action is Store
            } else {
                action == EditAction::Finish(EditEnd::NotRegistered)
            },
            EditEvent::Unregistered => action is Store,
            EditEvent::Stored(ok) => if ok {
                action == EditAction::Finish(EditEnd::Done)
            } else {
                action matches EditAction::Restore(c) && opt_string(c) == if self.was_enabled {
                    Some(self.old_cron)
                } else {
                    None
                }
            },
            EditEvent::Restored(_) => action == EditAction::Finish(EditEnd::NotStored),
        }
    }
}

/// An edit of a schedule.
pub struct EditRun {
    cron: Option<String>,
    enabled: Option<bool>,
    old_cron: String,
    was_enabled: bool,
}

impl View for EditRun {
    type V = EditV;

    closed spec fn view(&self) -> EditV {
        EditV {
            cron: opt_string(self.cron),
            enabled: self.enabled,
            old_cron: self.old_cron@,
            was_enabled: self.was_enabled,
        }
    }
}

impl EditRun {
    /// An edit that changes these things.
    pub fn new(cron: Option<String>, enabled: Option<bool>) -> (r: EditRun)
        ensures
            r@.cron == opt_string(cron),
            r@.enabled == enabled,
    {
        EditRun { cron, enabled, old_cron: owned(""), was_enabled: false }
    }

    /// What is to be done after an event.
    pub fn next(&mut self, event: EditEvent) -> (r: EditAction)
        ensures
            final(self)@ == old(self)@.knows(event),
            final(self)@.follows(event, r),
    {
        match event {
            EditEvent::Read(row) => match row {
                Some(job) => {
                    self.was_enabled = job.enabled != 0;
                    self.old_cron = job.cron;
                    let enabled = match self.enabled {
                        Some(b) => b,
                        None => self.was_enabled,
                    };
                    if enabled {
                        EditAction::Register(
                            match &self.cron {
                                Some(c) => c.clone(),
                                None => self.old_cron.clone(),
                            },
                        )
                    } else {
                        EditAction::Unregister
                    }
                },
                None => EditAction::Finish(EditEnd::NotFound),
            },
            EditEvent::Registered(ok) => if ok {
                EditAction::Store
            } else {
                EditAction::Finish(EditEnd::NotRegistered)
            },
            EditEvent::Unregistered => EditAction::Store,
            EditEvent::Stored(ok) => if ok {
                EditAction::Finish(EditEnd::Done)
            } else if self.was_enabled {
                EditAction::Restore(Some(self.old_cron.clone()))
            } else {
                EditAction::Restore(None)
            },
            EditEvent::Restored(_) => EditAction::Finish(EditEnd::NotStored),
        }
    }
}

/// How one schedule stands: the times with which it fires, where it does, and what is
/// stored of it.
#[verifier::ext_equal]
pub struct JobV {
    pub live: Option<Seq<char>>,
    pub cron: Seq<char>,
    pub enabled: bool,
}

/// The schedule fires just as it is stored.
pub open spec fn in_step(w: JobV) -> bool {
    w.live == if w.enabled {
        Some(w.cron)
    } else {
        None
    }
}

/// How the schedule stands once an action was done as the event tells.
pub open spec fn acted(w: JobV, edit: EditV, action: EditAction, event: EditEvent) -> JobV {
    match action {
        EditAction::Register(c) => if event == EditEvent::Registered(true) {
            JobV { live: Some(c@), ..w }
        } else {
            w
        },
        EditAction::Unregister => JobV { live: None, ..w },
        EditAction::Store => if event == EditEvent::Stored(true) {
            JobV { cron: edit.new_cron(), enabled: edit.is_enabled(), ..w }
        } else {
            w
        },
        EditAction::Restore(c) => JobV {
            live: if event == EditEvent::Restored(true) {
                opt_string(c)
            } else {
                None
            },
            ..w
        },
        EditAction::Finish(_) => w,
    }
}

/// The event tells what became of an action of an edit.
pub open spec fn edit_answers(action: EditAction, event: EditEvent) -> bool {
    match action {
        EditAction::Register(_) => event is Registered,
        EditAction::Unregister => event is Unregistered,
        EditAction::Store => event is Stored,
        EditAction::Restore(_) => event is Restored,
        EditAction::Finish(_) => false,
    }
}

/// A whole edit of a schedule that is there, with how the schedule stood at each event.
pub open spec fn is_whole_edit(
    edit: EditV,
    row: ScheduleRow,
    events: Seq<EditEvent>,
    actions: Seq<EditAction>,
    worlds: Seq<JobV>,
) -> bool {
    &&& events.len() == actions.len()
    &&& events.len() == worlds.len()
    &&& events.len() > 0
    &&& events[0] == EditEvent::Read(Some(row))
    &&& edit == edit.knows(events[0])
    &&& worlds[0].cron == row.cron@
    &&& worlds[0].enabled == (row.enabled != 0)
    &&& forall|i: int| 0 <= i < events.len() ==> edit.follows(#[trigger] events[i], actions[i])
    &&& forall|i: int|
        0 < i < events.len() ==> edit_answers(actions[i - 1], #[trigger] events[i]) && worlds[i]
            == acted(worlds[i - 1], edit, actions[i - 1], events[i])
    &&& actions.last() is Finish
}

/// However an edit ends, the schedule fires just as it is stored, if it did so before: with
/// the new times where the edit is done, and as before where it is not. The one exception
/// is an edit that could not be stored and whose old times could not be registered again.
pub proof fn edits_keep_live_and_stored_in_step(
    edit: EditV,
    row: ScheduleRow,
    events: Seq<EditEvent>,
    actions: Seq<EditAction>,
    worlds: Seq<JobV>,
)
    requires
        is_whole_edit(edit, row, events, actions, worlds),
        in_step(worlds[0]),
        events.last() != EditEvent::Restored(false),
    ensures
        in_step(worlds.last()),
        actions.last() == EditAction::Finish(EditEnd::Done) ==> worlds.last().cron
            == edit.new_cron() && worlds.last().enabled == edit.is_enabled(),
        actions.last() != EditAction::Finish(EditEnd::Done) ==> worlds.last() == worlds[0],
{
    let n = events.len();
    assert(edit.follows(events[0], actions[0]));
    assert(n > 1);
    assert(edit_answers(actions[0], events[1]));
    assert(edit.follows(events[1], actions[1]));
    if n > 2 {
        assert(edit_answers(actions[1], events[2]));
        assert(edit.follows(events[2], actions[2]));
        if n > 3 {
            assert(edit_answers(actions[2], events[3]));
            assert(edit.follows(events[3], actions[3]));
            if n > 4 {
                assert(edit_answers(actions[3], events[4]));
            }
            assert(worlds.last() =~= worlds[0]);
        }
    }
}

/// What happened to a schedule that is being added.
#[derive(Debug, Clone, Copy, PartialEq, Eq, Structural)]
pub enum AddEvent {
    /// Whether its identifier is taken already.
    Looked(bool),
    /// Whether its times could be registered.
    Registered(bool),
    /// Whether it could be stored.
    Stored(bool),
    /// It was taken out of the clockwork again.
    Unregistered,
}

/// How an addition ends.
#[derive(Debug, Clone, Copy, PartialEq, Eq, Structural)]
pub enum AddEnd {
    Done,
    /// The identifier is taken.
    Taken,
    /// The times are not valid.
    NotRegistered,
    /// The schedule could not be stored.
    NotStored,
}

/// What is to be done about a schedule that is being added.
#[derive(Debug, Clone, Copy, PartialEq, Eq, Structural)]
pub enum AddAction {
    Register,
    Store,
    Unregister,
    Finish(AddEnd),
}

/// What follows an event: times are registered before the schedule is stored, so that times
/// that are not valid leave nothing behind; and they are taken out again where it cannot be
/// stored.
pub open spec fn add_follows(enabled: bool, event: AddEvent) -> AddAction {
    match event {
        AddEvent::Looked(taken) => if taken {
            AddAction::Finish(AddEnd::Taken)
        } else if enabled {
            AddAction::Register
        } else {
            AddAction::Store
        },
        AddEvent::Registered(ok) => if ok {
            AddAction::Store
        } else {
            AddAction::Finish(AddEnd::NotRegistered)
        },
        AddEvent::Stored(ok) => if ok {
            AddAction::Finish(AddEnd::Done)
        } else {
            AddAction::Unregister
        },
        AddEvent::Unregistered => AddAction::Finish(AddEnd::NotStored),
    }
}

/// The addition of a schedule.
#[derive(Debug, Clone, Copy, PartialEq, Eq, Structural)]
pub struct AddRun {
    pub enabled: bool,
}

impl AddRun {
    /// The addition of a schedule that is to fire, or not yet.
    pub fn new(enabled: bool) -> (r: AddRun)
        ensures
            r.enabled == enabled,
    {
        AddRun { enabled }
    }

    /// What is to be done after an event.
    pub fn next(&self, event: AddEvent) -> (r: AddAction)
        ensures
            r == add_follows(self.enabled, event),
    {
        match event {
            AddEvent::Looked(taken) => if taken {
                AddAction::Finish(AddEnd::Taken)
            } else if self.enabled {
                AddAction::Register
            } else {
                AddAction::Store
            },
            AddEvent::Registered(ok) => if ok {
                AddAction::Store
            } else {
                AddAction::Finish(AddEnd::NotRegistered)
            },
            AddEvent::Stored(ok) => if ok {
                AddAction::Finish(AddEnd::Done)
            } else {
                AddAction::Unregister
            },
            AddEvent::Unregistered => AddAction::Finish(AddEnd::NotStored),
        }
    }
}

/// How a new schedule stands: whether it fires and whether it is stored.
pub struct AddedV {
    pub live: bool,
    pub stored: bool,
}

/// How the new schedule stands once an action was done as the event tells.
pub open spec fn added(w: AddedV, action: AddAction, event: AddEvent) -> AddedV {
    match action {
        AddAction::Register => AddedV { live: w.live || event == AddEvent::Registered(true), ..w },
        AddAction::Store => AddedV { stored: w.stored || event == AddEvent::Stored(true), ..w },
        AddAction::Unregister => AddedV { live: false, ..w },
        AddAction::Finish(_) => w,
    }
}

/// The event tells what became of an action of an addition.
pub open spec fn add_answers(action: AddAction, event: AddEvent) -> bool {
    match action {
        AddAction::Register => event is Registered,
        AddAction::Store => event is Stored,
        AddAction::Unregister => event is Unregistered,
        AddAction::Finish(_) => false,
    }
}

/// An event answers what followed the one before it, and the schedule stands accordingly.
pub open spec fn add_step(
    enabled: bool,
    events: Seq<AddEvent>,
    worlds: Seq<AddedV>,
    i: int,
) -> bool {
    let action = add_follows(enabled, events[i - 1]);
    add_answers(action, events[i]) && worlds[i] == added(worlds[i - 1], action, events[i])
}

/// A whole addition, with how the schedule stood at each event.
pub open spec fn is_whole_add(enabled: bool, events: Seq<AddEvent>, worlds: Seq<AddedV>) -> bool {
    &&& events.len() > 0
    &&& events.len() == worlds.len()
    &&& events[0] is Looked
    &&& worlds[0] == (AddedV { live: false, stored: false })
    &&& forall|i: int| 0 < i < events.len() ==> #[trigger] add_step(enabled, events, worlds, i)
    &&& add_follows(enabled, events.last()) is Finish
}

/// However an addition ends, a schedule fires only if it is stored: one that is added is
/// stored, and fires where it is enabled; of one that is not added nothing is left.
pub proof fn additions_are_whole_or_nothing(
    enabled: bool,
    events: Seq<AddEvent>,
    worlds: Seq<AddedV>,
)
    requires
        is_whole_add(enabled, events, worlds),
    ensures
        worlds.last() == if add_follows(enabled, events.last()) == AddAction::Finish(AddEnd::Done) {
            AddedV { live: enabled, stored: true }
        } else {
            AddedV { live: false, stored: false }
        },
{
    let n = events.len();
    if n > 1 {
        assert(add_step(enabled, events, worlds, 1));
        if n > 2 {
            assert(add_step(enabled, events, worlds, 2));
            if n > 3 {
                assert(add_step(enabled, events, worlds, 3));
                if n > 4 {
                    assert(add_step(enabled, events, worlds, 4));
                }
            }
        }
    }
}

/// The schedules that are registered at the start: those that are enabled.
pub open spec fn enabled_rows(rows: Seq<ScheduleRow>) -> Seq<ScheduleRow>
    decreases rows.len(),
{
    if rows.len() == 0 {
        Seq::empty()
    } else if rows.last().enabled != 0 {
        enabled_rows(rows.drop_last()).push(rows.last())
    } else {
        enabled_rows(rows.drop_last())
    }
}

/// The schedules that are registered at the start.
pub fn enabled_jobs(rows: Vec<ScheduleRow>) -> (r: Vec<ScheduleRow>)
    ensures
        r@ == enabled_rows(rows@),
{
    let ghost all = rows@;
    let mut rest = rows;
    let mut out: Vec<ScheduleRow> = Vec::new();
    let ghost mut k: int = 0;
    proof {
        assert(all.take(0) =~= Seq::empty());
        assert(all.skip(0) =~= all);
    }
    while rest.len() > 0
        invariant
            0 <= k <= all.len(),
            rest@ == all.skip(k),
            out@ == enabled_rows(all.take(k)),
        decreases rest@.len(),
    {
        let row = rest.remove(0);
        proof {
            assert(row == all[k]);
            assert(all.take(k + 1).drop_last() =~= all.take(k));
            assert(rest@ =~= all.skip(k + 1));
            k = k + 1;
        }
        if row.enabled != 0 {
            out.push(row);
        }
    }
    proof {
        assert(all.take(k) =~= all);
    }
    out
}

/// The error of an identifier that is taken.
pub fn collision(id: &str) -> (r: SchedulerError)
    ensures
        r matches SchedulerError::Cron(m) && m@ == "schedule id collision, retry: "@ + id@,
{
    SchedulerError::Cron(join2("schedule id collision, retry: ", id))
}

/// Times of five fields fire at the full minute, and times with seconds as they say.
pub proof fn times_fire_at_the_full_minute(cron: Seq<char>)
    ensures
        word_count(cron) == 5 ==> seconds_cron(cron) == "0 "@ + cron,
        word_count(cron) != 5 ==> seconds_cron(cron) == cron,
{
}

/// A run has the parameters that are stored for it, none where nothing readable is stored.
pub proof fn runs_have_their_parameters(text: Seq<char>)
    ensures
        json_of_text(text) matches Some(j) ==> run_parameters(Some(text)) == j,
        json_of_text(text) is None ==> run_parameters(Some(text)) == JsonV::empty(),
        run_parameters(None) == JsonV::empty(),
{
}

/// A job that is enabled runs its recipe, where its session and its record can be made, and
/// what comes of it is noted: the session of a success, the reason of a failure. A job that is
/// not there or not enabled does nothing.
pub proof fn enabled_jobs_run_and_are_noted(row: ScheduleRow, said: String, action: JobAction)
    ensures
        follows(JobEvent::Read(Some(row)), action) ==> (row.enabled != 0 ==> action is MakeSession)
            && (row.enabled == 0 ==> action is Stop),
        follows(JobEvent::Read(None), action) ==> action is Stop,
        follows(JobEvent::SessionMade(true), action) ==> action is Record,
        follows(JobEvent::SessionMade(false), action) ==> action is Stop,
        follows(JobEvent::Recorded(true), action) ==> action is Run,
        follows(JobEvent::Recorded(false), action) ==> action is DropSession,
        follows(JobEvent::Ran(said), action) ==> (action matches JobAction::NoteSuccess(s) && s@
            == said@),
        follows(JobEvent::RunFailed(said), action) ==> (action matches JobAction::NoteFailure(s)
            && s@ == said@),
        follows(JobEvent::SuccessNoted(true), action) ==> action is DropSession,
        follows(JobEvent::SuccessNoted(false), action) ==> action is DropSession,
        follows(JobEvent::FailureNoted(true), action) ==> action is DropSession,
        follows(JobEvent::FailureNoted(false), action) ==> action is Stop,
        follows(JobEvent::Dropped, action) ==> action is Stop,
{
}

/// An edit changes what it names and leaves the rest: the times that are not named stay, and
/// so does the switch.
pub proof fn edits_change_what_they_name(edit: EditV, row: ScheduleRow)
    ensures
        ({
            let known = edit.knows(EditEvent::Read(Some(row)));
            &&& known.new_cron() == (match edit.cron {
                Some(c) => c,
                None => row.cron@,
            })
            &&& known.is_enabled() == (match edit.enabled {
                Some(b) => b,
                None => row.enabled != 0,
            })
        }),
{
}

/// An edit that meets no failure is done: a schedule that is enabled after it is registered
/// with its new times and then stored; one that is not is taken out and then stored. Where it
/// cannot be stored, the old times are registered again.
pub proof fn edits_without_failures_are_done(edit: EditV, row: ScheduleRow, action: EditAction)
    ensures
        edit.follows(EditEvent::Read(Some(row)), action) ==> (if edit.is_enabled() {
            action matches EditAction::Register(c) && c@ == edit.new_cron()
        } else {
            action is Unregister
        }),
        edit.follows(EditEvent::Read(None), action) ==> action == EditAction::Finish(
            EditEnd::NotFound,
        ),
        edit.follows(EditEvent::Registered(true), action) ==> action is Store,
        edit.follows(EditEvent::Unregistered, action) ==> action is Store,
        edit.follows(EditEvent::Stored(true), action) ==> action == EditAction::Finish(
            EditEnd::Done,
        ),
        edit.follows(EditEvent::Registered(false), action) ==> action == EditAction::Finish(
            EditEnd::NotRegistered,
        ),
        edit.follows(EditEvent::Stored(false), action) ==> (action matches EditAction::Restore(c)
            && opt_string(c) == (if edit.was_enabled {
            Some(edit.old_cron)
        } else {
            None
        })),
        edit.follows(EditEvent::Restored(true), action) ==> action == EditAction::Finish(
            EditEnd::NotStored,
        ),
{
}

/// An addition that meets no failure is done: a schedule that is to fire is registered and then
/// stored, and one that is not is stored alone. One whose identifier is taken is not added.
pub proof fn additions_without_failures_are_done(enabled: bool)
    ensures
        add_follows(true, AddEvent::Looked(false)) == AddAction::Register,
        add_follows(false, AddEvent::Looked(false)) == AddAction::Store,
        add_follows(enabled, AddEvent::Registered(true)) == AddAction::Store,
        add_follows(enabled, AddEvent::Stored(true)) == AddAction::Finish(AddEnd::Done),
        add_follows(enabled, AddEvent::Looked(true)) == AddAction::Finish(AddEnd::Taken),
        add_follows(enabled, AddEvent::Registered(false)) == AddAction::Finish(
            AddEnd::NotRegistered,
        ),
        add_follows(enabled, AddEvent::Stored(false)) == AddAction::Unregister,
        add_follows(enabled, AddEvent::Unregistered) == AddAction::Finish(AddEnd::NotStored),
{
}

/// At the start the schedules that are enabled are registered, in order, and no others.
pub proof fn enabled_schedules_are_registered(rows: Seq<ScheduleRow>, row: ScheduleRow)
    ensures
        enabled_rows(Seq::empty()).len() == 0,
        enabled_rows(rows.push(row)) == (if row.enabled != 0 {
            enabled_rows(rows).push(row)
        } else {
            enabled_rows(rows)
        }),
{
    assert(rows.push(row).drop_last() =~= rows);
}

/// A job fires by its new entry once it has one, and its old entry is retired; where it gets
/// none it fires as before. Other jobs are not touched.
pub proof fn jobs_fire_by_one_entry(m: Map<Seq<char>, u64>, job_id: Seq<char>, h: u64, other: Seq<char>)
    requires
        other != job_id,
    ensures
        live_after(m, job_id, Some(h)).contains_pair(job_id, h),
        live_after(m, job_id, Some(h)).contains_key(other) == m.contains_key(other),
        m.contains_key(other) ==> live_after(m, job_id, Some(h))[other] == m[other],
        live_after(m, job_id, None) == m,
        m.contains_key(job_id) ==> swap_of(m, job_id, Some(h)) == Swap::Retire(m[job_id]),
        !m.contains_key(job_id) ==> swap_of(m, job_id, Some(h)) == Swap::Fresh,
        swap_of(m, job_id, None) == Swap::Kept,
{
}

/// The session of a run is told from those of users, and named after its job.
pub proof fn run_sessions_are_told_apart(exec_id: Seq<char>, job_id: Seq<char>)
    ensures
        session_of_run(exec_id) == "_job_"@ + exec_id,
        name_of_run(job_id) == "scheduled:"@ + job_id,
{
}

} // verus!
