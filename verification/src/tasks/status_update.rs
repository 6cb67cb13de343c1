//! The daily status-update check: remind the members who have not sent
//! today's update, and report to the roster service, member by member, who
//! has.
//!
//! The job calls out to its collaborators, and none of the calls is tried
//! twice: the first that fails ends the invocation with that failure. The
//! calls are made by the caller; this module says which call comes next.
use crate::graphql::queries::members_view;
use vstd::string::StringExecFns;
use crate::tasks::{JobError, Outcome};
use crate::utils::storage::ExcludedMembers;
use vstd::prelude::*;

verus! {

/// The member is on the exclusion list. A member with an identifier below
/// zero never is.
pub open spec fn is_excluded(id: i32, excluded: Set<u64>) -> bool {
    id >= 0 && excluded.contains(id as u64)
}

/// The member is to be reminded: is not on the exclusion list and has not
/// sent today's update.
pub open spec fn needs_reminder(
    member: (Seq<char>, i32),
    excluded: Set<u64>,
    senders: Seq<i32>,
) -> bool {
    !is_excluded(member.1, excluded) && !senders.contains(member.1)
}

/// The rule that picks the members to remind.
pub open spec fn reminder_rule(excluded: Set<u64>, senders: Seq<i32>) -> spec_fn(
    (Seq<char>, i32),
) -> bool {
    |member: (Seq<char>, i32)| needs_reminder(member, excluded, senders)
}

/// The members to remind, in the order of the roster.
pub open spec fn reminder_targets(
    roster: Seq<(Seq<char>, i32)>,
    excluded: Set<u64>,
    senders: Seq<i32>,
) -> Seq<(Seq<char>, i32)> {
    roster.filter(reminder_rule(excluded, senders))
}

/// What is reported to the roster service: for each member of the roster,
/// in its order, whether the member has sent today's update.
pub open spec fn streak_reports(roster: Seq<(Seq<char>, i32)>, senders: Seq<i32>) -> Seq<
    (i32, bool),
> {
    roster.map_values(|member: (Seq<char>, i32)| (member.1, senders.contains(member.1)))
}

/// The number of seconds in a day.
pub const SECONDS_PER_DAY: u64 = 86_400;

/// Two instants, in seconds since the epoch, lie on the same day.
pub open spec fn on_same_day(first: u64, second: u64) -> bool {
    first / SECONDS_PER_DAY == second / SECONDS_PER_DAY
}

/// Whether two instants, in seconds since the epoch, lie on the same day.
pub fn same_day(first: u64, second: u64) -> (b: bool)
    ensures
        b == on_same_day(first, second),
{
    first / SECONDS_PER_DAY == second / SECONDS_PER_DAY
}

/// The members whose name is among the names of those who wrote an update
/// today, by their identifiers and in the order of the roster.
pub open spec fn named_senders(roster: Seq<(Seq<char>, i32)>, authors: Seq<Seq<char>>) -> Seq<i32>
    decreases roster.len(),
{
    if roster.len() == 0 {
        Seq::empty()
    } else {
        let earlier = named_senders(roster.drop_last(), authors);
        if authors.contains(roster.last().0) {
            earlier.push(roster.last().1)
        } else {
            earlier
        }
    }
}

/// The names of the authors, as plain values.
pub open spec fn names_view(names: Seq<String>) -> Seq<Seq<char>> {
    names.map_values(|name: String| name@)
}

/// The first line of the reminder.
pub const REMINDER_HEADING: &'static str =
    "These members have not sent their status update today:";

/// The lines that name the given members: for each a line feed, a dash, a
/// blank and the name.
pub open spec fn reminder_lines(targets: Seq<(Seq<char>, i32)>) -> Seq<char>
    decreases targets.len(),
{
    if targets.len() == 0 {
        Seq::empty()
    } else {
        reminder_lines(targets.drop_last()) + "\n- "@ + targets.last().0
    }
}

/// The text of the reminder: the heading, then one line for each member
/// to remind.
pub open spec fn reminder_text(targets: Seq<(Seq<char>, i32)>) -> Seq<char> {
    REMINDER_HEADING@ + reminder_lines(targets)
}

/// What one invocation has to do.
#[derive(Debug, PartialEq, Eq)]
pub struct StatusUpdatePlan {
    /// The members to remind.
    pub reminders: Vec<(String, i32)>,
    /// What to report to the roster service.
    pub reports: Vec<(i32, bool)>,
}

/// Whether `id` is among the members who sent an update.
pub fn has_sent(senders: &Vec<i32>, id: i32) -> (b: bool)
    ensures
        b == senders@.contains(id),
{
    let mut i: usize = 0;
    while i < senders.len()
        invariant
            i <= senders@.len(),
            forall|k: int| 0 <= k < i ==> senders@[k] != id,
        decreases senders@.len() - i,
    {
        if senders[i] == id {
            return true;
        }
        i = i + 1;
    }
    false
}

/// Whether `name` is the name of one of the authors.
pub fn is_author(authors: &Vec<String>, name: &String) -> (b: bool)
    ensures
        b == names_view(authors@).contains(name@),
{
    let ghost names = names_view(authors@);
    let mut j: usize = 0;
    while j < authors.len()
        invariant
            j <= authors@.len(),
            names == names_view(authors@),
            forall|k: int| 0 <= k < j ==> names[k] != name@,
        decreases authors@.len() - j,
    {
        if authors[j] == *name {
            assert(names[j as int] == name@);
            return true;
        }
        j = j + 1;
    }
    false
}

/// Finds the members who have sent today's update: those whose name is
/// the name of an author of one of today's updates.
pub fn senders_by_name(roster: &Vec<(String, i32)>, authors: &Vec<String>) -> (senders: Vec<i32>)
    ensures
        senders@ == named_senders(members_view(roster@), names_view(authors@)),
{
    let mut senders: Vec<i32> = Vec::new();
    let ghost all = members_view(roster@);
    let ghost names = names_view(authors@);
    let mut i: usize = 0;
    assert(all.take(0) =~= Seq::empty());
    while i < roster.len()
        invariant
            i <= roster@.len(),
            all == members_view(roster@),
            names == names_view(authors@),
            senders@ == named_senders(all.take(i as int), names),
        decreases roster@.len() - i,
    {
        let found = is_author(authors, &roster[i].0);
        if found {
            senders.push(roster[i].1);
        }
        proof {
            let more = all.take(i + 1);
            assert(more.drop_last() =~= all.take(i as int));
            assert(more.last() == all[i as int]);
            assert(all[i as int] == (roster@[i as int].0@, roster@[i as int].1));
        }
        i = i + 1;
    }
    assert(all.take(i as int) =~= all);
    senders
}

/// Writes the reminder that names the given members.
pub fn reminder_message(targets: &Vec<(String, i32)>) -> (text: String)
    ensures
        text@ == reminder_text(members_view(targets@)),
{
    let mut text = String::from_str(REMINDER_HEADING);
    let ghost all = members_view(targets@);
    let mut i: usize = 0;
    assert(all.take(0) =~= Seq::empty());
    while i < targets.len()
        invariant
            i <= targets@.len(),
            all == members_view(targets@),
            text@ == REMINDER_HEADING@ + reminder_lines(all.take(i as int)),
        decreases targets@.len() - i,
    {
        text.append("\n- ");
        text.append(targets[i].0.as_str());
        proof {
            let more = all.take(i + 1);
            assert(more.drop_last() =~= all.take(i as int));
            assert(more.last().0 == targets@[i as int].0@);
            assert(text@ =~= REMINDER_HEADING@ + reminder_lines(more));
        }
        i = i + 1;
    }
    assert(all.take(i as int) =~= all);
    text
}

/// Works out what one invocation has to do, from the roster, the
/// exclusion list and the members who have sent today's update.
pub fn plan_status_update(
    roster: &Vec<(String, i32)>,
    excluded: &ExcludedMembers,
    senders: &Vec<i32>,
) -> (plan: StatusUpdatePlan)
    ensures
        members_view(plan.reminders@) == reminder_targets(
            members_view(roster@),
            excluded.members(),
            senders@,
        ),
        plan.reports@ == streak_reports(members_view(roster@), senders@),
{
    let mut reminders: Vec<(String, i32)> = Vec::new();
    let mut reports: Vec<(i32, bool)> = Vec::new();
    let ghost all = members_view(roster@);
    let ghost rule = reminder_rule(excluded.members(), senders@);
    let mut i: usize = 0;
    proof {
        reveal(Seq::filter);
        assert(all.take(0) =~= Seq::empty());
        assert(members_view(reminders@) =~= all.take(0).filter(rule));
    }
    while i < roster.len()
        invariant
            i <= roster@.len(),
            all == members_view(roster@),
            rule == reminder_rule(excluded.members(), senders@),
            members_view(reminders@) == all.take(i as int).filter(rule),
            reports@ == streak_reports(all.take(i as int), senders@),
        decreases roster@.len() - i,
    {
        let id: i32 = roster[i].1;
        let sent = has_sent(senders, id);
        let listed = id >= 0 && excluded.contains(id as u64);
        let ghost before = members_view(reminders@);
        if !listed && !sent {
            reminders.push((roster[i].0.clone(), id));
        }
        reports.push((id, sent));
        proof {
            reveal(Seq::filter);
            let more = all.take(i + 1);
            assert(more.drop_last() =~= all.take(i as int));
            assert(more.last() == all[i as int]);
            assert(all[i as int] == (roster@[i as int].0@, id));
            assert(rule(all[i as int]) == (!listed && !sent));
            if !listed && !sent {
                assert(members_view(reminders@) =~= before.push(all[i as int]));
            } else {
                assert(members_view(reminders@) =~= before);
            }
            assert(members_view(reminders@) == more.filter(rule));
            assert(reports@ =~= streak_reports(more, senders@));
        }
        i = i + 1;
    }
    proof {
        assert(all.take(i as int) =~= all);
    }
    StatusUpdatePlan { reminders, reports }
}

/// Where an invocation stands.
#[derive(Clone, Copy, Debug, PartialEq, Eq, Structural)]
pub enum RunPhase {
    /// Not begun.
    Ready,
    /// The roster has been asked for.
    Fetching,
    /// The reminder is being posted.
    Posting,
    /// A report is being sent.
    Reporting,
    /// Over.
    Done,
}

/// The call that comes next.
#[derive(Debug, PartialEq, Eq)]
pub enum RunAction {
    /// Ask the roster service for the roster, and tell the invocation the
    /// roster together with the exclusion list and the members who have sent
    /// today's update.
    Fetch,
    /// Post a reminder that names these members, and tell the invocation
    /// how that went.
    Remind { targets: Vec<(String, i32)> },
    /// Report to the roster service whether this member has sent today's
    /// update, and tell the invocation how that went.
    Report { id: i32, has_sent_update: bool },
    /// None: the invocation is over, with this outcome.
    Finish { outcome: Outcome },
    /// None: the invocation did not expect what it was told.
    Ignore,
}

/// A call as plain values.
pub enum RunActionModel {
    Fetch,
    Remind { targets: Seq<(Seq<char>, i32)> },
    Report { id: i32, has_sent_update: bool },
    Finish { outcome: Outcome },
    Ignore,
}

impl View for RunAction {
    type V = RunActionModel;

    open spec fn view(&self) -> RunActionModel {
        match self {
            RunAction::Fetch => RunActionModel::Fetch,
            RunAction::Remind { targets } => RunActionModel::Remind {
                targets: members_view(targets@),
            },
            RunAction::Report { id, has_sent_update } => RunActionModel::Report {
                id: *id,
                has_sent_update: *has_sent_update,
            },
            RunAction::Finish { outcome } => RunActionModel::Finish { outcome: *outcome },
            RunAction::Ignore => RunActionModel::Ignore,
        }
    }
}

/// One invocation of the status-update check, as plain values: where it
/// stands, the reports it has to send, and how many of them were sent.
pub struct RunModel {
    pub phase: RunPhase,
    pub reports: Seq<(i32, bool)>,
    pub sent: nat,
}

impl RunModel {
    /// An invocation that has not begun.
    pub open spec fn ready() -> RunModel {
        RunModel { phase: RunPhase::Ready, reports: Seq::empty(), sent: 0 }
    }

    /// An invocation that is over.
    pub open spec fn done(self) -> RunModel {
        RunModel { phase: RunPhase::Done, reports: self.reports, sent: self.sent }
    }

    /// The invocation about to send the report at `index`, and the call
    /// for it; or, if there is no such report, the invocation over with
    /// success.
    pub open spec fn report_from(self, index: nat) -> (RunModel, RunActionModel) {
        if index < self.reports.len() {
            (
                RunModel { phase: RunPhase::Reporting, reports: self.reports, sent: index },
                RunActionModel::Report {
                    id: self.reports[index as int].0,
                    has_sent_update: self.reports[index as int].1,
                },
            )
        } else {
            (
                RunModel { phase: RunPhase::Done, reports: self.reports, sent: self.reports.len() },
                RunActionModel::Finish { outcome: Ok(()) },
            )
        }
    }

    /// What follows the beginning: the roster is asked for.
    pub open spec fn begun(self) -> (RunModel, RunActionModel) {
        if self.phase == RunPhase::Ready {
            (
                RunModel { phase: RunPhase::Fetching, reports: self.reports, sent: self.sent },
                RunActionModel::Fetch,
            )
        } else {
            (self, RunActionModel::Ignore)
        }
    }

    /// What follows the answer of the roster service.
    ///
    /// If the roster could not be had, the invocation is over with that
    /// failure. If there is someone to remind, the reminder is posted next.
    /// If not, the first report is sent next; and with no report to send,
    /// which is so for the empty roster, the invocation is over with
    /// success, and nothing was posted or reported.
    pub open spec fn answered(
        self,
        roster: Result<Seq<(Seq<char>, i32)>, JobError>,
        excluded: Set<u64>,
        senders: Seq<i32>,
    ) -> (RunModel, RunActionModel) {
        if self.phase != RunPhase::Fetching {
            (self, RunActionModel::Ignore)
        } else {
            match roster {
                Err(e) => (self.done(), RunActionModel::Finish { outcome: Err(e) }),
                Ok(members) => {
                    let targets = reminder_targets(members, excluded, senders);
                    let planned = RunModel {
                        phase: RunPhase::Posting,
                        reports: streak_reports(members, senders),
                        sent: 0,
                    };
                    if targets.len() > 0 {
                        (planned, RunActionModel::Remind { targets })
                    } else {
                        planned.report_from(0)
                    }
                },
            }
        }
    }

    /// What follows the end of a call that the invocation asked for.
    ///
    /// A call that failed ends the invocation with that failure: nothing
    /// is tried twice and nothing more is sent. After the reminder the first
    /// report is sent, after a report the next one, and after the last one
    /// the invocation is over with success.
    pub open spec fn completed(self, result: Outcome) -> (RunModel, RunActionModel) {
        match self.phase {
            RunPhase::Posting => match result {
                Err(e) => (self.done(), RunActionModel::Finish { outcome: Err(e) }),
                Ok(_) => self.report_from(0),
            },
            RunPhase::Reporting => match result {
                Err(e) => (self.done(), RunActionModel::Finish { outcome: Err(e) }),
                Ok(_) => self.report_from(self.sent + 1),
            },
            _ => (self, RunActionModel::Ignore),
        }
    }
}

/// One invocation of the status-update check.
#[derive(Debug)]
pub struct StatusUpdateRun {
    phase: RunPhase,
    reports: Vec<(i32, bool)>,
    sent: usize,
}

impl View for StatusUpdateRun {
    type V = RunModel;

    closed spec fn view(&self) -> RunModel {
        RunModel { phase: self.phase, reports: self.reports@, sent: self.sent as nat }
    }
}

impl StatusUpdateRun {
    /// An invocation that has not begun.
    pub fn new() -> (run: StatusUpdateRun)
        ensures
            run@ == RunModel::ready(),
    {
        StatusUpdateRun { phase: RunPhase::Ready, reports: Vec::new(), sent: 0 }
    }

    /// Where the invocation stands.
    pub fn phase(&self) -> (phase: RunPhase)
        ensures
            phase == self@.phase,
    {
        self.phase
    }

    /// Goes on to the report at `index`, or ends the invocation with
    /// success if there is none.
    fn report_from(&mut self, index: usize) -> (action: RunAction)
        ensures
            (final(self)@, action@) == old(self)@.report_from(index as nat),
    {
        if index < self.reports.len() {
            self.sent = index;
            self.phase = RunPhase::Reporting;
            RunAction::Report { id: self.reports[index].0, has_sent_update: self.reports[index].1 }
        } else {
            self.sent = self.reports.len();
            self.phase = RunPhase::Done;
            RunAction::Finish { outcome: Ok(()) }
        }
    }

    /// Begins the invocation.
    pub fn begin(&mut self) -> (action: RunAction)
        ensures
            (final(self)@, action@) == old(self)@.begun(),
    {
        match self.phase {
            RunPhase::Ready => {
                self.phase = RunPhase::Fetching;
                RunAction::Fetch
            },
            _ => RunAction::Ignore,
        }
    }

    /// Takes the roster, or the failure to get it, together with the
    /// exclusion list and the members who have sent today's update.
    pub fn on_roster(
        &mut self,
        roster: Result<Vec<(String, i32)>, JobError>,
        excluded: &ExcludedMembers,
        senders: &Vec<i32>,
    ) -> (action: RunAction)
        ensures
            (final(self)@, action@) == old(self)@.answered(
                match roster {
                    Ok(members) => Ok(members_view(members@)),
                    Err(e) => Err(e),
                },
                excluded.members(),
                senders@,
            ),
    {
        match self.phase {
            RunPhase::Fetching => match roster {
                Err(e) => {
                    self.phase = RunPhase::Done;
                    RunAction::Finish { outcome: Err(e) }
                },
                Ok(members) => {
                    let plan = plan_status_update(&members, excluded, senders);
                    self.reports = plan.reports;
                    self.sent = 0;
                    self.phase = RunPhase::Posting;
                    if plan.reminders.len() > 0 {
                        RunAction::Remind { targets: plan.reminders }
                    } else {
                        self.report_from(0)
                    }
                },
            },
            _ => RunAction::Ignore,
        }
    }

    /// Takes the result of the call that the invocation asked for last.
    pub fn on_completed(&mut self, result: Outcome) -> (action: RunAction)
        ensures
            (final(self)@, action@) == old(self)@.completed(result),
    {
        match self.phase {
            RunPhase::Posting => match result {
                Err(e) => {
                    self.phase = RunPhase::Done;
                    RunAction::Finish { outcome: Err(e) }
                },
                Ok(_) => self.report_from(0),
            },
            RunPhase::Reporting => match result {
                Err(e) => {
                    self.phase = RunPhase::Done;
                    RunAction::Finish { outcome: Err(e) }
                },
                Ok(_) => {
                    if self.sent < self.reports.len() {
                        let index: usize = self.sent + 1;
                        self.report_from(index)
                    } else {
                        let index: usize = self.reports.len();
                        self.report_from(index)
                    }
                },
            },
            _ => RunAction::Ignore,
        }
    }
}

/// With the empty roster the invocation is over at once, with success:
/// nobody is reminded and nothing is reported.
pub proof fn lemma_empty_roster_finishes(run: RunModel, excluded: Set<u64>, senders: Seq<i32>)
    requires
        run.phase == RunPhase::Fetching,
    ensures
        run.answered(Ok(Seq::empty()), excluded, senders) == (
            RunModel { phase: RunPhase::Done, reports: Seq::empty(), sent: 0 },
            RunActionModel::Finish { outcome: Ok(()) },
        ),
{
    reveal(Seq::filter);
    let nobody = Seq::<(Seq<char>, i32)>::empty();
    assert(reminder_targets(nobody, excluded, senders) =~= nobody);
    assert(streak_reports(nobody, senders) =~= Seq::<(i32, bool)>::empty());
}

/// A member on the exclusion list is not reminded, nor is one who has sent
/// today's update; every other member of the roster is.
pub proof fn lemma_reminder_targets(
    roster: Seq<(Seq<char>, i32)>,
    excluded: Set<u64>,
    senders: Seq<i32>,
)
    ensures
        forall|member: (Seq<char>, i32)|
            #[trigger] reminder_targets(roster, excluded, senders).contains(member) <==> (
            roster.contains(member) && needs_reminder(member, excluded, senders)),
        reminder_targets(roster, excluded, senders).len() <= roster.len(),
    decreases roster.len(),
{
    reveal(Seq::filter);
    let rule = reminder_rule(excluded, senders);
    let targets = reminder_targets(roster, excluded, senders);
    if roster.len() > 0 {
        let front = roster.drop_last();
        lemma_reminder_targets(front, excluded, senders);
        let earlier = reminder_targets(front, excluded, senders);
        assert forall|member: (Seq<char>, i32)| #[trigger]
            targets.contains(member) <==> (roster.contains(member) && needs_reminder(
                member,
                excluded,
                senders,
            )) by {
            if targets.contains(member) {
                let i = choose|i: int| 0 <= i < targets.len() && targets[i] == member;
                if i < earlier.len() {
                    assert(earlier[i] == member);
                    assert(earlier.contains(member));
                    let j = choose|j: int| 0 <= j < front.len() && front[j] == member;
                    assert(roster[j] == member);
                } else {
                    assert(roster[roster.len() - 1] == member);
                }
            }
            if roster.contains(member) && needs_reminder(member, excluded, senders) {
                let j = choose|j: int| 0 <= j < roster.len() && roster[j] == member;
                if j < front.len() {
                    assert(front[j] == member);
                    assert(earlier.contains(member));
                    let i = choose|i: int| 0 <= i < earlier.len() && earlier[i] == member;
                    assert(targets[i] == member);
                } else {
                    assert(targets[targets.len() - 1] == member);
                }
            }
        }
    }
}

/// An invocation that is over takes nothing more: whatever it is told,
/// it stays as it is and asks for no call.
pub proof fn lemma_done_is_final(
    run: RunModel,
    roster: Result<Seq<(Seq<char>, i32)>, JobError>,
    excluded: Set<u64>,
    senders: Seq<i32>,
    result: Outcome,
)
    requires
        run.phase == RunPhase::Done,
    ensures
        run.begun() == (run, RunActionModel::Ignore),
        run.answered(roster, excluded, senders) == (run, RunActionModel::Ignore),
        run.completed(result) == (run, RunActionModel::Ignore),
{
}

} // verus!
