use vstd::prelude::*;
use crate::clock::{elapsed_since_rfc3339, num_days, rfc3339_elapsed, whole_days, Now};
use crate::text::{
    contains, contains_exec, chars_of, str_eq, string_from_chars, copy_str, starts_with, starts_with_exec, find_from,
    find_from_exec, lemma_find_from_bounds, parse_i64, parse_i64_exec, sub_chars, signed_decimal,
    i64_decimal, append_chars, lemma_find_from, lemma_parse_signed_decimal, occurs_at, no_char, join_with,
};

verus! {

/// Days a chat is observed before the spam count is judged.
pub const OBSERVATION_DAYS: i64 = 3;

/// Spam messages in the observation period that make a chat worth a report.
pub const REPORT_SPAM_THRESHOLD: i32 = 10;

/// Days of silence after a report before a chat is observed again.
pub const SILENCE_DAYS: i64 = 11;

/// Members with this many messages in the chat's history are trusted.
pub const ACTIVE_MEMBER_MESSAGES: u32 = 500;

/// The monitoring status of a chat, as stored.
#[derive(Clone, Copy, Debug, PartialEq, Eq, Structural)]
pub enum MonitorStatus {
    Collecting,
    Silence,
    NotRelevant,
    /// Any other stored text.
    Other,
}

pub open spec fn monitor_status_of(s: Seq<char>) -> MonitorStatus {
    if s == "collecting"@ {
        MonitorStatus::Collecting
    } else if s == "silence"@ {
        MonitorStatus::Silence
    } else if s == "not_relevant"@ {
        MonitorStatus::NotRelevant
    } else {
        MonitorStatus::Other
    }
}

/// Reads a stored status text.
pub fn monitor_status_from_str(s: &str) -> (res: MonitorStatus)
    ensures
        res == monitor_status_of(s@),
{
    if str_eq(s, "collecting") {
        MonitorStatus::Collecting
    } else if str_eq(s, "silence") {
        MonitorStatus::Silence
    } else if str_eq(s, "not_relevant") {
        MonitorStatus::NotRelevant
    } else {
        MonitorStatus::Other
    }
}

/// A chat's monitoring record.
#[derive(Clone, Debug)]
pub struct MonitorRecord {
    pub status: MonitorStatus,
    pub spam_count: i32,
    pub total_messages: i32,
    pub first_message_time: Option<String>,
    pub last_report_sent: Option<String>,
}

/// What becomes of a chat's record after one message.
#[derive(Clone, Debug)]
pub enum StatsUpdate {
    /// The record stays as it is.
    Unchanged,
    /// The record is written back, with status "collecting".
    Store { spam_count: i32, total_messages: i32, first_message_time: Option<String> },
}

/// Whether the last report, sent at the RFC 3339 time `sent`, lies at least
/// `SILENCE_DAYS` whole days before `now`.
pub open spec fn silence_over(sent: Seq<char>, now: Now) -> bool {
    match rfc3339_elapsed(sent, now.secs, now.nanos) {
        Some((secs, _)) => whole_days(secs) >= SILENCE_DAYS,
        None => false,
    }
}

/// A fresh count that starts with this message.
pub open spec fn fresh_count(is_spam: bool, now_text: Seq<char>) -> (int, int, Option<Seq<char>>) {
    (if is_spam { 1int } else { 0int }, 1int, Some(now_text))
}

pub open spec fn update_view(u: StatsUpdate) -> Option<(int, int, Option<Seq<char>>)> {
    match u {
        StatsUpdate::Unchanged => None,
        StatsUpdate::Store { spam_count, total_messages, first_message_time } => Some(
            (
                spam_count as int,
                total_messages as int,
                match first_message_time {
                    Some(t) => Some(t@),
                    None => None,
                },
            ),
        ),
    }
}

pub open spec fn opt_view(o: Option<String>) -> Option<Seq<char>> {
    match o {
        Some(t) => Some(t@),
        None => None,
    }
}

/// The new counts of a chat after one message: a chat seen for the first time
/// starts a count; a chat that is collecting (or has an unknown status) counts the
/// message (and the spam); a chat in silence starts a new count once the silence
/// is over and is otherwise left alone; a chat judged not relevant is left alone.
pub open spec fn stats_after_message(
    existing: Option<MonitorRecord>,
    is_spam: bool,
    now: Now,
    now_text: Seq<char>,
) -> Option<(int, int, Option<Seq<char>>)> {
    match existing {
        None => Some(fresh_count(is_spam, now_text)),
        Some(r) => match r.status {
            MonitorStatus::NotRelevant => None,
            MonitorStatus::Silence => match r.last_report_sent {
                Some(sent) => if silence_over(sent@, now) {
                    Some(fresh_count(is_spam, now_text))
                } else {
                    None
                },
                None => None,
            },
            _ => Some(
                (
                    if is_spam { r.spam_count + 1 } else { r.spam_count as int },
                    r.total_messages + 1,
                    opt_view(r.first_message_time),
                ),
            ),
        },
    }
}

/// Whether a record's counters can take one more message without overflow.
pub open spec fn counts_can_grow(existing: Option<MonitorRecord>) -> bool {
    match existing {
        Some(r) => (r.status == MonitorStatus::Collecting || r.status == MonitorStatus::Other)
            ==> r.spam_count < i32::MAX && r.total_messages < i32::MAX,
        None => true,
    }
}

fn copy_opt(o: &Option<String>) -> (res: Option<String>)
    ensures
        opt_view(res) == opt_view(*o),
{
    match o {
        Some(t) => Some(copy_str(t.as_str())),
        None => None,
    }
}

/// Updates a chat's counts for one message (spam or not) received at `now`;
/// `now_text` is the time text to store as the start of a new count.
pub fn next_chat_stats(existing: &Option<MonitorRecord>, is_spam: bool, now: Now, now_text: &str) -> (res:
    StatsUpdate)
    requires
        now.valid(),
        counts_can_grow(*existing),
    ensures
        update_view(res) == stats_after_message(*existing, is_spam, now, now_text@),
{
    let fresh_spam: i32 = if is_spam { 1 } else { 0 };
    match existing {
        None => StatsUpdate::Store {
            spam_count: fresh_spam,
            total_messages: 1,
            first_message_time: Some(copy_str(now_text)),
        },
        Some(r) => match r.status {
            MonitorStatus::NotRelevant => StatsUpdate::Unchanged,
            MonitorStatus::Silence => match &r.last_report_sent {
                Some(sent) => {
                    match elapsed_since_rfc3339(sent.as_str(), now) {
                        Some((secs, _)) => {
                            if num_days(secs) < SILENCE_DAYS {
                                StatsUpdate::Unchanged
                            } else {
                                StatsUpdate::Store {
                                    spam_count: fresh_spam,
                                    total_messages: 1,
                                    first_message_time: Some(copy_str(now_text)),
                                }
                            }
                        },
                        None => StatsUpdate::Unchanged,
                    }
                },
                None => StatsUpdate::Unchanged,
            },
            _ => StatsUpdate::Store {
                spam_count: if is_spam { r.spam_count + 1 } else { r.spam_count },
                total_messages: r.total_messages + 1,
                first_message_time: copy_opt(&r.first_message_time),
            },
        },
    }
}

/// What is done about a chat once its count is stored.
#[derive(Clone, Copy, Debug, PartialEq, Eq, Structural)]
pub enum ReportAction {
    /// The observation period is not over yet.
    Wait,
    /// Enough spam was seen: send a report and fall silent.
    SendReport,
    /// Too little spam was seen: stop observing the chat.
    MarkNotRelevant,
}

/// The decision on a chat whose count started at the RFC 3339 time `first_time`
/// and holds `spam_count` spam messages; `None` when `first_time` is not RFC 3339.
pub open spec fn report_decision_of(first_time: Seq<char>, spam_count: i32, now: Now) -> Option<
    ReportAction,
> {
    match rfc3339_elapsed(first_time, now.secs, now.nanos) {
        None => None,
        Some((secs, _)) => Some(
            if whole_days(secs) >= OBSERVATION_DAYS {
                if spam_count >= REPORT_SPAM_THRESHOLD {
                    ReportAction::SendReport
                } else {
                    ReportAction::MarkNotRelevant
                }
            } else {
                ReportAction::Wait
            },
        ),
    }
}

pub fn report_decision(first_time: &str, spam_count: i32, now: Now) -> (res: Option<ReportAction>)
    requires
        now.valid(),
    ensures
        res == report_decision_of(first_time@, spam_count, now),
{
    match elapsed_since_rfc3339(first_time, now) {
        None => None,
        Some((secs, _)) => {
            if num_days(secs) >= OBSERVATION_DAYS {
                if spam_count >= REPORT_SPAM_THRESHOLD {
                    Some(ReportAction::SendReport)
                } else {
                    Some(ReportAction::MarkNotRelevant)
                }
            } else {
                Some(ReportAction::Wait)
            }
        },
    }
}

/// Whether a chat in silence may be observed again: the time of its last report
/// is known, is RFC 3339, and lies at least `SILENCE_DAYS` whole days back.
pub fn should_resume_monitoring(last_report_sent: &Option<String>, now: Now) -> (res: bool)
    requires
        now.valid(),
    ensures
        res == (last_report_sent matches Some(sent) && silence_over(sent@, now)),
{
    match last_report_sent {
        Some(sent) => match elapsed_since_rfc3339(sent.as_str(), now) {
            Some((secs, _)) => num_days(secs) >= SILENCE_DAYS,
            None => false,
        },
        None => false,
    }
}

/// Whether a message is let through by the chat's status.
#[derive(Clone, Copy, Debug, PartialEq, Eq, Structural)]
pub enum StatusGate {
    /// Go on with the message.
    Proceed,
    /// The silence is over: reset the chat to collecting, then go on.
    ResumeAndProceed,
    /// Ignore the message.
    Skip,
}

/// Whether a message of a chat passes, by the chat's status (`None`: unknown)
/// and, for a chat in silence, by `resume`, the answer of
/// `should_resume_monitoring` (`None`: no answer).
pub open spec fn status_gate_of(status: Option<MonitorStatus>, resume: Option<bool>) -> StatusGate {
    match status {
        Some(MonitorStatus::NotRelevant) => StatusGate::Skip,
        Some(MonitorStatus::Silence) => match resume {
            Some(true) => StatusGate::ResumeAndProceed,
            _ => StatusGate::Skip,
        },
        _ => StatusGate::Proceed,
    }
}

pub fn status_gate(status: Option<MonitorStatus>, resume: Option<bool>) -> (res: StatusGate)
    ensures
        res == status_gate_of(status, resume),
{
    match status {
        Some(MonitorStatus::NotRelevant) => StatusGate::Skip,
        Some(MonitorStatus::Silence) => match resume {
            Some(true) => StatusGate::ResumeAndProceed,
            _ => StatusGate::Skip,
        },
        _ => StatusGate::Proceed,
    }
}

/// Who wrote a message, as the monitor sees it.
#[derive(Clone, Copy, Debug, PartialEq, Eq, Structural)]
pub enum SenderCheck {
    /// The message has no sender.
    NoSender,
    /// The moderation bot wrote in its own chat with the agent: a report response.
    ReportChannel,
    /// The chat writes to itself.
    SelfChat,
    /// The agent itself.
    OwnMessage,
    /// The moderation bot, in another chat.
    BotMessage,
    /// Anyone else.
    Member,
}

pub open spec fn sender_check_of(sender_id: Option<i64>, chat_id: i64, me_id: i64, bot_id: i64) -> SenderCheck {
    match sender_id {
        None => SenderCheck::NoSender,
        Some(s) => if s == bot_id && chat_id == bot_id {
            SenderCheck::ReportChannel
        } else if s == chat_id {
            SenderCheck::SelfChat
        } else if s == me_id {
            SenderCheck::OwnMessage
        } else if s == bot_id {
            SenderCheck::BotMessage
        } else {
            SenderCheck::Member
        },
    }
}

pub fn classify_sender(sender_id: Option<i64>, chat_id: i64, me_id: i64, bot_id: i64) -> (res:
    SenderCheck)
    ensures
        res == sender_check_of(sender_id, chat_id, me_id, bot_id),
{
    match sender_id {
        None => SenderCheck::NoSender,
        Some(s) => if s == bot_id && chat_id == bot_id {
            SenderCheck::ReportChannel
        } else if s == chat_id {
            SenderCheck::SelfChat
        } else if s == me_id {
            SenderCheck::OwnMessage
        } else if s == bot_id {
            SenderCheck::BotMessage
        } else {
            SenderCheck::Member
        },
    }
}

/// Where the handling of a new message stands: which answer it waits for.
#[derive(Clone, Copy, Debug, PartialEq, Eq, Structural)]
pub enum MessageStage {
    /// Waiting for the sender's class.
    Start,
    /// Waiting to hear whether the chat's message counts were read.
    StatsFetched,
    /// Waiting for the counts to be read (what came of it does not matter).
    FetchingStats,
    /// Waiting for the sender's message count in the chat.
    MessageCount,
    /// Waiting to hear whether the chat is monitored.
    ShouldProcess,
    /// Waiting to hear whether the chat's administrators were read.
    AdminsFetched,
    /// Waiting for the administrators to be read (what came of it does not matter).
    FetchingAdmins,
    /// Waiting to hear whether the sender administers the chat.
    SenderAdmin,
    /// Waiting for the chat's stored status.
    ChatStatus,
    /// Waiting to hear whether a silenced chat is due to be monitored again.
    Resume,
    /// Waiting for the chat to be set back to collecting.
    Resuming,
    /// Waiting for the model's verdict on the text.
    Analysis,
    /// Nothing more to do.
    Finished,
}

/// What came back from the last action.
#[derive(Clone, Copy, Debug, PartialEq, Eq, Structural)]
pub enum MessageEvent {
    Sender(SenderCheck),
    Yes,
    No,
    Count(u32),
    Status(MonitorStatus),
    Verdict(AnalysisResult),
    /// The action was carried out.
    Done,
    /// The action failed.
    Failed,
}

/// What to do next for a new message.
#[derive(Clone, Copy, Debug, PartialEq, Eq, Structural)]
pub enum MessageAction {
    /// Read the text as a report response and act on it; then stop.
    ProcessReportResponse,
    AskStatsFetched,
    FetchStats,
    AskMessageCount,
    AskShouldProcess,
    AskAdminsFetched,
    FetchAdmins,
    AskSenderAdmin,
    AskChatStatus,
    AskResume,
    /// Set the chat back to collecting with fresh counts.
    ResumeMonitoring,
    /// Ask the model whether the text is spam.
    Analyze,
    /// Count the message as clear; then stop.
    RecordClear,
    /// Count the message as spam and keep it; then stop.
    RecordSpam,
    /// Leave the message alone; stop.
    Ignore,
    /// Stop with an error.
    Fail,
}

/// After the status check: a message without text is left alone, any other is analysed.
pub open spec fn analysis_or_stop(text_is_empty: bool) -> (MessageStage, MessageAction) {
    if text_is_empty {
        (MessageStage::Finished, MessageAction::Ignore)
    } else {
        (MessageStage::Analysis, MessageAction::Analyze)
    }
}

/// One step of handling a new message: from where it stands and what came back,
/// where it goes and what to do. Report responses from the moderation bot are
/// processed; messages without a sender, of the chat itself, of the agent or of
/// the bot are left alone; an active member's message is counted as clear; a
/// chat that is not monitored, a message of an administrator, a chat marked not
/// relevant or still silenced, and an empty text are left alone; any other text
/// is analysed and counted by the verdict (a failed analysis counts as clear).
/// Failing to read the counts or the administrators does not stop the handling;
/// a failed answer on whether the chat is monitored, whether the administrators
/// were read, whether the sender is one of them, or a failed reset, does; a failed
/// status read lets the message through, a failed resume check does not. An event
/// that does not answer the stage's question stops the handling with an error.
pub open spec fn message_step_of(stage: MessageStage, event: MessageEvent, text_is_empty: bool) -> (
    MessageStage,
    MessageAction,
) {
    match stage {
        MessageStage::Start => match event {
            MessageEvent::Sender(SenderCheck::ReportChannel) => (
                MessageStage::Finished,
                MessageAction::ProcessReportResponse,
            ),
            MessageEvent::Sender(SenderCheck::Member) => (
                MessageStage::StatsFetched,
                MessageAction::AskStatsFetched,
            ),
            MessageEvent::Sender(_) => (MessageStage::Finished, MessageAction::Ignore),
            _ => (MessageStage::Finished, MessageAction::Fail),
        },
        MessageStage::StatsFetched => match event {
            MessageEvent::Yes => (MessageStage::MessageCount, MessageAction::AskMessageCount),
            MessageEvent::No => (MessageStage::FetchingStats, MessageAction::FetchStats),
            _ => (MessageStage::Finished, MessageAction::Fail),
        },
        MessageStage::FetchingStats => match event {
            MessageEvent::Done | MessageEvent::Failed => (
                MessageStage::MessageCount,
                MessageAction::AskMessageCount,
            ),
            _ => (MessageStage::Finished, MessageAction::Fail),
        },
        MessageStage::MessageCount => match event {
            MessageEvent::Count(n) => if n >= ACTIVE_MEMBER_MESSAGES {
                (MessageStage::Finished, MessageAction::RecordClear)
            } else {
                (MessageStage::ShouldProcess, MessageAction::AskShouldProcess)
            },
            _ => (MessageStage::Finished, MessageAction::Fail),
        },
        MessageStage::ShouldProcess => match event {
            MessageEvent::Yes => (MessageStage::AdminsFetched, MessageAction::AskAdminsFetched),
            MessageEvent::No => (MessageStage::Finished, MessageAction::Ignore),
            _ => (MessageStage::Finished, MessageAction::Fail),
        },
        MessageStage::AdminsFetched => match event {
            MessageEvent::Yes => (MessageStage::SenderAdmin, MessageAction::AskSenderAdmin),
            MessageEvent::No => (MessageStage::FetchingAdmins, MessageAction::FetchAdmins),
            _ => (MessageStage::Finished, MessageAction::Fail),
        },
        MessageStage::FetchingAdmins => match event {
            MessageEvent::Done | MessageEvent::Failed => (
                MessageStage::SenderAdmin,
                MessageAction::AskSenderAdmin,
            ),
            _ => (MessageStage::Finished, MessageAction::Fail),
        },
        MessageStage::SenderAdmin => match event {
            MessageEvent::Yes => (MessageStage::Finished, MessageAction::Ignore),
            MessageEvent::No => (MessageStage::ChatStatus, MessageAction::AskChatStatus),
            _ => (MessageStage::Finished, MessageAction::Fail),
        },
        MessageStage::ChatStatus => match event {
            MessageEvent::Status(MonitorStatus::NotRelevant) => (
                MessageStage::Finished,
                MessageAction::Ignore,
            ),
            MessageEvent::Status(MonitorStatus::Silence) => (
                MessageStage::Resume,
                MessageAction::AskResume,
            ),
            MessageEvent::Status(_) | MessageEvent::Failed => analysis_or_stop(text_is_empty),
            _ => (MessageStage::Finished, MessageAction::Fail),
        },
        MessageStage::Resume => match event {
            MessageEvent::Yes => (MessageStage::Resuming, MessageAction::ResumeMonitoring),
            MessageEvent::No | MessageEvent::Failed => (
                MessageStage::Finished,
                MessageAction::Ignore,
            ),
            _ => (MessageStage::Finished, MessageAction::Fail),
        },
        MessageStage::Resuming => match event {
            MessageEvent::Done => analysis_or_stop(text_is_empty),
            _ => (MessageStage::Finished, MessageAction::Fail),
        },
        MessageStage::Analysis => match event {
            MessageEvent::Verdict(AnalysisResult::Spam) => (
                MessageStage::Finished,
                MessageAction::RecordSpam,
            ),
            MessageEvent::Verdict(AnalysisResult::Clear) | MessageEvent::Failed => (
                MessageStage::Finished,
                MessageAction::RecordClear,
            ),
            _ => (MessageStage::Finished, MessageAction::Fail),
        },
        MessageStage::Finished => (MessageStage::Finished, MessageAction::Fail),
    }
}

fn analysis_or_stop_exec(text_is_empty: bool) -> (res: (MessageStage, MessageAction))
    ensures
        res == analysis_or_stop(text_is_empty),
{
    if text_is_empty {
        (MessageStage::Finished, MessageAction::Ignore)
    } else {
        (MessageStage::Analysis, MessageAction::Analyze)
    }
}

/// One step of handling a new message in a monitored chat.
pub fn message_step(stage: MessageStage, event: MessageEvent, text_is_empty: bool) -> (res: (
    MessageStage,
    MessageAction,
))
    ensures
        res == message_step_of(stage, event, text_is_empty),
{
    match stage {
        MessageStage::Start => match event {
            MessageEvent::Sender(SenderCheck::ReportChannel) => (
                MessageStage::Finished,
                MessageAction::ProcessReportResponse,
            ),
            MessageEvent::Sender(SenderCheck::Member) => (
                MessageStage::StatsFetched,
                MessageAction::AskStatsFetched,
            ),
            MessageEvent::Sender(_) => (MessageStage::Finished, MessageAction::Ignore),
            _ => (MessageStage::Finished, MessageAction::Fail),
        },
        MessageStage::StatsFetched => match event {
            MessageEvent::Yes => (MessageStage::MessageCount, MessageAction::AskMessageCount),
            MessageEvent::No => (MessageStage::FetchingStats, MessageAction::FetchStats),
            _ => (MessageStage::Finished, MessageAction::Fail),
        },
        MessageStage::FetchingStats => match event {
            MessageEvent::Done | MessageEvent::Failed => (
                MessageStage::MessageCount,
                MessageAction::AskMessageCount,
            ),
            _ => (MessageStage::Finished, MessageAction::Fail),
        },
        MessageStage::MessageCount => match event {
            MessageEvent::Count(n) => if is_active_member(n) {
                (MessageStage::Finished, MessageAction::RecordClear)
            } else {
                (MessageStage::ShouldProcess, MessageAction::AskShouldProcess)
            },
            _ => (MessageStage::Finished, MessageAction::Fail),
        },
        MessageStage::ShouldProcess => match event {
            MessageEvent::Yes => (MessageStage::AdminsFetched, MessageAction::AskAdminsFetched),
            MessageEvent::No => (MessageStage::Finished, MessageAction::Ignore),
            _ => (MessageStage::Finished, MessageAction::Fail),
        },
        MessageStage::AdminsFetched => match event {
            MessageEvent::Yes => (MessageStage::SenderAdmin, MessageAction::AskSenderAdmin),
            MessageEvent::No => (MessageStage::FetchingAdmins, MessageAction::FetchAdmins),
            _ => (MessageStage::Finished, MessageAction::Fail),
        },
        MessageStage::FetchingAdmins => match event {
            MessageEvent::Done | MessageEvent::Failed => (
                MessageStage::SenderAdmin,
                MessageAction::AskSenderAdmin,
            ),
            _ => (MessageStage::Finished, MessageAction::Fail),
        },
        MessageStage::SenderAdmin => match event {
            MessageEvent::Yes => (MessageStage::Finished, MessageAction::Ignore),
            MessageEvent::No => (MessageStage::ChatStatus, MessageAction::AskChatStatus),
            _ => (MessageStage::Finished, MessageAction::Fail),
        },
        MessageStage::ChatStatus => match event {
            MessageEvent::Status(MonitorStatus::NotRelevant) => (
                MessageStage::Finished,
                MessageAction::Ignore,
            ),
            MessageEvent::Status(MonitorStatus::Silence) => (
                MessageStage::Resume,
                MessageAction::AskResume,
            ),
            MessageEvent::Status(_) | MessageEvent::Failed => analysis_or_stop_exec(text_is_empty),
            _ => (MessageStage::Finished, MessageAction::Fail),
        },
        MessageStage::Resume => match event {
            MessageEvent::Yes => (MessageStage::Resuming, MessageAction::ResumeMonitoring),
            MessageEvent::No | MessageEvent::Failed => (
                MessageStage::Finished,
                MessageAction::Ignore,
            ),
            _ => (MessageStage::Finished, MessageAction::Fail),
        },
        MessageStage::Resuming => match event {
            MessageEvent::Done => analysis_or_stop_exec(text_is_empty),
            _ => (MessageStage::Finished, MessageAction::Fail),
        },
        MessageStage::Analysis => match event {
            MessageEvent::Verdict(AnalysisResult::Spam) => (
                MessageStage::Finished,
                MessageAction::RecordSpam,
            ),
            MessageEvent::Verdict(AnalysisResult::Clear) | MessageEvent::Failed => (
                MessageStage::Finished,
                MessageAction::RecordClear,
            ),
            _ => (MessageStage::Finished, MessageAction::Fail),
        },
        MessageStage::Finished => (MessageStage::Finished, MessageAction::Fail),
    }
}

/// How far along the handling of a message a stage lies.
pub open spec fn message_stage_rank(stage: MessageStage) -> nat {
    match stage {
        MessageStage::Start => 0,
        MessageStage::StatsFetched => 1,
        MessageStage::FetchingStats => 2,
        MessageStage::MessageCount => 3,
        MessageStage::ShouldProcess => 4,
        MessageStage::AdminsFetched => 5,
        MessageStage::FetchingAdmins => 6,
        MessageStage::SenderAdmin => 7,
        MessageStage::ChatStatus => 8,
        MessageStage::Resume => 9,
        MessageStage::Resuming => 10,
        MessageStage::Analysis => 11,
        MessageStage::Finished => 12,
    }
}

/// Whether an action ends the handling of a message.
pub open spec fn ends_handling(action: MessageAction) -> bool {
    match action {
        MessageAction::ProcessReportResponse | MessageAction::RecordClear
        | MessageAction::RecordSpam | MessageAction::Ignore | MessageAction::Fail => true,
        _ => false,
    }
}

/// The handling of a message always ends: every step moves it strictly further
/// along (so at most twelve steps are taken), it is finished exactly when the
/// action is one that ends it, and a message is counted as spam only right after
/// the model's verdict said so.
pub proof fn lemma_message_handling_ends(stage: MessageStage, event: MessageEvent, text_is_empty: bool)
    requires
        stage != MessageStage::Finished,
    ensures
        message_stage_rank(message_step_of(stage, event, text_is_empty).0) > message_stage_rank(stage),
        (message_step_of(stage, event, text_is_empty).0 == MessageStage::Finished) == ends_handling(
            message_step_of(stage, event, text_is_empty).1,
        ),
        message_step_of(stage, event, text_is_empty).1 == MessageAction::RecordSpam ==> stage
            == MessageStage::Analysis && event == MessageEvent::Verdict(AnalysisResult::Spam),
{
}

/// What the outside world answers while a new message is handled: who wrote it,
/// whether the chat's counts were read (and whether reading them worked), the
/// sender's message count, whether the chat is monitored, whether its
/// administrators were read (and whether reading them worked), whether the sender
/// is one of them, the chat's stored status, whether a silenced chat is due to be
/// monitored again, whether setting it back worked, the model's verdict, and
/// whether the text is empty. `None` stands for a failed answer.
pub struct MessageFacts {
    pub sender: SenderCheck,
    pub stats_fetched: bool,
    pub fetch_stats_ok: bool,
    pub count: u32,
    pub monitored: Option<bool>,
    pub admins_fetched: Option<bool>,
    pub fetch_admins_ok: bool,
    pub sender_admin: Option<bool>,
    pub status: Option<MonitorStatus>,
    pub resume: Option<bool>,
    pub reset_ok: bool,
    pub verdict: Option<AnalysisResult>,
    pub text_is_empty: bool,
}

pub open spec fn yes_no(o: Option<bool>) -> MessageEvent {
    match o {
        Some(true) => MessageEvent::Yes,
        Some(false) => MessageEvent::No,
        None => MessageEvent::Failed,
    }
}

pub open spec fn done_or_failed(ok: bool) -> MessageEvent {
    if ok {
        MessageEvent::Done
    } else {
        MessageEvent::Failed
    }
}

/// The answer the world gives to the question a stage waits on.
pub open spec fn answer_at(stage: MessageStage, f: MessageFacts) -> MessageEvent {
    match stage {
        MessageStage::Start => MessageEvent::Sender(f.sender),
        MessageStage::StatsFetched => yes_no(Some(f.stats_fetched)),
        MessageStage::FetchingStats => done_or_failed(f.fetch_stats_ok),
        MessageStage::MessageCount => MessageEvent::Count(f.count),
        MessageStage::ShouldProcess => yes_no(f.monitored),
        MessageStage::AdminsFetched => yes_no(f.admins_fetched),
        MessageStage::FetchingAdmins => done_or_failed(f.fetch_admins_ok),
        MessageStage::SenderAdmin => yes_no(f.sender_admin),
        MessageStage::ChatStatus => match f.status {
            Some(st) => MessageEvent::Status(st),
            None => MessageEvent::Failed,
        },
        MessageStage::Resume => yes_no(f.resume),
        MessageStage::Resuming => done_or_failed(f.reset_ok),
        MessageStage::Analysis => match f.verdict {
            Some(v) => MessageEvent::Verdict(v),
            None => MessageEvent::Failed,
        },
        MessageStage::Finished => MessageEvent::Failed,
    }
}

/// What handling a message did: the action that ended it, whether the text was
/// given to the model, whether the chat was set back to collecting, whether the
/// chat's message counts were read, and whether its administrators were read.
pub struct MessageRun {
    pub last: MessageAction,
    pub analysed: bool,
    pub resumed: bool,
    pub read_counts: bool,
    pub read_admins: bool,
}

/// Running the steps from `stage` against the world's answers.
pub open spec fn run_message(stage: MessageStage, f: MessageFacts, fuel: nat) -> MessageRun
    decreases fuel,
{
    let (next, act) = message_step_of(stage, answer_at(stage, f), f.text_is_empty);
    if ends_handling(act) || fuel == 0 {
        MessageRun { last: act, analysed: false, resumed: false, read_counts: false, read_admins: false }
    } else {
        let r = run_message(next, f, (fuel - 1) as nat);
        MessageRun {
            last: r.last,
            analysed: r.analysed || act == MessageAction::Analyze,
            resumed: r.resumed || act == MessageAction::ResumeMonitoring,
            read_counts: r.read_counts || act == MessageAction::FetchStats,
            read_admins: r.read_admins || act == MessageAction::FetchAdmins,
        }
    }
}

pub open spec fn outcome(last: MessageAction, analysed: bool, resumed: bool, read_counts: bool, read_admins: bool) -> MessageRun {
    MessageRun { last, analysed, resumed, read_counts, read_admins }
}

/// How a message whose text may reach the model ends, after the earlier checks.
pub open spec fn analysed_outcome(f: MessageFacts, resumed: bool) -> MessageRun {
    let rc = !f.stats_fetched;
    let ra = f.admins_fetched == Some(false);
    if f.text_is_empty {
        outcome(MessageAction::Ignore, false, resumed, rc, ra)
    } else if f.verdict == Some(AnalysisResult::Spam) {
        outcome(MessageAction::RecordSpam, true, resumed, rc, ra)
    } else {
        outcome(MessageAction::RecordClear, true, resumed, rc, ra)
    }
}

/// How a message ends, said by the conditions on it: a report response from the
/// moderation bot is processed; a message from anyone but a member is left
/// alone. For a member's message the chat's counts are read first when they were
/// not; an active member's message is counted as clear; a failed answer on
/// whether the chat is monitored is an error, and a chat that is not monitored is
/// left alone; the administrators are read when they were not (a failed answer
/// on that, or on whether the sender is one, is an error); an administrator's
/// message, or one in a chat marked not relevant, is left alone; in a silenced
/// chat it is left alone unless the silence is over, when the chat is set back to
/// collecting first (an error if that fails); an empty text is left alone; any
/// other text goes to the model and is counted as spam only on a spam verdict.
pub open spec fn expected_outcome(f: MessageFacts) -> MessageRun {
    let rc = !f.stats_fetched;
    let ra = f.admins_fetched == Some(false);
    match f.sender {
        SenderCheck::ReportChannel => outcome(MessageAction::ProcessReportResponse, false, false, false, false),
        SenderCheck::Member => if f.count >= ACTIVE_MEMBER_MESSAGES {
            outcome(MessageAction::RecordClear, false, false, rc, false)
        } else if f.monitored != Some(true) {
            outcome(
                if f.monitored == Some(false) { MessageAction::Ignore } else { MessageAction::Fail },
                false,
                false,
                rc,
                false,
            )
        } else if f.admins_fetched is None {
            outcome(MessageAction::Fail, false, false, rc, false)
        } else if f.sender_admin is None {
            outcome(MessageAction::Fail, false, false, rc, ra)
        } else if f.sender_admin == Some(true) {
            outcome(MessageAction::Ignore, false, false, rc, ra)
        } else {
            match f.status {
                Some(MonitorStatus::NotRelevant) => outcome(MessageAction::Ignore, false, false, rc, ra),
                Some(MonitorStatus::Silence) => if f.resume == Some(true) {
                    if f.reset_ok {
                        analysed_outcome(f, true)
                    } else {
                        outcome(MessageAction::Fail, false, true, rc, ra)
                    }
                } else {
                    outcome(MessageAction::Ignore, false, false, rc, ra)
                },
                _ => analysed_outcome(f, false),
            }
        },
        _ => outcome(MessageAction::Ignore, false, false, false, false),
    }
}

/// Handling a new message step by step ends as the conditions on it say
/// (`expected_outcome`), whatever the world answers: in particular a message of a
/// chat still in its silence period never reaches the model.
#[verifier::spinoff_prover]
pub proof fn lemma_message_handling_outcome(f: MessageFacts)
    ensures
        run_message(MessageStage::Start, f, 12) == expected_outcome(f),
{
    reveal_with_fuel(run_message, 13);
}

/// Whether a member has written enough in the chat to be trusted.
pub fn is_active_member(message_count: u32) -> (res: bool)
    ensures
        res == (message_count >= ACTIVE_MEMBER_MESSAGES),
{
    message_count >= ACTIVE_MEMBER_MESSAGES
}

} // verus!

verus! {

/// The offset between the two numberings of supergroups and channels: the Bot API
/// writes a chat `x` of the user API as `-(10^12 + x)`.
pub const BOT_API_CHAT_OFFSET: i64 = 1_000_000_000_000;

pub open spec fn bot_api_chat_id_of(chat_id: int) -> int {
    -(BOT_API_CHAT_OFFSET + chat_id)
}

pub open spec fn user_api_chat_id_of(bot_api_chat_id: int) -> int {
    if bot_api_chat_id < 0 {
        -(bot_api_chat_id + BOT_API_CHAT_OFFSET)
    } else {
        bot_api_chat_id
    }
}

/// The Bot API id of a chat known by its user API id.
pub fn bot_api_chat_id(chat_id: i64) -> (res: i64)
    requires
        chat_id <= i64::MAX - BOT_API_CHAT_OFFSET,
    ensures
        res == bot_api_chat_id_of(chat_id as int),
{
    -(BOT_API_CHAT_OFFSET + chat_id)
}

/// The user API id of a chat known by its Bot API id.
pub fn user_api_chat_id(bot_api_chat_id: i64) -> (res: i64)
    ensures
        res == user_api_chat_id_of(bot_api_chat_id as int),
{
    if bot_api_chat_id < 0 {
        -(bot_api_chat_id + BOT_API_CHAT_OFFSET)
    } else {
        bot_api_chat_id
    }
}

/// Taking a chat to the Bot API numbering and back gives the chat again, for every
/// id above `-10^12` (those the Bot API writes as negative numbers).
pub proof fn lemma_chat_id_round_trip(chat_id: int)
    requires
        -BOT_API_CHAT_OFFSET < chat_id <= i64::MAX - BOT_API_CHAT_OFFSET,
    ensures
        user_api_chat_id_of(bot_api_chat_id_of(chat_id)) == chat_id,
{
}

/// The prefix of a report response from the moderation bot.
pub open spec fn report_prefix() -> Seq<char> {
    "report_response:"@
}

/// The fields of `text` after the prefix (`str::splitn(3, ':')`): the chat id text
/// and the details (or "Unknown response" when there is no second ':').
pub open spec fn report_fields(rest: Seq<char>) -> (Seq<char>, Seq<char>) {
    match find_from(rest, seq![':'], 0) {
        None => (rest, "Unknown response"@),
        Some(i) => (rest.take(i), rest.skip(i + 1)),
    }
}

/// A report response "report_response:<bot api chat id>[:<details>]", read as
/// the user API chat id and the details; `None` for any other text.
pub open spec fn report_response_of(text: Seq<char>) -> Option<(i64, Seq<char>)> {
    if !starts_with(text, report_prefix()) {
        None
    } else {
        let (id_text, details) = report_fields(text.skip(16));
        match parse_i64(id_text) {
            None => None,
            Some(b) => Some((user_api_chat_id_of(b as int) as i64, details)),
        }
    }
}

pub open spec fn report_response_view(o: Option<(i64, String)>) -> Option<(i64, Seq<char>)> {
    match o {
        Some((id, d)) => Some((id, d@)),
        None => None,
    }
}

/// Reads a report response of the moderation bot.
pub fn parse_report_response(text: &str) -> (res: Option<(i64, String)>)
    ensures
        report_response_view(res) == report_response_of(text@),
{
    let cs = chars_of(text);
    let prefix = chars_of("report_response:");
    proof {
        reveal_strlit("report_response:");
    }
    if !starts_with_exec(&cs, &prefix) {
        return None;
    }
    let rest = sub_chars(&cs, 16, cs.len());
    assert(rest@ =~= text@.skip(16));
    let colon: Vec<char> = vec![':'];
    assert(colon@ =~= seq![':']);
    let found = find_from_exec(&rest, &colon, 0);
    proof {
        lemma_find_from_bounds(rest@, colon@, 0);
    }
    let (id_text, details) = match found {
        None => (rest.clone(), chars_of("Unknown response")),
        Some(i) => (sub_chars(&rest, 0, i), sub_chars(&rest, i + 1, rest.len())),
    };
    proof {
        let (a, b) = report_fields(rest@);
        if found.is_none() {
            assert(id_text@ =~= a);
        } else {
            assert(id_text@ =~= a);
            assert(details@ =~= b);
        }
    }
    match parse_i64_exec(&id_text) {
        None => None,
        Some(b) => Some((user_api_chat_id(b), string_from_chars(&details))),
    }
}

/// A report response that the moderation bot writes for a chat, with the chat in the
/// Bot API numbering and any details after a second ':', reads back as that chat in
/// the user API numbering and exactly those details (which may hold ':' themselves).
pub proof fn lemma_report_response_round_trip(chat_id: int, details: Seq<char>)
    requires
        -BOT_API_CHAT_OFFSET < chat_id <= i64::MAX - BOT_API_CHAT_OFFSET,
    ensures
        report_response_of(
            report_prefix() + signed_decimal(bot_api_chat_id_of(chat_id)) + seq![':'] + details,
        ) == Some((chat_id as i64, details)),
{
    reveal_strlit("report_response:");
    let b: i64 = bot_api_chat_id_of(chat_id) as i64;
    let sd = signed_decimal(b as int);
    let text = report_prefix() + sd + seq![':'] + details;
    let colon: Seq<char> = seq![':'];
    lemma_parse_signed_decimal(b);
    lemma_chat_id_round_trip(chat_id);
    assert(text.take(16) =~= report_prefix());
    let rest = text.skip(16);
    assert(rest =~= sd + colon + details);
    let n = sd.len() as int;
    assert(rest.subrange(n, n + 1) =~= colon);
    assert(occurs_at(rest, colon, n));
    assert forall|j: int| 0 <= j < n implies !occurs_at(rest, colon, j) by {
        assert(rest[j] == sd[j]);
        if occurs_at(rest, colon, j) {
            assert(rest.subrange(j, j + 1)[0] == rest[j]);
        }
    }
    lemma_find_from(rest, colon, 0);
    assert(find_from(rest, colon, 0) == Some(n));
    assert(rest.take(n) =~= sd);
    assert(rest.skip(n + 1) =~= details);
}

/// The command that asks the moderation bot to process a report.
pub open spec fn report_command_of(bot_api_chat_id: i64) -> Seq<char> {
    "/agent_report "@ + signed_decimal(bot_api_chat_id as int)
}

pub fn report_command(bot_api_chat_id: i64) -> (res: String)
    ensures
        res@ == report_command_of(bot_api_chat_id),
{
    let mut out = chars_of("/agent_report ");
    let digits = i64_decimal(bot_api_chat_id);
    append_chars(&mut out, &digits);
    string_from_chars(&out)
}

/// The file of a chat's spam report.
pub open spec fn report_csv_path_of(bot_api_chat_id: i64, suffix: Seq<char>) -> Seq<char> {
    "common_res/agent_davon/reports/"@ + signed_decimal(bot_api_chat_id as int) + suffix
}

/// The path of a chat's report file: `kind` is "_report.csv" for the spam
/// messages and "_admins.csv" for the administrators.
pub fn report_csv_path(bot_api_chat_id: i64, kind: &str) -> (res: String)
    ensures
        res@ == report_csv_path_of(bot_api_chat_id, kind@),
{
    let mut out = chars_of("common_res/agent_davon/reports/");
    let digits = i64_decimal(bot_api_chat_id);
    append_chars(&mut out, &digits);
    let k = chars_of(kind);
    append_chars(&mut out, &k);
    string_from_chars(&out)
}

/// The author of a message, as far as the spam log needs it.
#[derive(Clone, Debug)]
pub enum MessageAuthor {
    /// A user account, with its username if it has one.
    User { username: Option<String> },
    /// A channel or group writing as itself, with its username if it has one.
    Chat { username: Option<String> },
}

pub open spec fn author_name_of(a: MessageAuthor) -> Seq<char> {
    match a {
        MessageAuthor::User { username: Some(u) } => u@,
        MessageAuthor::User { username: None } => "mommy's_anon"@,
        MessageAuthor::Chat { username: Some(u) } => u@,
        MessageAuthor::Chat { username: None } => "_"@,
    }
}

/// The name under which a spam message's author is logged.
pub fn spam_author_name(author: &MessageAuthor) -> (res: String)
    ensures
        res@ == author_name_of(*author),
{
    match author {
        MessageAuthor::User { username: Some(u) } => copy_str(u.as_str()),
        MessageAuthor::User { username: None } => copy_str("mommy's_anon"),
        MessageAuthor::Chat { username: Some(u) } => copy_str(u.as_str()),
        MessageAuthor::Chat { username: None } => copy_str("_"),
    }
}

} // verus!

verus! {

/// The role of a chat participant.
#[derive(Clone, Copy, Debug, PartialEq, Eq, Structural)]
pub enum ParticipantRole {
    Creator,
    Admin,
    Other,
}

/// A member of a chat, as the administrators are saved: id, username, first and
/// last name.
#[derive(Clone, Debug)]
pub struct ChatMember {
    pub user_id: i64,
    pub username: Option<String>,
    pub first_name: String,
    pub last_name: Option<String>,
}

pub struct ChatMemberView {
    pub user_id: i64,
    pub username: Option<Seq<char>>,
    pub first_name: Seq<char>,
    pub last_name: Option<Seq<char>>,
}

pub open spec fn opt_string_view(o: Option<String>) -> Option<Seq<char>> {
    match o {
        Some(s) => Some(s@),
        None => None,
    }
}

impl View for ChatMember {
    type V = ChatMemberView;

    open spec fn view(&self) -> ChatMemberView {
        ChatMemberView {
            user_id: self.user_id,
            username: opt_string_view(self.username),
            first_name: self.first_name@,
            last_name: opt_string_view(self.last_name),
        }
    }
}

/// A chat participant as listed by the user API: its role and who it is.
#[derive(Clone, Debug)]
pub struct Participant {
    pub role: ParticipantRole,
    pub member: ChatMember,
}

/// The owner and administrators found in a chat so far.
#[derive(Clone, Debug)]
pub struct AdminCollection {
    pub owner: Option<ChatMember>,
    pub administrators: Vec<ChatMember>,
}

pub open spec fn opt_member_view(o: Option<ChatMember>) -> Option<ChatMemberView> {
    match o {
        Some(m) => Some(m@),
        None => None,
    }
}

pub open spec fn members_view(v: Seq<ChatMember>) -> Seq<ChatMemberView> {
    v.map_values(|m: ChatMember| m@)
}

/// The user ids of members, in order.
pub open spec fn member_ids(ms: Seq<ChatMemberView>) -> Seq<i64> {
    ms.map_values(|m: ChatMemberView| m.user_id)
}

impl AdminCollection {
    /// The owner and the administrators, as values.
    pub open spec fn found(&self) -> (Option<ChatMemberView>, Seq<ChatMemberView>) {
        (opt_member_view(self.owner), members_view(self.administrators@))
    }
}

/// The collection after reading one more participant: the first creator seen
/// becomes the owner; an administrator is added unless one with the same id is
/// already listed.
pub open spec fn absorb_one(owner: Option<ChatMemberView>, admins: Seq<ChatMemberView>, p: Participant) -> (
    Option<ChatMemberView>,
    Seq<ChatMemberView>,
) {
    match p.role {
        ParticipantRole::Creator => if owner is None {
            (Some(p.member@), admins)
        } else {
            (owner, admins)
        },
        ParticipantRole::Admin => if member_ids(admins).contains(p.member.user_id) {
            (owner, admins)
        } else {
            (owner, admins.push(p.member@))
        },
        ParticipantRole::Other => (owner, admins),
    }
}

/// The collection after reading a list of participants in order.
pub open spec fn absorb_all(owner: Option<ChatMemberView>, admins: Seq<ChatMemberView>, ps: Seq<Participant>) -> (
    Option<ChatMemberView>,
    Seq<ChatMemberView>,
)
    decreases ps.len(),
{
    if ps.len() == 0 {
        (owner, admins)
    } else {
        let (o, a) = absorb_all(owner, admins, ps.drop_last());
        absorb_one(o, a, ps.last())
    }
}

fn contains_id(v: &Vec<ChatMember>, x: i64) -> (res: bool)
    ensures
        res == member_ids(members_view(v@)).contains(x),
{
    let ghost ids = member_ids(members_view(v@));
    let mut i: usize = 0;
    while i < v.len()
        invariant
            i <= v@.len(),
            ids == member_ids(members_view(v@)),
            ids.len() == v@.len(),
            forall|j: int| 0 <= j < i ==> ids[j] != x,
        decreases v.len() - i,
    {
        assert(ids[i as int] == v@[i as int].user_id);
        if v[i].user_id == x {
            assert(ids[i as int] == x);
            return true;
        }
        i = i + 1;
    }
    false
}

fn copy_member(m: &ChatMember) -> (res: ChatMember)
    ensures
        res@ == m@,
{
    ChatMember {
        user_id: m.user_id,
        username: match &m.username {
            Some(u) => Some(u.clone()),
            None => None,
        },
        first_name: m.first_name.clone(),
        last_name: match &m.last_name {
            Some(l) => Some(l.clone()),
            None => None,
        },
    }
}

impl AdminCollection {
    pub fn new() -> (res: AdminCollection)
        ensures
            res.owner is None,
            res.administrators@ == Seq::<ChatMember>::empty(),
    {
        AdminCollection { owner: None, administrators: Vec::new() }
    }

    /// Reads one listing of the chat's participants; returns whether a new owner and
    /// whether new administrators were found.
    pub fn absorb(&mut self, participants: &Vec<Participant>) -> (res: (bool, bool))
        ensures
            final(self).found() == absorb_all(old(self).found().0, old(self).found().1, participants@),
            res.0 == (old(self).owner is None && final(self).owner is Some),
            res.1 == (final(self).administrators@.len() > old(self).administrators@.len()),
    {
        let ghost owner0 = self.found().0;
        let ghost admins0 = self.found().1;
        let owner_was_none = self.owner.is_none();
        let admins_before = self.administrators.len();
        let mut i: usize = 0;
        assert(participants@.take(0) =~= Seq::<Participant>::empty());
        while i < participants.len()
            invariant
                i <= participants@.len(),
                self.found() == absorb_all(owner0, admins0, participants@.take(i as int)),
                owner0 is Some ==> self.found().0 == owner0,
                owner0 is Some <==> owner_was_none == false,
                self.owner is Some <==> self.found().0 is Some,
                self.administrators@.len() >= admins_before,
                admins_before == admins0.len(),
            decreases participants.len() - i,
        {
            let p = &participants[i];
            assert(participants@.take(i + 1).drop_last() =~= participants@.take(i as int));
            assert(participants@.take(i + 1).last() == *p);
            let ghost before = self.administrators@;
            match p.role {
                ParticipantRole::Creator => {
                    if self.owner.is_none() {
                        self.owner = Some(copy_member(&p.member));
                    }
                },
                ParticipantRole::Admin => {
                    if !contains_id(&self.administrators, p.member.user_id) {
                        self.administrators.push(copy_member(&p.member));
                        assert(members_view(self.administrators@) =~= members_view(before).push(p.member@));
                    }
                },
                ParticipantRole::Other => {},
            }
            i = i + 1;
        }
        assert(participants@.take(i as int) =~= participants@);
        (owner_was_none && self.owner.is_some(), self.administrators.len() > admins_before)
    }

    /// Whether both the owner and at least one administrator are known.
    pub fn is_complete(&self) -> (res: bool)
        ensures
            res == (self.owner is Some && self.administrators@.len() > 0),
    {
        self.owner.is_some() && self.administrators.len() > 0
    }

    /// One attempt (counted from 1) at reading the chat's administrators: reads the
    /// listing, then says to save what was found when both the owner and an
    /// administrator are known or this was the last attempt, and to list the
    /// participants again after a pause otherwise.
    pub fn fetch_attempt(&mut self, attempt: u32, participants: &Vec<Participant>) -> (res: AdminFetchNext)
        requires
            1 <= attempt <= ADMIN_FETCH_ATTEMPTS,
        ensures
            final(self).found() == absorb_all(old(self).found().0, old(self).found().1, participants@),
            res == (if (final(self).owner is Some && final(self).administrators@.len() > 0)
                || attempt == ADMIN_FETCH_ATTEMPTS {
                AdminFetchNext::Save
            } else {
                AdminFetchNext::RetryAfterPause
            }),
    {
        let _ = self.absorb(participants);
        if self.is_complete() || attempt == ADMIN_FETCH_ATTEMPTS {
            AdminFetchNext::Save
        } else {
            AdminFetchNext::RetryAfterPause
        }
    }
}

/// How many times the participants are listed at most when reading administrators.
pub const ADMIN_FETCH_ATTEMPTS: u32 = 3;

/// Seconds between two listings of the participants.
pub const ADMIN_RETRY_PAUSE_SECS: u64 = 2;

/// What follows an attempt at reading a chat's administrators.
#[derive(Clone, Copy, Debug, PartialEq, Eq, Structural)]
pub enum AdminFetchNext {
    /// Wait `ADMIN_RETRY_PAUSE_SECS` and list the participants again.
    RetryAfterPause,
    /// Save the owner and administrators found.
    Save,
}

/// No administrator is listed twice.
pub open spec fn distinct_ids(s: Seq<i64>) -> bool {
    forall|i: int, j: int| 0 <= i < j < s.len() ==> s[i] != s[j]
}

/// Reading participants never lists an administrator twice.
pub proof fn lemma_absorb_keeps_admins_distinct(
    owner: Option<ChatMemberView>,
    admins: Seq<ChatMemberView>,
    ps: Seq<Participant>,
)
    requires
        distinct_ids(member_ids(admins)),
    ensures
        distinct_ids(member_ids(absorb_all(owner, admins, ps).1)),
    decreases ps.len(),
{
    if ps.len() > 0 {
        lemma_absorb_keeps_admins_distinct(owner, admins, ps.drop_last());
        let (o, a) = absorb_all(owner, admins, ps.drop_last());
        let p = ps.last();
        if p.role == ParticipantRole::Admin && !member_ids(a).contains(p.member.user_id) {
            let b = a.push(p.member@);
            let ia = member_ids(a);
            let ib = member_ids(b);
            assert(ib =~= ia.push(p.member.user_id));
            assert forall|i: int, j: int| 0 <= i < j < ib.len() implies ib[i] != ib[j] by {
                if j == ia.len() {
                    assert(ia[i] == ib[i]);
                }
            }
        }
    }
}

/// Once known, the owner stays the same whatever is read afterwards.
pub proof fn lemma_absorb_keeps_owner(owner: ChatMemberView, admins: Seq<ChatMemberView>, ps: Seq<Participant>)
    ensures
        absorb_all(Some(owner), admins, ps).0 == Some(owner),
    decreases ps.len(),
{
    if ps.len() > 0 {
        lemma_absorb_keeps_owner(owner, admins, ps.drop_last());
    }
}

/// The number of messages of `sender` among `senders`.
pub open spec fn count_of(senders: Seq<Option<i64>>, id: i64) -> nat
    decreases senders.len(),
{
    if senders.len() == 0 {
        0
    } else {
        count_of(senders.drop_last(), id) + if senders.last() == Some(id) { 1nat } else { 0nat }
    }
}

fn position_of_sender(v: &Vec<(i64, u32)>, id: i64) -> (res: Option<usize>)
    ensures
        res matches Some(p) ==> p < v@.len() && v@[p as int].0 == id,
        res is None ==> forall|j: int| 0 <= j < v@.len() ==> v@[j].0 != id,
{
    let mut pos: usize = 0;
    while pos < v.len()
        invariant
            pos <= v@.len(),
            forall|j: int| 0 <= j < pos ==> v@[j].0 != id,
        decreases v.len() - pos,
    {
        if v[pos].0 == id {
            return Some(pos);
        }
        pos = pos + 1;
    }
    None
}

/// Counts the messages of each sender (messages without a sender are not
/// counted); each sender appears once, in the order of first appearance.
pub fn count_messages_by_sender(senders: &Vec<Option<i64>>) -> (res: Vec<(i64, u32)>)
    requires
        senders@.len() <= u32::MAX,
    ensures
        forall|i: int, j: int| 0 <= i < j < res@.len() ==> res@[i].0 != res@[j].0,
        forall|i: int| 0 <= i < res@.len() ==> res@[i].1 == count_of(senders@, #[trigger] res@[i].0),
        forall|id: i64| count_of(senders@, id) > 0 ==> exists|i: int| 0 <= i < res@.len() && #[trigger] res@[i].0 == id,
{
    let mut res: Vec<(i64, u32)> = Vec::new();
    let mut k: usize = 0;
    assert(senders@.take(0) =~= Seq::<Option<i64>>::empty());
    while k < senders.len()
        invariant
            k <= senders@.len() <= u32::MAX,
            forall|i: int, j: int| 0 <= i < j < res@.len() ==> res@[i].0 != res@[j].0,
            forall|i: int| 0 <= i < res@.len() ==> res@[i].1 == count_of(senders@.take(k as int), #[trigger] res@[i].0),
            forall|id: i64| count_of(senders@.take(k as int), id) > 0 ==> exists|i: int| 0 <= i < res@.len() && #[trigger] res@[i].0 == id,
            forall|id: i64| count_of(senders@.take(k as int), id) <= k,
        decreases senders.len() - k,
    {
        let ghost prefix = senders@.take(k as int);
        let ghost next = senders@.take(k + 1);
        assert(next.drop_last() =~= prefix);
        assert(next.last() == senders@[k as int]);
        assert forall|id: i64| count_of(next, id) == count_of(prefix, id) + if senders@[k as int] == Some(id) { 1nat } else { 0nat } by {}
        let ghost res0 = res@;
        let ghost mut witness: int = 0;
        match senders[k] {
            None => {},
            Some(id) => {
                let found_at = position_of_sender(&res, id);
                if let Some(pos) = found_at {
                    let old_count = res[pos].1;
                    assert(old_count as nat == count_of(prefix, id));
                    res.set(pos, (id, old_count + 1));
                    proof { witness = pos as int; }
                } else {
                    assert(count_of(prefix, id) == 0);
                    res.push((id, 1));
                    proof { witness = res@.len() - 1; }
                }
            },
        }
        assert(res@.len() >= res0.len());
        assert(forall|i: int| 0 <= i < res0.len() ==> res@[i].0 == res0[i].0);
        k = k + 1;
        assert forall|id: i64| count_of(senders@.take(k as int), id) > 0 implies exists|i: int| 0 <= i < res@.len() && #[trigger] res@[i].0 == id by {
            if count_of(prefix, id) > 0 {
                let i0 = choose|i: int| 0 <= i < res0.len() && #[trigger] res0[i].0 == id;
                assert(res@[i0].0 == id);
            } else {
                assert(senders@[k - 1] == Some(id));
                assert(res@[witness].0 == id);
            }
        }
    }
    assert(senders@.take(k as int) =~= senders@);
    res
}


/// A chat judged not relevant stays out of the monitoring: its messages are
/// skipped and its record is never rewritten.
pub proof fn lemma_not_relevant_is_final(r: MonitorRecord, is_spam: bool, now: Now, now_text: Seq<char>, resume: Option<bool>)
    requires
        r.status == MonitorStatus::NotRelevant,
    ensures
        stats_after_message(Some(r), is_spam, now, now_text) is None,
        status_gate_of(Some(MonitorStatus::NotRelevant), resume) == StatusGate::Skip,
{
}

/// Counting never makes the spam count exceed the message count.
pub proof fn lemma_spam_within_total(existing: Option<MonitorRecord>, is_spam: bool, now: Now, now_text: Seq<char>)
    requires
        existing matches Some(r) ==> r.spam_count <= r.total_messages,
    ensures
        stats_after_message(existing, is_spam, now, now_text) matches Some((spam, total, _))
            ==> spam <= total,
{
}

/// A report is sent only for a chat observed at least `OBSERVATION_DAYS`
/// whole days with at least `REPORT_SPAM_THRESHOLD` spam messages.
pub proof fn lemma_report_needs_evidence(first_time: Seq<char>, spam_count: i32, now: Now)
    requires
        report_decision_of(first_time, spam_count, now) == Some(ReportAction::SendReport),
    ensures
        spam_count >= REPORT_SPAM_THRESHOLD,
        rfc3339_elapsed(first_time, now.secs, now.nanos) matches Some((secs, _)) && whole_days(secs)
            >= OBSERVATION_DAYS,
{
}


/// The verdict on one message.
#[derive(Clone, Copy, Debug, PartialEq, Eq, Structural)]
pub enum AnalysisResult {
    Spam,
    Clear,
}

/// The verdict from the model's `is_scam` answer; a missing or unreadable
/// answer counts as clear.
pub fn analysis_from(is_scam: Option<bool>) -> (res: AnalysisResult)
    ensures
        res == (if is_scam == Some(true) {
            AnalysisResult::Spam
        } else {
            AnalysisResult::Clear
        }),
{
    match is_scam {
        Some(true) => AnalysisResult::Spam,
        _ => AnalysisResult::Clear,
    }
}

/// The stored status of a chat; a chat without a record is collecting.
pub fn stored_status(status: Option<&str>) -> (res: MonitorStatus)
    ensures
        res == match status {
            Some(s) => monitor_status_of(s@),
            None => MonitorStatus::Collecting,
        },
{
    match status {
        Some(s) => monitor_status_from_str(s),
        None => MonitorStatus::Collecting,
    }
}

/// How the moderation bot answered a report.
#[derive(Clone, Copy, Debug, PartialEq, Eq, Structural)]
pub enum ReportOutcome {
    /// An offer was sent to the chat.
    OfferSent,
    /// The bot reported an error.
    Failed,
    /// Any other answer, recorded as it is.
    Recorded,
}

/// The kind of the moderation bot's answer.
pub fn report_outcome(response: &str) -> (res: ReportOutcome)
    ensures
        res == if contains(response@, "Offer sent:"@) {
            ReportOutcome::OfferSent
        } else if contains(response@, "Error"@) {
            ReportOutcome::Failed
        } else {
            ReportOutcome::Recorded
        },
{
    let r = chars_of(response);
    let offer = chars_of("Offer sent:");
    let error = chars_of("Error");
    if contains_exec(&r, &offer) {
        ReportOutcome::OfferSent
    } else if contains_exec(&r, &error) {
        ReportOutcome::Failed
    } else {
        ReportOutcome::Recorded
    }
}

/// A character that makes the csv writer quote a field: the delimiter, the
/// quote, a carriage return or a line feed.
pub open spec fn csv_special(c: char) -> bool {
    c == ',' || c == '"' || c == '\r' || c == '\n'
}

/// `f` with every quote doubled.
pub open spec fn csv_doubled(f: Seq<char>) -> Seq<char>
    decreases f.len(),
{
    if f.len() == 0 {
        Seq::empty()
    } else {
        csv_doubled(f.drop_last()) + if f.last() == '"' {
            seq!['"', '"']
        } else {
            seq![f.last()]
        }
    }
}

/// One field as the writer puts it: in quotes, with its quotes doubled, when it
/// holds a special character; as it is otherwise.
pub open spec fn csv_field(f: Seq<char>) -> Seq<char> {
    if exists|k: int| 0 <= k < f.len() && csv_special(#[trigger] f[k]) {
        seq!['"'] + csv_doubled(f) + seq!['"']
    } else {
        f
    }
}

/// The CSV text of one record as the csv crate's default writer puts it
/// (`QuoteStyle::Necessary`, ',' between fields, '\n' after the record): the
/// fields separated by commas, each quoted where it needs to be, then a line
/// feed; a record that would write nothing before the line feed (no fields, or
/// one empty field) is written as `""`.
pub open spec fn csv_record(fields: Seq<Seq<char>>) -> Seq<char> {
    let joined = join_with(fields.map_values(|f: Seq<char>| csv_field(f)), ","@);
    if joined.len() == 0 {
        "\"\""@ + "\n"@
    } else {
        joined + "\n"@
    }
}

pub open spec fn texts_view(v: Seq<String>) -> Seq<Seq<char>> {
    v.map_values(|t: String| t@)
}

/// Calls `csv::Writer::from_writer` on an empty byte buffer, then
/// `Writer::write_record` with the fields and `Writer::into_inner`, and reads
/// the bytes as UTF-8 (a failure, which a byte buffer does not give, yields
/// the empty text). The writer's defaults quote a field that holds ',', '"',
/// CR or LF, double the quotes inside, end the record with LF and write `""`
/// for a record with no bytes; the contract states that.
#[verifier::external_body]
fn csv_record_text(fields: &Vec<String>) -> (res: String)
    ensures
        res@ == csv_record(texts_view(fields@)),
{
    let mut writer = csv::Writer::from_writer(Vec::new());
    let written = writer.write_record(fields).is_ok();
    match (written, writer.into_inner()) {
        (true, Ok(bytes)) => String::from_utf8(bytes).unwrap_or_default(),
        _ => String::new(),
    }
}

/// The records of a CSV text, one after the other.
pub open spec fn csv_lines(rows: Seq<Seq<Seq<char>>>) -> Seq<char>
    decreases rows.len(),
{
    if rows.len() == 0 {
        Seq::empty()
    } else {
        csv_lines(rows.drop_last()) + csv_record(rows.last())
    }
}

/// The byte order mark that starts a report, so that spreadsheets read it
/// as UTF-8.
pub open spec fn report_bom() -> Seq<char> {
    seq!['\u{feff}']
}

/// A stored spam message, as the report lists it.
pub struct SpamRecord {
    pub user_id: i64,
    pub username: Option<String>,
    pub message_text: String,
    pub detected_at: String,
}

pub open spec fn opt_text(o: Option<&str>) -> Option<Seq<char>> {
    match o {
        Some(t) => Some(t@),
        None => None,
    }
}

/// The chat's username in a report ("_" for a chat without one).
pub open spec fn chat_username_field(u: Option<Seq<char>>) -> Seq<char> {
    match u {
        Some(n) => n,
        None => "_"@,
    }
}

pub open spec fn spam_header() -> Seq<Seq<char>> {
    seq!["chat_title"@, "chat_username"@, "user_id"@, "username"@, "message_text"@, "detected_at"@]
}

pub open spec fn spam_row(title: Seq<char>, chat_username: Option<Seq<char>>, r: SpamRecord) -> Seq<
    Seq<char>,
> {
    seq![
        title,
        chat_username_field(chat_username),
        signed_decimal(r.user_id as int),
        match r.username {
            Some(u) => u@,
            None => "mommy's_anon"@,
        },
        r.message_text@,
        r.detected_at@,
    ]
}

/// The spam report of a chat: the mark, the header, then a row per message.
pub open spec fn spam_report_text(
    title: Seq<char>,
    chat_username: Option<Seq<char>>,
    records: Seq<SpamRecord>,
) -> Seq<char> {
    report_bom() + csv_record(spam_header()) + csv_lines(
        records.map_values(|r: SpamRecord| spam_row(title, chat_username, r)),
    )
}

pub open spec fn admins_header() -> Seq<Seq<char>> {
    seq!["chat_title"@, "chat_username"@, "user_id"@, "role"@]
}

pub open spec fn admin_row(title: Seq<char>, chat_username: Option<Seq<char>>, a: (i64, String)) -> Seq<
    Seq<char>,
> {
    seq![title, chat_username_field(chat_username), signed_decimal(a.0 as int), a.1@]
}

/// The administrators' report of a chat: the mark, the header, then a row
/// per administrator (user id and role).
pub open spec fn admins_report_text(
    title: Seq<char>,
    chat_username: Option<Seq<char>>,
    admins: Seq<(i64, String)>,
) -> Seq<char> {
    report_bom() + csv_record(admins_header()) + csv_lines(
        admins.map_values(|a: (i64, String)| admin_row(title, chat_username, a)),
    )
}

fn append_record(out: &mut Vec<char>, fields: &Vec<String>)
    ensures
        final(out)@ == old(out)@ + csv_record(texts_view(fields@)),
{
    let line = csv_record_text(fields);
    let cs = chars_of(line.as_str());
    append_chars(out, &cs);
}

fn username_field(u: Option<&str>) -> (res: String)
    ensures
        res@ == chat_username_field(opt_text(u)),
{
    match u {
        Some(n) => copy_str(n),
        None => copy_str("_"),
    }
}

fn id_field(id: i64) -> (res: String)
    ensures
        res@ == signed_decimal(id as int),
{
    let d = i64_decimal(id);
    string_from_chars(&d)
}

/// Writes the spam report of a chat as CSV text.
pub fn spam_report_csv(chat_title: &str, chat_username: Option<&str>, records: &Vec<SpamRecord>) -> (res: String)
    ensures
        res@ == spam_report_text(chat_title@, opt_text(chat_username), records@),
{
    let ghost rows = records@.map_values(|r: SpamRecord| spam_row(chat_title@, opt_text(chat_username), r));
    let mut out: Vec<char> = vec!['\u{feff}'];
    let header = vec![
        copy_str("chat_title"),
        copy_str("chat_username"),
        copy_str("user_id"),
        copy_str("username"),
        copy_str("message_text"),
        copy_str("detected_at"),
    ];
    assert(texts_view(header@) =~= spam_header());
    append_record(&mut out, &header);
    let mut i: usize = 0;
    assert(rows.take(0) =~= Seq::<Seq<Seq<char>>>::empty());
    while i < records.len()
        invariant
            i <= records@.len(),
            rows == records@.map_values(|r: SpamRecord| spam_row(chat_title@, opt_text(chat_username), r)),
            out@ == report_bom() + csv_record(spam_header()) + csv_lines(rows.take(i as int)),
        decreases records.len() - i,
    {
        let r = &records[i];
        let fields = vec![
            copy_str(chat_title),
            username_field(chat_username),
            id_field(r.user_id),
            match &r.username {
                Some(u) => copy_str(u.as_str()),
                None => copy_str("mommy's_anon"),
            },
            copy_str(r.message_text.as_str()),
            copy_str(r.detected_at.as_str()),
        ];
        assert(texts_view(fields@) =~= rows[i as int]);
        append_record(&mut out, &fields);
        assert(rows.take(i + 1).drop_last() =~= rows.take(i as int));
        assert(out@ =~= report_bom() + csv_record(spam_header()) + csv_lines(rows.take(i + 1)));
        i = i + 1;
    }
    assert(rows.take(records@.len() as int) =~= rows);
    string_from_chars(&out)
}

/// Writes the administrators' report of a chat as CSV text.
pub fn admins_report_csv(chat_title: &str, chat_username: Option<&str>, admins: &Vec<(i64, String)>) -> (res: String)
    ensures
        res@ == admins_report_text(chat_title@, opt_text(chat_username), admins@),
{
    let ghost rows = admins@.map_values(|a: (i64, String)| admin_row(chat_title@, opt_text(chat_username), a));
    let mut out: Vec<char> = vec!['\u{feff}'];
    let header = vec![
        copy_str("chat_title"),
        copy_str("chat_username"),
        copy_str("user_id"),
        copy_str("role"),
    ];
    assert(texts_view(header@) =~= admins_header());
    append_record(&mut out, &header);
    let mut i: usize = 0;
    assert(rows.take(0) =~= Seq::<Seq<Seq<char>>>::empty());
    while i < admins.len()
        invariant
            i <= admins@.len(),
            rows == admins@.map_values(|a: (i64, String)| admin_row(chat_title@, opt_text(chat_username), a)),
            out@ == report_bom() + csv_record(admins_header()) + csv_lines(rows.take(i as int)),
        decreases admins.len() - i,
    {
        let fields = vec![
            copy_str(chat_title),
            username_field(chat_username),
            id_field(admins[i].0),
            copy_str(admins[i].1.as_str()),
        ];
        assert(texts_view(fields@) =~= rows[i as int]);
        append_record(&mut out, &fields);
        assert(rows.take(i + 1).drop_last() =~= rows.take(i as int));
        assert(out@ =~= report_bom() + csv_record(admins_header()) + csv_lines(rows.take(i + 1)));
        i = i + 1;
    }
    assert(rows.take(admins@.len() as int) =~= rows);
    string_from_chars(&out)
}

} // verus!
