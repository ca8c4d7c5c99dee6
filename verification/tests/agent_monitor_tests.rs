use blacksmith_core::agent_monitor::{
    analysis_from, bot_api_chat_id, classify_sender, count_messages_by_sender, is_active_member,
    monitor_status_from_str, next_chat_stats, parse_report_response, report_command,
    report_csv_path, report_decision, report_outcome, should_resume_monitoring,
    spam_author_name, status_gate, stored_status, user_api_chat_id, AdminCollection,
    AnalysisResult, ChatMember, MessageAuthor, MonitorRecord, MonitorStatus, Participant, ParticipantRole,
    ReportAction, ReportOutcome, SenderCheck, StatsUpdate, StatusGate, SpamRecord, spam_report_csv,
    admins_report_csv, AdminFetchNext, message_step, MessageAction, MessageEvent, MessageStage,
};
use blacksmith_core::clock::Now;

// 2023-11-14T22:13:20Z
fn now() -> Now {
    Now { secs: 1_700_000_000, nanos: 0 }
}

fn record(status: MonitorStatus, spam: i32, total: i32, last_report: Option<&str>) -> MonitorRecord {
    MonitorRecord {
        status,
        spam_count: spam,
        total_messages: total,
        first_message_time: Some("2023-11-10T00:00:00+00:00".to_string()),
        last_report_sent: last_report.map(|s| s.to_string()),
    }
}

#[test]
fn stored_status_texts_are_read() {
    assert_eq!(monitor_status_from_str("collecting"), MonitorStatus::Collecting);
    assert_eq!(monitor_status_from_str("silence"), MonitorStatus::Silence);
    assert_eq!(monitor_status_from_str("not_relevant"), MonitorStatus::NotRelevant);
    assert_eq!(monitor_status_from_str("paused"), MonitorStatus::Other);
    assert_eq!(stored_status(None), MonitorStatus::Collecting);
    assert_eq!(stored_status(Some("silence")), MonitorStatus::Silence);
}

#[test]
fn first_message_of_a_chat_starts_the_count() {
    match next_chat_stats(&None, true, now(), "2023-11-14T22:13:20+00:00") {
        StatsUpdate::Store { spam_count, total_messages, first_message_time } => {
            assert_eq!(spam_count, 1);
            assert_eq!(total_messages, 1);
            assert_eq!(first_message_time.as_deref(), Some("2023-11-14T22:13:20+00:00"));
        }
        StatsUpdate::Unchanged => panic!("a new chat must be counted"),
    }
}

#[test]
fn collecting_chat_counts_spam_and_messages() {
    let r = Some(record(MonitorStatus::Collecting, 4, 9, None));
    match next_chat_stats(&r, true, now(), "later") {
        StatsUpdate::Store { spam_count, total_messages, first_message_time } => {
            assert_eq!(spam_count, 5);
            assert_eq!(total_messages, 10);
            assert_eq!(first_message_time.as_deref(), Some("2023-11-10T00:00:00+00:00"));
        }
        StatsUpdate::Unchanged => panic!("a collecting chat must be counted"),
    }
    match next_chat_stats(&r, false, now(), "later") {
        StatsUpdate::Store { spam_count, total_messages, .. } => {
            assert_eq!(spam_count, 4);
            assert_eq!(total_messages, 10);
        }
        StatsUpdate::Unchanged => panic!("a collecting chat must be counted"),
    }
}

#[test]
fn not_relevant_chat_is_left_alone() {
    let r = Some(record(MonitorStatus::NotRelevant, 0, 3, None));
    assert!(matches!(next_chat_stats(&r, true, now(), "t"), StatsUpdate::Unchanged));
    assert_eq!(status_gate(Some(MonitorStatus::NotRelevant), Some(true)), StatusGate::Skip);
}

#[test]
fn silence_ends_after_eleven_days() {
    // eleven days and a bit before now
    let old_report = Some(record(MonitorStatus::Silence, 12, 40, Some("2023-11-03T20:00:00+00:00")));
    match next_chat_stats(&old_report, false, now(), "2023-11-14T22:13:20+00:00") {
        StatsUpdate::Store { spam_count, total_messages, .. } => {
            assert_eq!(spam_count, 0);
            assert_eq!(total_messages, 1);
        }
        StatsUpdate::Unchanged => panic!("the silence is over"),
    }
    // ten days before now
    let recent = Some(record(MonitorStatus::Silence, 12, 40, Some("2023-11-04T23:00:00+00:00")));
    assert!(matches!(next_chat_stats(&recent, true, now(), "t"), StatsUpdate::Unchanged));
    assert!(should_resume_monitoring(&Some("2023-11-03T20:00:00+00:00".to_string()), now()));
    assert!(!should_resume_monitoring(&Some("2023-11-04T23:00:00+00:00".to_string()), now()));
    assert!(!should_resume_monitoring(&Some("yesterday".to_string()), now()));
    assert!(!should_resume_monitoring(&None, now()));
}

#[test]
fn status_gate_decides_by_status_and_silence() {
    assert_eq!(status_gate(None, None), StatusGate::Proceed);
    assert_eq!(status_gate(Some(MonitorStatus::Collecting), None), StatusGate::Proceed);
    assert_eq!(status_gate(Some(MonitorStatus::Silence), Some(true)), StatusGate::ResumeAndProceed);
    assert_eq!(status_gate(Some(MonitorStatus::Silence), Some(false)), StatusGate::Skip);
    assert_eq!(status_gate(Some(MonitorStatus::Silence), None), StatusGate::Skip);
}

#[test]
fn report_after_three_days_with_enough_spam() {
    // four days of observation
    assert_eq!(
        report_decision("2023-11-10T20:00:00+00:00", 10, now()),
        Some(ReportAction::SendReport)
    );
    assert_eq!(
        report_decision("2023-11-10T20:00:00+00:00", 9, now()),
        Some(ReportAction::MarkNotRelevant)
    );
    // one day of observation
    assert_eq!(report_decision("2023-11-13T20:00:00+00:00", 50, now()), Some(ReportAction::Wait));
    assert_eq!(report_decision("not a time", 50, now()), None);
}

#[test]
fn senders_are_classified() {
    let (me, bot) = (7, 99);
    assert_eq!(classify_sender(None, 5, me, bot), SenderCheck::NoSender);
    assert_eq!(classify_sender(Some(bot), bot, me, bot), SenderCheck::ReportChannel);
    assert_eq!(classify_sender(Some(5), 5, me, bot), SenderCheck::SelfChat);
    assert_eq!(classify_sender(Some(me), 5, me, bot), SenderCheck::OwnMessage);
    assert_eq!(classify_sender(Some(bot), 5, me, bot), SenderCheck::BotMessage);
    assert_eq!(classify_sender(Some(42), 5, me, bot), SenderCheck::Member);
    assert!(is_active_member(500));
    assert!(!is_active_member(499));
}

#[test]
fn chat_ids_convert_between_apis() {
    assert_eq!(bot_api_chat_id(1234567890), -1001234567890);
    assert_eq!(user_api_chat_id(-1001234567890), 1234567890);
    assert_eq!(user_api_chat_id(777), 777);
    let id = 2_000_000_123;
    assert_eq!(user_api_chat_id(bot_api_chat_id(id)), id);
}

#[test]
fn report_responses_are_read() {
    assert_eq!(
        parse_report_response("report_response:-1001234567890:Offer sent: ok"),
        Some((1234567890, "Offer sent: ok".to_string()))
    );
    assert_eq!(
        parse_report_response("report_response:-1001234567890"),
        Some((1234567890, "Unknown response".to_string()))
    );
    assert_eq!(parse_report_response("report_response:abc:x"), None);
    assert_eq!(parse_report_response("hello"), None);
}

#[test]
fn report_response_built_from_a_chat_reads_back() {
    let chat: i64 = 987654321;
    let text = format!("report_response:{}:{}", bot_api_chat_id(chat), "a:b:c");
    assert_eq!(parse_report_response(&text), Some((chat, "a:b:c".to_string())));
    let empty = format!("report_response:{}:", bot_api_chat_id(chat));
    assert_eq!(parse_report_response(&empty), Some((chat, String::new())));
}

#[test]
fn report_command_and_files() {
    assert_eq!(report_command(-1001234567890), "/agent_report -1001234567890");
    assert_eq!(
        report_csv_path(-1001234567890, "_report.csv"),
        "common_res/agent_davon/reports/-1001234567890_report.csv"
    );
}

#[test]
fn spam_authors_are_named() {
    assert_eq!(spam_author_name(&MessageAuthor::User { username: Some("bob".to_string()) }), "bob");
    assert_eq!(spam_author_name(&MessageAuthor::User { username: None }), "mommy's_anon");
    assert_eq!(spam_author_name(&MessageAuthor::Chat { username: None }), "_");
}

fn participant(role: ParticipantRole, id: i64, first_name: &str) -> Participant {
    Participant {
        role,
        member: ChatMember {
            user_id: id,
            username: Some(format!("user{}", id)),
            first_name: first_name.to_string(),
            last_name: None,
        },
    }
}

fn owner_id(c: &AdminCollection) -> Option<i64> {
    c.owner.as_ref().map(|m| m.user_id)
}

fn admin_ids(c: &AdminCollection) -> Vec<i64> {
    c.administrators.iter().map(|m| m.user_id).collect()
}

#[test]
fn admins_are_collected_once() {
    let mut c = AdminCollection::new();
    assert!(!c.is_complete());
    let page = vec![
        participant(ParticipantRole::Admin, 3, "Ann"),
        participant(ParticipantRole::Other, 4, "Bob"),
        participant(ParticipantRole::Creator, 1, "Cid"),
        participant(ParticipantRole::Admin, 3, "Ann again"),
    ];
    assert_eq!(c.absorb(&page), (true, true));
    assert_eq!(owner_id(&c), Some(1));
    assert_eq!(c.owner.as_ref().unwrap().first_name, "Cid");
    assert_eq!(admin_ids(&c), vec![3]);
    assert_eq!(c.administrators[0].first_name, "Ann");
    assert_eq!(c.administrators[0].username, Some("user3".to_string()));
    assert!(c.is_complete());
    let again = vec![
        participant(ParticipantRole::Creator, 2, "Dan"),
        participant(ParticipantRole::Admin, 3, "Ann"),
    ];
    assert_eq!(c.absorb(&again), (false, false));
    assert_eq!(owner_id(&c), Some(1));
}

#[test]
fn messages_are_counted_per_sender() {
    let senders = vec![Some(5), None, Some(7), Some(5), Some(5)];
    assert_eq!(count_messages_by_sender(&senders), vec![(5, 3), (7, 1)]);
}

#[test]
fn analysis_and_report_answers() {
    assert_eq!(analysis_from(Some(true)), AnalysisResult::Spam);
    assert_eq!(analysis_from(Some(false)), AnalysisResult::Clear);
    assert_eq!(analysis_from(None), AnalysisResult::Clear);
    assert_eq!(report_outcome("Offer sent: to chat"), ReportOutcome::OfferSent);
    assert_eq!(report_outcome("Error: no rights"), ReportOutcome::Failed);
    assert_eq!(report_outcome("queued"), ReportOutcome::Recorded);
}

#[test]
fn spam_report_is_written_as_csv() {
    let records = vec![
        SpamRecord {
            user_id: 42,
            username: None,
            message_text: "he said \"hi\", ok".to_string(),
            detected_at: "2024-01-01".to_string(),
        },
        SpamRecord {
            user_id: -7,
            username: Some("spammer".to_string()),
            message_text: "buy now".to_string(),
            detected_at: "2024-01-02".to_string(),
        },
    ];
    assert_eq!(
        spam_report_csv("Chat", None, &records),
        "\u{feff}chat_title,chat_username,user_id,username,message_text,detected_at\n\
         Chat,_,42,mommy's_anon,\"he said \"\"hi\"\", ok\",2024-01-01\n\
         Chat,_,-7,spammer,buy now,2024-01-02\n"
    );
}

#[test]
fn admins_report_is_written_as_csv() {
    let admins = vec![(1, "creator".to_string()), (2, "administrator".to_string())];
    assert_eq!(
        admins_report_csv("My chat", Some("my_chat"), &admins),
        "\u{feff}chat_title,chat_username,user_id,role\nMy chat,my_chat,1,creator\nMy chat,my_chat,2,administrator\n"
    );
}

fn run_message(events: &[MessageEvent], text_is_empty: bool) -> Vec<MessageAction> {
    let mut stage = MessageStage::Start;
    let mut actions = Vec::new();
    for event in events {
        let (next, action) = message_step(stage, *event, text_is_empty);
        stage = next;
        actions.push(action);
    }
    actions
}

#[test]
fn spam_from_a_new_member_is_recorded() {
    let actions = run_message(
        &[
            MessageEvent::Sender(SenderCheck::Member),
            MessageEvent::No,
            MessageEvent::Done,
            MessageEvent::Count(3),
            MessageEvent::Yes,
            MessageEvent::Yes,
            MessageEvent::No,
            MessageEvent::Status(MonitorStatus::Collecting),
            MessageEvent::Verdict(AnalysisResult::Spam),
        ],
        false,
    );
    assert_eq!(
        actions,
        vec![
            MessageAction::AskStatsFetched,
            MessageAction::FetchStats,
            MessageAction::AskMessageCount,
            MessageAction::AskShouldProcess,
            MessageAction::AskAdminsFetched,
            MessageAction::AskSenderAdmin,
            MessageAction::AskChatStatus,
            MessageAction::Analyze,
            MessageAction::RecordSpam,
        ]
    );
}

#[test]
fn messages_left_alone_or_counted_clear() {
    assert_eq!(
        message_step(MessageStage::Start, MessageEvent::Sender(SenderCheck::ReportChannel), false),
        (MessageStage::Finished, MessageAction::ProcessReportResponse)
    );
    assert_eq!(
        message_step(MessageStage::Start, MessageEvent::Sender(SenderCheck::OwnMessage), false),
        (MessageStage::Finished, MessageAction::Ignore)
    );
    assert_eq!(
        message_step(MessageStage::MessageCount, MessageEvent::Count(500), false),
        (MessageStage::Finished, MessageAction::RecordClear)
    );
    assert_eq!(
        message_step(MessageStage::SenderAdmin, MessageEvent::Yes, false),
        (MessageStage::Finished, MessageAction::Ignore)
    );
    assert_eq!(
        message_step(MessageStage::ChatStatus, MessageEvent::Status(MonitorStatus::NotRelevant), false),
        (MessageStage::Finished, MessageAction::Ignore)
    );
    assert_eq!(
        message_step(MessageStage::ChatStatus, MessageEvent::Failed, true),
        (MessageStage::Finished, MessageAction::Ignore)
    );
    assert_eq!(
        message_step(MessageStage::Analysis, MessageEvent::Failed, false),
        (MessageStage::Finished, MessageAction::RecordClear)
    );
    assert_eq!(
        message_step(MessageStage::ShouldProcess, MessageEvent::Failed, false),
        (MessageStage::Finished, MessageAction::Fail)
    );
    assert_eq!(
        message_step(MessageStage::FetchingAdmins, MessageEvent::Failed, false),
        (MessageStage::SenderAdmin, MessageAction::AskSenderAdmin)
    );
}

#[test]
fn silenced_chat_resumes_then_analyses() {
    let actions = run_message(
        &[
            MessageEvent::Sender(SenderCheck::Member),
            MessageEvent::Yes,
            MessageEvent::Count(0),
            MessageEvent::Yes,
            MessageEvent::No,
            MessageEvent::Done,
            MessageEvent::No,
            MessageEvent::Status(MonitorStatus::Silence),
            MessageEvent::Yes,
            MessageEvent::Done,
            MessageEvent::Verdict(AnalysisResult::Clear),
        ],
        false,
    );
    assert_eq!(
        actions,
        vec![
            MessageAction::AskStatsFetched,
            MessageAction::AskMessageCount,
            MessageAction::AskShouldProcess,
            MessageAction::AskAdminsFetched,
            MessageAction::FetchAdmins,
            MessageAction::AskSenderAdmin,
            MessageAction::AskChatStatus,
            MessageAction::AskResume,
            MessageAction::ResumeMonitoring,
            MessageAction::Analyze,
            MessageAction::RecordClear,
        ]
    );
}

#[test]
fn admin_listing_is_retried_until_complete_or_the_third_attempt() {
    let admin = |id: i64| participant(ParticipantRole::Admin, id, "A");
    let creator = |id: i64| participant(ParticipantRole::Creator, id, "C");
    let mut c = AdminCollection::new();
    assert_eq!(c.fetch_attempt(1, &vec![admin(5)]), AdminFetchNext::RetryAfterPause);
    assert_eq!(c.fetch_attempt(2, &vec![admin(5), creator(1)]), AdminFetchNext::Save);
    assert_eq!(owner_id(&c), Some(1));
    assert_eq!(admin_ids(&c), vec![5]);
    let mut d = AdminCollection::new();
    assert_eq!(d.fetch_attempt(2, &vec![]), AdminFetchNext::RetryAfterPause);
    assert_eq!(d.fetch_attempt(3, &vec![]), AdminFetchNext::Save);
    assert_eq!(owner_id(&d), None);
}
