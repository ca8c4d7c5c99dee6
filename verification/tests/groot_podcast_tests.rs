use blacksmith_core::groot::{is_from_linked_channel, record_penalty};
use blacksmith_core::groot::{
    add_chat_to_file, count_emojis, get_chat_title, get_chat_username, get_username,
    parsing_restricted_words, reaches_blacklist, warning_thread, BlackList, ChatObject,
    PenaltyBook, SenderName,
};
use blacksmith_core::podcast::{
    channel_updates_file, is_useful_update, merge_filter_graph, merge_plan, parse_channel_file,
    parts_to_voice, pause_after_batch, tts_retry_delay, MergePlan, order_voiced_parts, tts_batches,
    podcast_channel_source, ChannelSource, PodcastSourceError, Recipient,
};

#[test]
fn penalty_points_count_per_chat_and_user() {
    let mut book = PenaltyBook::new();
    assert_eq!(book.get_penalty_points(-100, 7), 0);
    assert_eq!(book.add_penalty_points(-100, 7), 1);
    assert_eq!(book.add_penalty_points(-100, 7), 2);
    assert_eq!(book.add_penalty_points(-200, 7), 1);
    assert_eq!(book.get_penalty_points(-100, 7), 2);
    assert_eq!(book.get_penalty_points(-100, 8), 0);
    for _ in 0..5 {
        book.add_penalty_points(-100, 7);
    }
    assert_eq!(book.get_penalty_points(-100, 7), 7);
    assert!(reaches_blacklist(7));
    assert!(!reaches_blacklist(6));
}

#[test]
fn black_list_takes_a_user_once() {
    let mut list = BlackList::new();
    assert!(list.add_user_to_black_list(42));
    assert!(!list.add_user_to_black_list(42));
    assert_eq!(list.users.len(), 1);
    assert!(list.users.contains(&42));
}

#[test]
fn chat_list_takes_a_chat_once() {
    let mut chats = vec![ChatObject { chat_id: 1, username: "one".to_string() }];
    assert!(!add_chat_to_file(&mut chats, ChatObject { chat_id: 1, username: "again".to_string() }));
    assert!(add_chat_to_file(&mut chats, ChatObject { chat_id: 2, username: "two".to_string() }));
    assert_eq!(chats.len(), 2);
    assert_eq!(chats[0].username, "one");
}

#[test]
fn restricted_words_ignore_case() {
    let words = vec!["Casino".to_string(), "КРИПТА".to_string()];
    assert!(parsing_restricted_words(&words, "Best CASINO online"));
    assert!(parsing_restricted_words(&words, "купи крипта сейчас"));
    assert!(!parsing_restricted_words(&words, "hello"));
    assert!(!parsing_restricted_words(&vec![], "casino"));
}

#[test]
fn emojis_are_counted_by_grapheme() {
    assert_eq!(count_emojis("hi 😀😀"), 2);
    assert_eq!(count_emojis("plain text"), 0);
}

#[test]
fn sender_names() {
    let with_username = SenderName {
        username: Some("bob".to_string()),
        first_name: "Bob".to_string(),
        last_name: None,
    };
    assert_eq!(get_username(Some(&with_username)), "bob");
    let full = SenderName {
        username: None,
        first_name: " Bob ".to_string(),
        last_name: Some("Smith ".to_string()),
    };
    assert_eq!(get_username(Some(&full)), "Bob Smith");
    let blank = SenderName { username: None, first_name: "  ".to_string(), last_name: None };
    assert_eq!(get_username(Some(&blank)), "mommy's_anon");
    assert_eq!(get_username(None), "mommy's_anon");
    assert_eq!(get_chat_title(None), "No Title Chat");
    assert_eq!(get_chat_username(Some("room")), "room");
    assert_eq!(get_chat_username(None), "_");
    assert_eq!(warning_thread(true, Some(5)), Some(5));
    assert_eq!(warning_thread(false, Some(5)), None);
}

#[test]
fn channel_file_is_read() {
    let content = "ИСТОЧНИК ОБНОВЛЕНИЙ: Tech News\n\n===ТЕКСТ ОБНОВЛЕНИЯ===\nFirst item\n===КОНЕЦ===\n\n===ТЕКСТ ОБНОВЛЕНИЯ===\nSecond item\n===КОНЕЦ===\n";
    let (source, messages) = parse_channel_file(content);
    assert_eq!(source, "Tech News");
    assert_eq!(messages, vec!["First item".to_string(), "Second item".to_string()]);
}

#[test]
fn channel_file_without_source() {
    let (source, messages) = parse_channel_file("===ТЕКСТ ОБНОВЛЕНИЯ===\nlost\n");
    assert_eq!(source, "Не определено");
    assert!(messages.is_empty());
}

#[test]
fn podcast_parts_group_three_items() {
    let body: Vec<String> = (1..=7).map(|i| format!("n{}", i)).collect();
    let parts = parts_to_voice("intro", &body, "outro");
    assert_eq!(
        parts,
        vec![
            "intro".to_string(),
            "n1\n\nn2\n\nn3".to_string(),
            "n4\n\nn5\n\nn6".to_string(),
            "n7".to_string(),
            "outro".to_string(),
        ]
    );
    assert_eq!(parts_to_voice("i", &vec![], "o"), vec!["i".to_string(), "o".to_string()]);
}

#[test]
fn podcast_helpers() {
    assert_eq!(channel_updates_file("tmp/1", "My Chan/nel"), "tmp/1/My_Chan_nel.txt");
    assert!(is_useful_update("  OK "));
    assert!(!is_useful_update("skip"));
    assert!(!is_useful_update("ok but skip"));
    assert!(!is_useful_update("maybe"));
    assert_eq!(merge_plan(0), MergePlan::NothingToMerge);
    assert_eq!(merge_plan(1), MergePlan::SinglePart);
    assert_eq!(merge_plan(3), MergePlan::Concatenate);
    assert_eq!(
        merge_filter_graph(2),
        "anullsrc=channel_layout=stereo:sample_rate=44100:duration=1.5[silence0];[0:a][silence0][1:a]concat=n=3:v=0:a=1[out]"
    );
    let three = merge_filter_graph(3);
    assert!(three.starts_with("anullsrc=channel_layout=stereo:sample_rate=44100:duration=1.5[silence0];anullsrc=channel_layout=stereo:sample_rate=44100:duration=1.5[silence1];"));
    assert!(three.ends_with("[0:a][silence0][1:a][silence1][2:a]concat=n=5:v=0:a=1[out]"));
    assert_eq!(tts_retry_delay(1), Some(2));
    assert_eq!(tts_retry_delay(2), Some(4));
    assert_eq!(tts_retry_delay(3), None);
    assert!(pause_after_batch(0, 10));
    assert!(!pause_after_batch(1, 10));
    assert!(!pause_after_batch(0, 9));
}

#[test]
fn linked_channel_messages_are_recognised() {
    assert!(is_from_linked_channel(Some(-1001), Some(-1001)));
    assert!(!is_from_linked_channel(Some(-1001), Some(-1002)));
    assert!(!is_from_linked_channel(None, Some(-1001)));
    assert!(!is_from_linked_channel(Some(-1001), None));
}

#[test]
fn the_seventh_penalty_puts_a_user_on_the_black_list() {
    let mut book = PenaltyBook::new();
    let mut list = BlackList::new();
    for expected in 1..=6 {
        assert_eq!(record_penalty(&mut book, &mut list, -100, 5), expected);
        assert!(list.users.is_empty());
    }
    assert_eq!(record_penalty(&mut book, &mut list, -100, 5), 7);
    assert_eq!(list.users.len(), 1);
    assert!(list.users.contains(&5));
    assert_eq!(record_penalty(&mut book, &mut list, -100, 5), 8);
    assert_eq!(list.users.len(), 1);
    assert_eq!(record_penalty(&mut book, &mut list, -200, 5), 1);
    assert_eq!(book.get_penalty_points(-100, 5), 8);
}

#[test]
fn voiced_parts_go_back_in_part_order() {
    let results = vec![
        (11usize, "p11.wav".to_string()),
        (9usize, "p9.wav".to_string()),
        (10usize, "p10.wav".to_string()),
    ];
    assert_eq!(
        order_voiced_parts(&results),
        vec!["p9.wav".to_string(), "p10.wav".to_string(), "p11.wav".to_string()]
    );
    assert_eq!(order_voiced_parts(&vec![]), Vec::<String>::new());
}

#[test]
fn private_podcast_needs_the_database() {
    assert_eq!(
        podcast_channel_source(Recipient::Public, false),
        Ok(ChannelSource::AgentSubscriptions)
    );
    assert_eq!(
        podcast_channel_source(Recipient::Private(42), true),
        Ok(ChannelSource::UserChats(42))
    );
    let err = podcast_channel_source(Recipient::Private(42), false);
    assert_eq!(err, Err(PodcastSourceError::DatabaseRequired));
    assert_eq!(
        PodcastSourceError::DatabaseRequired.message(),
        "Database pool is required for private podcast generation"
    );
}

#[test]
fn parts_are_voiced_in_batches_of_nine() {
    assert_eq!(tts_batches(0), Vec::<(usize, usize)>::new());
    assert_eq!(tts_batches(9), vec![(0, 9)]);
    assert_eq!(tts_batches(20), vec![(0, 9), (9, 9), (18, 2)]);
}
