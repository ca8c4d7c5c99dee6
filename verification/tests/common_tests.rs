use blacksmith_core::clock::Now;
use blacksmith_core::moscow_time::{
    invoice_deadline, moscow_date_to_rfc3339_end, moscow_date_to_rfc3339_start,
};
use blacksmith_core::app_name::{
    bot_api_url, bot_file_url, build_resource_file_path, get_mapped_from_app_name_role_directory,
    get_system_role_path, is_bot_addressed, is_localdb_implemented, message_file_path,
    message_or_fallback, parse_app_name, path_join_chars, requested_app, role_fallback,
    tts_callback_data, AppName, MessageFamily,
};
use blacksmith_core::chunking::split_text_into_chunks;
use blacksmith_core::markdown::convert_markdown_to_telegram;
use blacksmith_core::podcast::{
    channel_file_entry, channel_file_header, channel_file_text, daily_podcast_dir, parse_channel_file,
    podcast_addressee, podcast_file_name, update_review_entry, update_review_request,
    user_tmp_dir, Recipient,
};
use blacksmith_core::rag::{
    aggregate_hits, full_document_text, payload_documents, payload_key_lookup, same_point, PointId,
    ScrolledPoint,
};
use blacksmith_core::request_app::{
    combine_payload_texts, full_search_answer, join_authors, keeps_point, ranking_request,
};

#[test]
fn app_names_and_directories() {
    assert_eq!(AppName::GrootBot.as_str(), "groot_bot");
    assert_eq!(parse_app_name("the_viper_room_bot"), Some(AppName::TheViperRoomBot));
    assert_eq!(parse_app_name("nobody"), None);
    assert_eq!(requested_app("nobody"), AppName::BlacksmithWeb);
    assert_eq!(get_mapped_from_app_name_role_directory(&AppName::W3AWeb), "w3a");
    assert_eq!(get_mapped_from_app_name_role_directory(&AppName::StatBot), "stat_bot");
    assert!(is_localdb_implemented(&AppName::GrootBot));
    assert!(!is_localdb_implemented(&AppName::ProbiotBot));
}

#[test]
fn resource_paths() {
    assert_eq!(
        build_resource_file_path(&AppName::GrootBot, "restricted_words.txt"),
        "common_res/groot_bot/restricted_words.txt"
    );
    assert_eq!(
        get_system_role_path(&AppName::ProbiotBot, "main"),
        "common_res/system_roles/probiot/main.txt"
    );
    assert_eq!(
        message_file_path(MessageFamily::GrootBot, "demo"),
        "common_res/messages/groot_bot/demo.txt"
    );
    let joined = path_join_chars(&['a', '/'], &['b']);
    assert_eq!(joined, vec!['a', '/', 'b']);
    let absolute = path_join_chars(&['a'], &['/', 'b']);
    assert_eq!(absolute, vec!['/', 'b']);
}

#[test]
fn fallbacks_and_urls() {
    assert_eq!(role_fallback(None), "You are a helpful assistant");
    assert_eq!(role_fallback(Some("Be brief")), "Be brief");
    assert_eq!(message_or_fallback(Some("hi".to_string())), "hi");
    assert_eq!(
        message_or_fallback(None),
        "Извините, произошла техническая ошибка. Пожалуйста, попробуйте позже."
    );
    assert_eq!(tts_callback_data(-42, "17"), "tts:-42:17");
    assert_eq!(bot_api_url("TOKEN", "getMe"), "https://api.telegram.org/botTOKEN/getMe");
    assert_eq!(
        bot_file_url("TOKEN", "voice/file_1.oga"),
        "https://api.telegram.org/file/botTOKEN/voice/file_1.oga"
    );
}

#[test]
fn bot_is_addressed_by_reply_mention_or_text() {
    assert!(is_bot_addressed(true, None, "groot", &vec![], 9));
    assert!(is_bot_addressed(false, Some("hey @groot, help"), "groot", &vec![], 9));
    assert!(is_bot_addressed(false, Some("hey"), "groot", &vec![3, 9], 9));
    assert!(!is_bot_addressed(false, Some("hey groot"), "groot", &vec![3], 9));
}

#[test]
fn chunks_cut_at_sentence_ends() {
    assert_eq!(
        split_text_into_chunks("Hello world. Bye", 14),
        vec!["Hello world.".to_string(), " Bye".to_string()]
    );
    assert_eq!(split_text_into_chunks("abcdef", 3), vec!["abc".to_string(), "def".to_string()]);
    assert_eq!(split_text_into_chunks("", 3), Vec::<String>::new());
    assert_eq!(split_text_into_chunks("ab", 5), vec!["ab".to_string()]);
}

#[test]
fn markdown_reserved_characters_are_escaped() {
    assert_eq!(convert_markdown_to_telegram("a.b!"), "a\\.b\\!");
    assert_eq!(convert_markdown_to_telegram("(x)-[y]"), "\\(x\\)\\-\\[y\\]");
    assert_eq!(convert_markdown_to_telegram("plain"), "plain");
}

#[test]
fn hybrid_hits_are_gathered_per_document() {
    let chunk_hits = vec![("d1".to_string(), 4), ("d2".to_string(), 1), ("d1".to_string(), 7)];
    let description_hits = vec!["d2".to_string(), "d3".to_string()];
    let aggs = aggregate_hits(&chunk_hits, &description_hits);
    assert_eq!(aggs.len(), 3);
    assert_eq!(aggs[0].document_id, "d1");
    assert_eq!(aggs[0].chunk_rank, Some(0));
    assert_eq!(aggs[0].matched_chunk_indices, vec![4, 7]);
    assert_eq!(aggs[0].description_rank, None);
    assert_eq!(aggs[1].document_id, "d2");
    assert_eq!(aggs[1].chunk_rank, Some(1));
    assert_eq!(aggs[1].description_rank, Some(0));
    assert_eq!(aggs[2].document_id, "d3");
    assert_eq!(aggs[2].chunk_rank, None);
    assert_eq!(aggs[2].matched_chunk_indices, Vec::<u32>::new());
    assert_eq!(aggs[2].description_rank, Some(1));
}

#[test]
fn full_documents_join_their_chunks() {
    assert_eq!(
        full_document_text(&vec!["one".to_string(), "two".to_string()]),
        Some("one\n\ntwo".to_string())
    );
    assert_eq!(full_document_text(&vec![]), None);
    assert!(same_point(&PointId::Num(3), &PointId::Num(3)));
    assert!(!same_point(&PointId::Num(3), &PointId::Uuid("3".to_string())));
}

#[test]
fn payload_texts_and_authors() {
    let texts = vec![Some("a".to_string()), None, Some("b".to_string())];
    assert_eq!(combine_payload_texts(&texts), Some("a\nb".to_string()));
    assert_eq!(combine_payload_texts(&vec![None]), None);
    assert_eq!(join_authors(&vec![Some("ann".to_string()), None, Some("bo".to_string())]), "ann, bo");
    assert!(keeps_point(true, Some(Some(5)), 6));
    assert!(!keeps_point(true, Some(Some(6)), 6));
    assert!(keeps_point(true, None, 6));
    assert!(!keeps_point(false, None, 6));
}

#[test]
fn podcast_names_and_places() {
    assert_eq!(podcast_addressee(Recipient::Public, Some("Ann")), "Public");
    assert_eq!(podcast_addressee(Recipient::Private(5), Some("Ann")), "Ann");
    assert_eq!(podcast_addressee(Recipient::Private(5), None), "Друг");
    assert_eq!(user_tmp_dir("42"), "common_res/the_viper_room/tmp/42");
    assert_eq!(daily_podcast_dir(Recipient::Public), "common_res/the_viper_room/daily_public_podcast");
    assert_eq!(
        daily_podcast_dir(Recipient::Private(42)),
        "common_res/the_viper_room/42/daily_private_podcast"
    );
    assert_eq!(podcast_file_name("2024-05-01"), "The_Viper_Podcast_(2024-05-01)");
}

#[test]
fn update_reviews() {
    assert_eq!(
        update_review_request("News", "Text"),
        "Источник обновления: News\nТекст обновления:\nText"
    );
    assert_eq!(
        update_review_entry("News", "  Good  "),
        Some("Источник обновления: News\nОбзор обновления:\nGood\n\n".to_string())
    );
    assert_eq!(update_review_entry("News", "   "), None);
}

#[test]
fn chunks_cut_after_a_near_sentence_end_or_at_the_limit() {
    // a sentence end 9 characters before the limit: the chunk ends right after it
    let text = format!("{}.{}", "a".repeat(240), "b".repeat(100));
    let chunks = split_text_into_chunks(&text, 250);
    assert_eq!(chunks.len(), 2);
    assert_eq!(chunks[0], format!("{}.", "a".repeat(240)));
    assert_eq!(chunks[1], "b".repeat(100));
    // a sentence end 248 characters before the limit is too far back: cut at the limit
    let far = format!("x.{}", "a".repeat(300));
    let chunks = split_text_into_chunks(&far, 250);
    assert_eq!(chunks.len(), 2);
    assert_eq!(chunks[0].chars().count(), 250);
    assert!(chunks[0].starts_with("x."));
    assert_eq!(chunks[1], "a".repeat(52));
    // a sentence end exactly at the limit
    let exact = format!("{}!rest", "c".repeat(9));
    let chunks = split_text_into_chunks(&exact, 10);
    assert_eq!(chunks, vec![format!("{}!", "c".repeat(9)), "rest".to_string()]);
}

#[test]
fn channel_file_written_then_read() {
    let mut content = channel_file_header("Channel A");
    content.push_str(&channel_file_entry("first update"));
    content.push_str(&channel_file_entry("second update"));
    let (source, updates) = parse_channel_file(&content);
    assert_eq!(source, "Channel A");
    assert_eq!(updates, vec!["first update".to_string(), "second update".to_string()]);
}

#[test]
fn channel_file_drops_blank_messages_and_trims() {
    let mut content = channel_file_header(" Channel B ");
    content.push_str(&channel_file_entry("  kept  "));
    content.push_str(&channel_file_entry("   "));
    content.push_str(&channel_file_entry(""));
    content.push_str(&channel_file_entry("also kept"));
    let (source, updates) = parse_channel_file(&content);
    assert_eq!(source, "Channel B");
    assert_eq!(updates, vec!["kept".to_string(), "also kept".to_string()]);
    let mut crlf = channel_file_header("Channel C\r");
    crlf.push_str(&channel_file_entry("one"));
    assert_eq!(parse_channel_file(&crlf), ("Channel C".to_string(), vec!["one".to_string()]));
}

#[test]
fn ranking_request_names_query_and_results() {
    assert_eq!(
        ranking_request("need a designer", "1. logo work"),
        "User's query: need a designer\nA list of search results from the Qdrant vector database based on the user's query: 1. logo work"
    );
}

#[test]
fn payload_documents_are_ordered_by_segment_with_defaults() {
    let point = |id: Option<PointId>, text: Option<&str>, segment: Option<i64>| ScrolledPoint {
        point_id: id,
        text: text.map(|t| t.to_string()),
        module: Some("m1".to_string()),
        block_title: None,
        lesson_title: Some("l".to_string()),
        segment_id: segment,
    };
    let points = vec![
        point(Some(PointId::Num(1)), Some("third"), Some(5)),
        point(None, None, None),
        point(Some(PointId::Num(3)), Some("second"), Some(2)),
        point(Some(PointId::Num(4)), Some("fourth"), Some(5)),
        point(Some(PointId::Num(5)), Some("first"), Some(-7)),
    ];
    let docs = payload_documents(&points);
    let texts: Vec<&str> = docs.iter().map(|d| d.text.as_str()).collect();
    assert_eq!(texts, vec!["first", "", "second", "third", "fourth"]);
    let segments: Vec<i64> = docs.iter().map(|d| d.segment_id).collect();
    assert_eq!(segments, vec![-7, 0, 2, 5, 5]);
    assert!(matches!(&docs[1].point_id, PointId::Uuid(u) if u == "unknown"));
    assert_eq!(docs[1].block_title, "");
    assert_eq!(docs[1].module, "m1");
    assert!(matches!(docs[3].point_id, PointId::Num(1)));
}

#[test]
fn moscow_day_bounds_and_invoice_deadline() {
    assert_eq!(
        moscow_date_to_rfc3339_start(2024, 3, 15),
        Some("2024-03-15T00:00:00+03:00".to_string())
    );
    assert_eq!(
        moscow_date_to_rfc3339_end(2024, 3, 15),
        Some("2024-03-15T23:59:59+03:00".to_string())
    );
    assert_eq!(moscow_date_to_rfc3339_start(2024, 2, 30), None);
    let now = Now { secs: 1_700_000_000, nanos: 0 };
    assert_eq!(invoice_deadline(1_700_000_000, now), Some("15.11.2023 01:13 UTC+3".to_string()));
    assert_eq!(invoice_deadline(i64::MAX, now), Some("15.11.2023 02:13 UTC+3".to_string()));
}

#[test]
fn payload_search_follows_the_first_hit() {
    assert_eq!(payload_key_lookup(&vec![]), None);
    assert_eq!(
        payload_key_lookup(&vec!["Lesson 2".to_string(), "Lesson 5".to_string()]),
        Some(("lesson_title".to_string(), "Lesson 2".to_string()))
    );
}

#[test]
fn channel_file_text_reads_back() {
    let texts = vec![
        " first ".to_string(),
        "\n\t".to_string(),
        "second: with colon".to_string(),
        "".to_string(),
    ];
    let content = channel_file_text("Source name", &texts);
    assert_eq!(
        content,
        "ИСТОЧНИК ОБНОВЛЕНИЙ: Source name\n\n===ТЕКСТ ОБНОВЛЕНИЯ===\n first \n===КОНЕЦ===\n\n\
===ТЕКСТ ОБНОВЛЕНИЯ===\n\n\t\n===КОНЕЦ===\n\n\
===ТЕКСТ ОБНОВЛЕНИЯ===\nsecond: with colon\n===КОНЕЦ===\n\n\
===ТЕКСТ ОБНОВЛЕНИЯ===\n\n===КОНЕЦ===\n\n"
    );
    assert_eq!(
        parse_channel_file(&content),
        ("Source name".to_string(), vec!["first".to_string(), "second: with colon".to_string()])
    );
}

#[test]
fn full_search_answer_joins_texts_and_authors() {
    let some = |t: &str| Some(t.to_string());
    assert_eq!(full_search_answer(&vec![None, None], &vec![some("ann")]), None);
    assert_eq!(
        full_search_answer(&vec![some("logo work"), None, some("web design")], &vec![some("ann"), None, some("bob")]),
        Some(("logo work\nweb design".to_string(), "ann, bob".to_string()))
    );
}
