use blacksmith_core::accounting::{JobSlots, ProcessingType};
use blacksmith_core::app_name::{append_footer_if_needed, footer_needed, AppName};
use blacksmith_core::clock::Now;
use blacksmith_core::dubbing::{
    bucket_or_default, determine_stage_info, final_pipeline_update, gpu_init_failed_update,
    gpu_init_plan, is_terminal_status, monitor_step, monitor_step_update, readiness_step,
    progress_record, review_upload_key, s3_location, s3_url, step_description_or_default, upload_key,
    JobStatusReport,
    GpuInitPlan, JobOutcome, JobPoll, MonitorAction, PipelineStage, Readiness, S3Location,
};
use blacksmith_core::gpu::{
    get_adaptive_interval, parse_gpu_instances, status_from_immers, GpuConfigError,
    GpuInstanceStatus,
};
use blacksmith_core::heleket::{
    api_error_message, generate_signature, heleket_config, hex_string, invoice_endpoint,
    topup_order_id,
};
use blacksmith_core::markdown::markdown_to_html;
use blacksmith_core::rag::{
    select_unseen, ContextDocument, DefaultContextBuilder, PointId, QueryComplexity,
    W3ACollections,
};
use blacksmith_core::subscription::{check_chat_payment, plan_duration_days};
use blacksmith_core::subscription_payment as rub;
use blacksmith_core::subscription_utils::{
    discount_info, get_plan_by_id, price_text, show_payment_link, PaymentLinkError,
};

fn now_2023() -> Now {
    Now { secs: 1_700_000_000, nanos: 0 }
}

#[test]
fn gpu_status_names_round_trip() {
    for s in [
        GpuInstanceStatus::Available,
        GpuInstanceStatus::WakingUp,
        GpuInstanceStatus::Busy,
        GpuInstanceStatus::Error,
    ] {
        assert_eq!(GpuInstanceStatus::from_string(s.to_string()), s);
    }
    assert_eq!(GpuInstanceStatus::Available.to_string(), "available");
    assert_eq!(GpuInstanceStatus::from_string("sleeping"), GpuInstanceStatus::Error);
}

#[test]
fn cloud_status_maps_to_pool_status() {
    assert_eq!(status_from_immers("SHELVED_OFFLOADED"), GpuInstanceStatus::Available);
    assert_eq!(status_from_immers("ACTIVE"), GpuInstanceStatus::Busy);
    assert_eq!(status_from_immers("SHELVED"), GpuInstanceStatus::Error);
}

#[test]
fn instance_list_is_read_with_addresses_after_the_first_colon() {
    let v = parse_gpu_instances("s1:https://a.example.com, s2:http://b:8080").ok().unwrap();
    assert_eq!(
        v,
        vec![
            ("s1".to_string(), "https://a.example.com".to_string()),
            ("s2".to_string(), "http://b:8080".to_string()),
        ]
    );
}

#[test]
fn later_instance_entry_replaces_earlier_one() {
    let v = parse_gpu_instances("s1:u1,s2:u2,s1:u3").ok().unwrap();
    assert_eq!(
        v,
        vec![("s1".to_string(), "u3".to_string()), ("s2".to_string(), "u2".to_string())]
    );
}

#[test]
fn instance_list_errors() {
    assert_eq!(parse_gpu_instances("s1-no-colon").err(), Some(GpuConfigError::InvalidFormat));
    assert_eq!(parse_gpu_instances("").err(), Some(GpuConfigError::InvalidFormat));
    assert_eq!(parse_gpu_instances("a:b,").err(), Some(GpuConfigError::InvalidFormat));
}

#[test]
fn adaptive_interval_steps() {
    assert_eq!(get_adaptive_interval(1), 3);
    assert_eq!(get_adaptive_interval(20), 3);
    assert_eq!(get_adaptive_interval(21), 6);
    assert_eq!(get_adaptive_interval(100), 12);
    assert_eq!(get_adaptive_interval(101), 25);
    assert_eq!(get_adaptive_interval(0), 25);
}

#[test]
fn stage_info_of_steps() {
    let steps = vec!["Download".to_string(), "Warming up GPUs...".to_string()];
    let (stage, idx) = determine_stage_info("Warming up GPUs...", Some(&steps));
    assert_eq!(stage, "preparation");
    assert_eq!(idx, Some(1));
    let (stage2, idx2) = determine_stage_info("Retrieving result urls...", None);
    assert_eq!(stage2, "finalization");
    assert_eq!(idx2, None);
    let (stage3, idx3) = determine_stage_info("Transcribing", Some(&steps));
    assert_eq!(stage3, "processing");
    assert_eq!(idx3, None);
    assert_eq!(PipelineStage::Preparation.as_str(), "preparation");
}

#[test]
fn s3_addresses() {
    match s3_location("s3://bucket/path/to/file.mp4") {
        S3Location::Object { bucket, key } => {
            assert_eq!(bucket, "bucket");
            assert_eq!(key, "path/to/file.mp4");
        }
        _ => panic!("expected an object"),
    }
    assert!(matches!(s3_location("s3://bucket"), S3Location::MissingKey));
    assert!(matches!(s3_location("https://x.y/z"), S3Location::Plain));
    let url = s3_url("b", "k/1");
    assert_eq!(url, "s3://b/k/1");
    match s3_location(&url) {
        S3Location::Object { bucket, key } => {
            assert_eq!(bucket, "b");
            assert_eq!(key, "k/1");
        }
        _ => panic!("expected an object"),
    }
    assert_eq!(upload_key("j1", "v.mp4"), "uploads/j1/input/v.mp4");
    assert_eq!(
        review_upload_key("j1"),
        "jobs/j1/review_required/transcription_corrected.json"
    );
    assert_eq!(bucket_or_default(None), "default-bucket");
}

#[test]
fn monitoring_decisions() {
    assert_eq!(monitor_step(5, &JobPoll::Reported("completed".to_string())), MonitorAction::FetchResult);
    assert_eq!(monitor_step(5, &JobPoll::Reported("failed".to_string())), MonitorAction::RecordJobFailure);
    assert_eq!(monitor_step(30, &JobPoll::Reported("running".to_string())), MonitorAction::Wait(6));
    assert_eq!(monitor_step(2, &JobPoll::Unreachable), MonitorAction::Wait(3));
    assert_eq!(monitor_step(3, &JobPoll::Unreachable), MonitorAction::GiveUp);
    assert!(is_terminal_status("completed"));
    assert!(!is_terminal_status("processing"));
    let u = monitor_step_update(MonitorAction::GiveUp, None, "timeout").unwrap();
    assert_eq!(u.status, "failed");
    assert_eq!(u.error_message, Some("Failed to get dubbing job status: timeout".to_string()));
    assert!(monitor_step_update(MonitorAction::Wait(3), None, "").is_none());
}

#[test]
fn final_records() {
    let t = final_pipeline_update(&JobOutcome::NoResult);
    assert_eq!(t.step_description, "Timeout");
    assert_eq!(t.progress_percentage, Some(0));
    let ok = final_pipeline_update(&JobOutcome::UrlsReady);
    assert_eq!(ok.status, "completed");
    assert_eq!(ok.progress_percentage, Some(100));
    assert!(ok.error_message.is_none());
    let e = final_pipeline_update(&JobOutcome::UrlProcessingFailed("denied".to_string()));
    assert_eq!(e.error_message, Some("Failed to process result URLs: denied".to_string()));
    let g = gpu_init_failed_update("down");
    assert_eq!(g.error_message, Some("Failed to prepare GPU service: down".to_string()));
}

#[test]
fn step_text_defaults_to_the_step_number() {
    assert_eq!(step_description_or_default(Some("Merging"), Some(4)), "Merging");
    assert_eq!(step_description_or_default(None, Some(4)), "Processing step 4");
    assert_eq!(step_description_or_default(None, None), "Processing step 0");
}

#[test]
fn gpu_wake_up_decisions() {
    assert_eq!(gpu_init_plan("SHELVED"), GpuInitPlan::WakeUp);
    assert_eq!(gpu_init_plan("SHELVED_OFFLOADED"), GpuInitPlan::WakeUp);
    assert_eq!(gpu_init_plan("ACTIVE"), GpuInitPlan::CheckHealth);
    assert_eq!(gpu_init_plan("ERROR"), GpuInitPlan::Unexpected);
    assert_eq!(readiness_step(1, true), Readiness::Ready);
    assert_eq!(readiness_step(29, false), Readiness::RetryAfter(10));
    assert_eq!(readiness_step(30, false), Readiness::GiveUp);
}

#[test]
fn subscription_validity() {
    assert!(check_chat_payment(Some("2030-01-01T00:00:00Z"), now_2023()));
    assert!(!check_chat_payment(Some("2020-01-01T00:00:00+03:00"), now_2023()));
    assert!(!check_chat_payment(Some("not a date"), now_2023()));
    assert!(!check_chat_payment(None, now_2023()));
    assert_eq!(plan_duration_days("monthly"), Some(30));
    assert_eq!(plan_duration_days("yearly"), Some(365));
    assert_eq!(plan_duration_days("weekly"), None);
}

#[test]
fn dollar_plans_and_prices() {
    let p = get_plan_by_id("yearly").unwrap();
    assert_eq!(p.price_usd, 120);
    assert_eq!(p.duration_days, 365);
    assert!(get_plan_by_id("daily").is_none());
    assert_eq!(price_text(12, 0, 12, ""), "💰 Сумма: 12 $");
    assert_eq!(
        price_text(120, 30, 84, "existing_subscription"),
        "💰 Сумма: ~~120 $~~ → 84 $ (скидка за активную подписку 30%)"
    );
    assert!(discount_info(true).contains("30%"));
}

#[test]
fn payment_link_needs_a_url() {
    let m = show_payment_link("https://pay.example/i/1", "o1", "chat", "Title", 12, "01.01.2030 10:00 UTC+3")
        .ok()
        .unwrap();
    assert!(m.starts_with("Оплата подписки\n\n🎯 Чат: Title (@chat)\n💰 Сумма: 12 $"));
    match show_payment_link("not a url", "o1", "chat", "Title", 12, "x") {
        Err(e) => {
            assert!(matches!(&e, PaymentLinkError::InvalidPaymentUrl(d) if d == "relative URL without a base"));
            assert_eq!(e.message(), "Invalid payment URL: relative URL without a base");
        }
        Ok(_) => panic!("an address that is no URL was accepted"),
    }
}

#[test]
fn rouble_plans_and_texts() {
    let p = rub::get_plan_by_id("monthly").unwrap();
    assert_eq!(p.price_rub, 500);
    assert_eq!(rub::plan_button_text(p.name, p.price_rub), "Месячная подписка - 500₽");
    assert_eq!(rub::plan_callback(&p), "plan_monthly");
    let t = rub::payment_processing_text(-100123, "chat", "yearly", 5000);
    assert!(t.contains("`-100123`"));
    assert!(t.contains("Годовая подписка"));
    let start = rub::start_payment_process();
    assert_eq!(start.state, rub::SubscriptionState::AwaitingChatSelection);
}

#[test]
fn job_slots() {
    let mut s = JobSlots { active_dubbing_jobs: 0, active_lipsync_jobs: 0 };
    assert!(s.can_start_job(ProcessingType::Dubbing));
    s.reserve_job_slot(ProcessingType::Dubbing);
    assert!(!s.can_start_job(ProcessingType::Dubbing));
    assert!(s.can_start_job(ProcessingType::LipSync));
    s.complete_job(ProcessingType::Dubbing);
    assert_eq!(s, JobSlots { active_dubbing_jobs: 0, active_lipsync_jobs: 0 });
    s.complete_job(ProcessingType::Dubbing);
    assert_eq!(s.active_dubbing_jobs, 0);
    assert_eq!(ProcessingType::LipSync.active_jobs_field(), "active_lipsync_jobs");
}

#[test]
fn gateway_signature() {
    assert_eq!(
        generate_signature("{\"uuid\":\"abc\"}", "KEY"),
        "4021c821443c3f28e5fdfa1d4146838c"
    );
    assert_eq!(hex_string(&vec![10u8, 20, 30]), "0a141e");
    assert_eq!(topup_order_id("u1", "x"), "topup_u1_x");
    let c = heleket_config("m", "k", "https://hook", None, Some("https://c"));
    assert_eq!(c.base_url, "https://api.heleket.com");
    assert_eq!(c.success_url, "https://uniframe.studio/billing?payment=success");
    assert_eq!(c.cancel_url, "https://c");
    assert_eq!(invoice_endpoint(&c.base_url), "https://api.heleket.com/v1/payment");
}

#[test]
fn gateway_errors() {
    assert!(api_error_message(0, Some("x"), None).is_none());
    assert_eq!(api_error_message(1, Some("bad"), None), Some("Heleket API error: bad".to_string()));
    assert_eq!(
        api_error_message(1, None, Some("{}")),
        Some("Heleket API validation errors: {}".to_string())
    );
    assert_eq!(api_error_message(-2, None, None), Some("Heleket API error: state = -2".to_string()));
}

#[test]
fn context_and_collections() {
    assert_eq!(W3ACollections::W3AMain.as_str(), "w3a_main");
    assert_eq!(QueryComplexity::Complex.as_str(), "complex");
    let name: &str = QueryComplexity::Base.as_ref();
    assert_eq!(name, "base");
    let b = DefaultContextBuilder::new().with_separator("---".to_string());
    assert_eq!(b.separator, "---");
    let docs = vec![
        ContextDocument::Plain("alpha".to_string()),
        ContextDocument::Titled {
            title: "Lesson".to_string(),
            extra: Some("Intro".to_string()),
            text: "beta".to_string(),
        },
    ];
    assert_eq!(b.build_context(&docs), "alpha\n\n=== Lesson ===\nIntro\n\nbeta");
}

#[test]
fn related_results_are_added_once() {
    let mut seen = vec![PointId::Num(1), PointId::Uuid("a".to_string())];
    let cands = vec![
        PointId::Num(2),
        PointId::Num(1),
        PointId::Uuid("b".to_string()),
        PointId::Num(2),
        PointId::Uuid("a".to_string()),
    ];
    assert_eq!(select_unseen(&mut seen, &cands), vec![0, 2]);
    assert_eq!(seen.len(), 4);
}

#[test]
fn footer_every_third_message() {
    assert!(footer_needed(3, AppName::ProbiotBot));
    assert!(!footer_needed(4, AppName::ProbiotBot));
    assert!(!footer_needed(3, AppName::W3AWeb));
    assert_eq!(append_footer_if_needed("hi", 6, AppName::ProbiotBot, "bye"), "hi\nbye");
    assert_eq!(append_footer_if_needed("hi", 6, AppName::ProbiotBot, ""), "hi");
    assert_eq!(append_footer_if_needed("hi", 0, AppName::ProbiotBot, "bye"), "hi");
}

#[test]
fn markdown_renders_to_html() {
    assert_eq!(markdown_to_html("# Hi"), "<h1>Hi</h1>\n");
}

#[test]
fn top_up_order_ids_are_fresh() {
    let a = blacksmith_core::heleket::new_topup_order_id("u1");
    let b = blacksmith_core::heleket::new_topup_order_id("u1");
    assert!(a.starts_with("topup_u1_"));
    assert_eq!(a.len(), "topup_u1_".len() + 36);
    assert_ne!(a, b);
    let id = blacksmith_core::unique_ids::new_unique_id();
    assert_eq!(id.len(), 36);
    assert_eq!(id.chars().nth(14), Some('4'));
    assert!(matches!(id.chars().nth(19), Some('8') | Some('9') | Some('a') | Some('b')));
    assert!(id.chars().enumerate().all(|(i, c)| if [8, 13, 18, 23].contains(&i) { c == '-' } else { c.is_ascii_hexdigit() && !c.is_ascii_uppercase() }));
}

#[test]
fn each_status_report_is_recorded() {
    let report = |status: &str, review: Option<&str>| JobStatusReport {
        status: status.to_string(),
        step: Some(4),
        step_description: None,
        progress_percentage: Some(40),
        error_message: None,
        processing_steps: Some(vec!["a".to_string(), "b".to_string()]),
        review_required_url: review.map(|r| r.to_string()),
    };
    let r = progress_record(report("processing", None), Some("https://signed".to_string()));
    assert_eq!(r.status, "processing");
    assert_eq!(r.step_description, "Processing step 4");
    assert_eq!(r.progress_percentage, Some(40));
    assert_eq!(r.review_url, None);
    assert_eq!(r.step, Some(4));
    assert_eq!(r.processing_steps, Some(vec!["a".to_string(), "b".to_string()]));
    assert!(!r.finished);
    let r = progress_record(report("failed", Some("s3://b/review")), Some("https://signed".to_string()));
    assert_eq!(r.review_url, Some("https://signed".to_string()));
    assert!(r.finished);
    let mut described = report("completed", None);
    described.step_description = Some("Merging audio".to_string());
    let r = progress_record(described, None);
    assert_eq!(r.step_description, "Merging audio");
    assert!(r.finished);
}
