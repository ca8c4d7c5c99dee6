use blacksmith_core::request_app::{
    contact_recipient, contact_reply, display_user_request_server, handle_user_action,
    prepare_search_results_for_llm, request_edit_prompt, request_saved,
    search_by_users_request_server, search_without_request, self_description_saved,
    send_user_profile_server, show_result_by_direction, store_search_results,
    update_search_results_order, Direction, FoundPoint, MenuStep, ProfileLookup, ServerResponse,
    UserProfile, UserStates,
};

fn reply_of(step: MenuStep) -> ServerResponse {
    match step {
        MenuStep::Reply(r) => r,
        _ => panic!("expected a reply"),
    }
}

fn labels(v: &[&str]) -> Vec<String> {
    v.iter().map(|s| s.to_string()).collect()
}

fn main_buttons() -> Vec<String> {
    labels(&["Управление профилем", "Управление запросом", "Выполнить поиск по запросу"])
}

fn request_buttons() -> Vec<String> {
    labels(&["Посмотреть запрос", "Изменить запрос", "Создать запрос", "Меню актуальности запроса"])
}

fn result_buttons() -> Vec<String> {
    labels(&["Предыдущий результат", "Contact!", "Следующий результат"])
}

fn on_main_menu() -> UserStates {
    let mut s = UserStates::default();
    s.main_menu = true;
    s
}

#[test]
fn anonymous_user_cannot_open_the_app() {
    let (state, step) = handle_user_action(None, "Mini-app initialized", "Unknown User");
    assert!(state.is_none());
    let r = reply_of(step);
    assert!(r.message.starts_with("Извините, но для использования приложения"));
    assert!(r.buttons.is_empty());
    assert!(r.action_buttons.is_empty());
    assert!(!r.can_input);
}

#[test]
fn initialization_shows_start_and_resets_every_flag() {
    let mut before = on_main_menu();
    before.request_search_result = true;
    before.current_result_index = Some(4);
    let (state, step) = handle_user_action(Some(before), "Mini-app initialized", "alice");
    let s = state.unwrap();
    let mut expected = UserStates::default();
    expected.start_window = true;
    assert_eq!(s, expected);
    let r = reply_of(step);
    assert_eq!(r.message, "Push the start button!");
    assert_eq!(r.buttons, labels(&["Start"]));
}

#[test]
fn start_button_opens_the_main_menu() {
    let mut start = UserStates::default();
    start.start_window = true;
    let (state, step) = handle_user_action(Some(start), "Start", "alice");
    let s = state.unwrap();
    assert!(s.main_menu && !s.start_window);
    let r = reply_of(step);
    assert_eq!(r.message, "Вы находитесь в главном меню.\nВыберите интересующий вас раздел:");
    assert_eq!(r.buttons, main_buttons());
    assert_eq!(r.action_buttons, labels(&["Выход"]));
}

#[test]
fn unknown_text_on_start_screen_asks_again() {
    let mut start = UserStates::default();
    start.start_window = true;
    let (state, step) = handle_user_action(Some(start), "hello", "alice");
    assert_eq!(state.unwrap(), start);
    let r = reply_of(step);
    assert_eq!(
        r.message,
        "Извините, я вас не понял.\nПожалуйста, выберите один из доступных вариантов кнопками."
    );
    assert_eq!(r.buttons, labels(&["Start"]));
}

#[test]
fn main_menu_leads_to_request_menu_and_back() {
    let (state, step) = handle_user_action(Some(on_main_menu()), "Управление запросом", "a");
    let s = state.unwrap();
    assert!(s.request_menu && !s.main_menu);
    assert_eq!(reply_of(step).buttons, request_buttons());
    let (state2, step2) = handle_user_action(Some(s), "Главное меню", "a");
    let s2 = state2.unwrap();
    assert!(s2.main_menu && !s2.request_menu);
    assert_eq!(reply_of(step2).buttons, main_buttons());
}

#[test]
fn main_menu_button_returns_from_a_search_result() {
    let mut s = UserStates::default();
    s.request_search_result = true;
    let (state, _) = handle_user_action(Some(s), "Главное меню", "a");
    let n = state.unwrap();
    assert!(n.main_menu && !n.request_search_result);
}

#[test]
fn user_without_state_gets_the_main_menu_flag() {
    let (state, step) = handle_user_action(None, "whatever", "a");
    let s = state.unwrap();
    assert!(s.main_menu);
    assert_eq!(
        reply_of(step).message,
        "Unknown state or no action matched. Please contact dev team: @spacewhaleblues"
    );
}

#[test]
fn search_and_profile_view_ask_for_outside_work() {
    let (state, step) = handle_user_action(Some(on_main_menu()), "Выполнить поиск по запросу", "a");
    let s = state.unwrap();
    assert!(s.request_search_result && !s.main_menu);
    assert!(matches!(step, MenuStep::RunSearch));
    let mut p = UserStates::default();
    p.profile_menu = true;
    let (_, step2) = handle_user_action(Some(p), "Посмотреть профиль", "a");
    assert!(matches!(step2, MenuStep::ShowProfile));
}

#[test]
fn typed_request_is_handed_over_for_storage() {
    let mut s = UserStates::default();
    s.creating_request_process = true;
    let (state, step) = handle_user_action(Some(s), "I look for a tennis partner", "a");
    assert_eq!(state.unwrap(), s);
    match step {
        MenuStep::SaveRequest(t) => assert_eq!(t, "I look for a tennis partner"),
        _ => panic!("expected SaveRequest"),
    }
}

#[test]
fn stored_request_leads_to_request_menu() {
    let mut s = UserStates::default();
    s.creating_request_process = true;
    let (n, r) = request_saved(s, false, true);
    assert!(n.request_menu && !n.creating_request_process);
    assert_eq!(r.message, "Отлично, сохранил!");
    let (n2, r2) = request_saved(s, false, false);
    assert!(n2.main_menu);
    assert!(r2.message.starts_with("Произошла ошибка при сохранении запроса."));
    let (n3, r3) = request_saved(s, true, true);
    assert!(n3.main_menu);
    assert_eq!(r3.message, "Отлично, отредактировал!");
}

#[test]
fn self_description_answer_and_profile_views() {
    let r = self_description_saved();
    assert_eq!(r.message, "Отлично, сохранил!");
    let found = send_user_profile_server(ProfileLookup::Found("Name: Bob".to_string()));
    assert_eq!(found.message, "Ваш профиль:\n```\nName: Bob\n```");
    let none = send_user_profile_server(ProfileLookup::NoDatabase);
    assert_eq!(none.message, "База данных не инициализирована.");
}

#[test]
fn request_display_and_edit_prompt() {
    let shown = display_user_request_server(Some("tennis"));
    assert_eq!(shown.message, "Ваш текущий запрос:\n>**tennis**.");
    let mut s = UserStates::default();
    s.request_menu = true;
    let (n, r) = request_edit_prompt(s, Some("tennis"));
    assert!(n.editing_request && !n.request_menu);
    assert!(r.message.starts_with("tennis\n\nСледующим шагом"));
    let (n2, r2) = request_edit_prompt(s, None);
    assert_eq!(n2, s);
    assert!(r2.message.starts_with("У вас нет сохраненного запроса."));
}

fn three_hits() -> Vec<FoundPoint> {
    vec![
        FoundPoint { text: Some("first".to_string()), username: Some("ann".to_string()) },
        FoundPoint { text: Some("second".to_string()), username: None },
        FoundPoint { text: None, username: Some("cid".to_string()) },
    ]
}

#[test]
fn stored_hits_are_numbered_from_one() {
    let results = store_search_results(&three_hits());
    assert_eq!(results.order, vec![1, 2, 3]);
    let idx: Vec<usize> = results.points.iter().map(|p| p.index).collect();
    assert_eq!(idx, vec![1, 2, 3]);
    assert_eq!(prepare_search_results_for_llm(Some(&results)), "1. first\n2. second");
    assert_eq!(prepare_search_results_for_llm(None), "");
}

#[test]
fn reordering_keeps_only_listed_hits() {
    let mut results = store_search_results(&three_hits());
    update_search_results_order(&mut results, vec![2, 1]);
    assert_eq!(results.order, vec![2, 1]);
    let idx: Vec<usize> = results.points.iter().map(|p| p.index).collect();
    assert_eq!(idx, vec![1, 2]);
}

#[test]
fn search_outcomes() {
    let mut s = UserStates::default();
    s.request_search_result = true;
    let results = store_search_results(&three_hits());
    let (n, r) = search_by_users_request_server(s, "All's good", Some(&results)).unwrap();
    assert_eq!(n.current_result_index, Some(1));
    assert!(r.message.contains(">**first**."));
    assert_eq!(r.buttons, result_buttons());
    let (n2, r2) = search_by_users_request_server(s, "No results found", None).unwrap();
    assert!(n2.request_menu && !n2.request_search_result);
    assert!(r2.message.starts_with("Извините, ничего подходящего"));
    assert!(search_by_users_request_server(s, "something else", None).is_none());
    let (n3, _) = search_without_request(s);
    assert!(n3.request_menu);
}

#[test]
fn next_then_previous_returns_to_the_same_result() {
    let mut s = UserStates::default();
    s.request_search_result = true;
    s.current_result_index = Some(1);
    let results = store_search_results(&three_hits());
    let (n, r) = show_result_by_direction(s, Some(&results), Direction::Next);
    assert_eq!(n.current_result_index, Some(2));
    assert!(r.message.starts_with("Следующий результат:\n>**second**."));
    let (back, r2) = show_result_by_direction(n, Some(&results), Direction::Previous);
    assert_eq!(back.current_result_index, Some(1));
    assert!(r2.message.starts_with("Предыдущий результат:\n>**first**."));
    let (same, r3) = show_result_by_direction(back, Some(&results), Direction::Previous);
    assert_eq!(same.current_result_index, Some(1));
    assert_eq!(r3.message, "Это первый результат в списке. Посмотрите следующие результаты");
}

#[test]
fn contact_finds_the_author() {
    let mut s = UserStates::default();
    s.request_search_result = true;
    s.current_result_index = Some(2);
    let results = store_search_results(&three_hits());
    assert_eq!(contact_recipient(s, Some(&results)), Some(String::new()));
    s.current_result_index = Some(1);
    assert_eq!(contact_recipient(s, Some(&results)), Some("ann".to_string()));
    s.current_result_index = Some(9);
    assert_eq!(contact_recipient(s, Some(&results)), None);
    let (n, r) = contact_reply(s, false);
    assert!(n.main_menu && !n.request_search_result);
    assert!(r.message.starts_with("Автор найденного запроса не имеет username"));
}

#[test]
fn new_profile_is_empty() {
    let p = UserProfile::new();
    assert!(p.registration_info.first_name.is_none());
    assert!(p.registration_info.age.is_none());
    assert!(p.additional_info.interests.is_none());
}
