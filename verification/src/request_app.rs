use vstd::prelude::*;
use crate::text::{
    chars_of, concat_chars, copy_str, str_eq, string_from_chars, join_with, join_chars, seq_view,
    decimal, u64_decimal, append_chars,
};

verus! {

/// Where a user of the request mini-app stands: one flag per screen, and the
/// search result being shown.
#[derive(Clone, Copy, Debug, PartialEq, Eq)]
pub struct UserStates {
    pub start_window: bool,
    pub main_menu: bool,
    pub profile_menu: bool,
    pub checking_profile: bool,
    pub editing_profile: bool,
    pub creating_profile: bool,
    pub creating_profile_process: bool,
    pub request_menu: bool,
    pub checking_request: bool,
    pub editing_request: bool,
    pub editing_request_process: bool,
    pub creating_request: bool,
    pub creating_request_process: bool,
    pub request_actuality_menu: bool,
    pub request_actuality: bool,
    pub request_search_result: bool,
    pub request_search_result_exploring: bool,
    pub current_result_index: Option<usize>,
}

/// Every flag down and no result shown.
pub open spec fn blank_states() -> UserStates {
    UserStates {
        start_window: false,
        main_menu: false,
        profile_menu: false,
        checking_profile: false,
        editing_profile: false,
        creating_profile: false,
        creating_profile_process: false,
        request_menu: false,
        checking_request: false,
        editing_request: false,
        editing_request_process: false,
        creating_request: false,
        creating_request_process: false,
        request_actuality_menu: false,
        request_actuality: false,
        request_search_result: false,
        request_search_result_exploring: false,
        current_result_index: None,
    }
}

impl Default for UserStates {
    fn default() -> (s: Self)
        ensures
            s == blank_states(),
    {
        UserStates {
            start_window: false,
            main_menu: false,
            profile_menu: false,
            checking_profile: false,
            editing_profile: false,
            creating_profile: false,
            creating_profile_process: false,
            request_menu: false,
            checking_request: false,
            editing_request: false,
            editing_request_process: false,
            creating_request: false,
            creating_request_process: false,
            request_actuality_menu: false,
            request_actuality: false,
            request_search_result: false,
            request_search_result_exploring: false,
            current_result_index: None,
        }
    }
}

/// The screen whose handler takes a user's next action: the first raised
/// flag in the order in which they are consulted.
#[derive(Clone, Copy, Debug, PartialEq, Eq, Structural)]
pub enum Screen {
    MainMenu,
    ProfileMenu,
    RequestMenu,
    CreatingRequest,
    CreatingRequestProcess,
    SearchResult,
    EditingRequest,
    EditingRequestProcess,
    StartWindow,
    CreatingProfile,
    CreatingProfileProcess,
    Unknown,
}

pub open spec fn screen_of(s: UserStates) -> Screen {
    if s.main_menu {
        Screen::MainMenu
    } else if s.profile_menu {
        Screen::ProfileMenu
    } else if s.request_menu {
        Screen::RequestMenu
    } else if s.creating_request {
        Screen::CreatingRequest
    } else if s.creating_request_process {
        Screen::CreatingRequestProcess
    } else if s.request_search_result {
        Screen::SearchResult
    } else if s.editing_request {
        Screen::EditingRequest
    } else if s.editing_request_process {
        Screen::EditingRequestProcess
    } else if s.start_window {
        Screen::StartWindow
    } else if s.creating_profile {
        Screen::CreatingProfile
    } else if s.creating_profile_process {
        Screen::CreatingProfileProcess
    } else {
        Screen::Unknown
    }
}

/// The screen that handles the next action of a user in state `s`.
pub fn active_screen(s: &UserStates) -> (res: Screen)
    ensures
        res == screen_of(*s),
{
    if s.main_menu {
        Screen::MainMenu
    } else if s.profile_menu {
        Screen::ProfileMenu
    } else if s.request_menu {
        Screen::RequestMenu
    } else if s.creating_request {
        Screen::CreatingRequest
    } else if s.creating_request_process {
        Screen::CreatingRequestProcess
    } else if s.request_search_result {
        Screen::SearchResult
    } else if s.editing_request {
        Screen::EditingRequest
    } else if s.editing_request_process {
        Screen::EditingRequestProcess
    } else if s.start_window {
        Screen::StartWindow
    } else if s.creating_profile {
        Screen::CreatingProfile
    } else if s.creating_profile_process {
        Screen::CreatingProfileProcess
    } else {
        Screen::Unknown
    }
}

/// What the mini-app shows after an action: a message, the choice buttons,
/// the navigation buttons, and whether free text may be typed.
pub struct ServerResponse {
    pub message: String,
    pub buttons: Vec<String>,
    pub action_buttons: Vec<String>,
    pub can_input: bool,
}

/// A response as text.
pub struct ResponseView {
    pub message: Seq<char>,
    pub buttons: Seq<Seq<char>>,
    pub action_buttons: Seq<Seq<char>>,
    pub can_input: bool,
}

/// The texts of a list of strings.
pub open spec fn texts(v: Seq<String>) -> Seq<Seq<char>> {
    v.map_values(|s: String| s@)
}

impl View for ServerResponse {
    type V = ResponseView;

    open spec fn view(&self) -> ResponseView {
        ResponseView {
            message: self.message@,
            buttons: texts(self.buttons@),
            action_buttons: texts(self.action_buttons@),
            can_input: self.can_input,
        }
    }
}

pub open spec fn response(
    message: Seq<char>,
    buttons: Seq<Seq<char>>,
    action_buttons: Seq<Seq<char>>,
    can_input: bool,
) -> ResponseView {
    ResponseView { message, buttons, action_buttons, can_input }
}

pub open spec fn main_menu_buttons() -> Seq<Seq<char>> {
    seq!["Управление профилем"@, "Управление запросом"@, "Выполнить поиск по запросу"@]
}

pub open spec fn profile_menu_buttons() -> Seq<Seq<char>> {
    seq!["Посмотреть профиль"@, "Изменить профиль"@, "Создать профиль"@]
}

pub open spec fn request_menu_buttons() -> Seq<Seq<char>> {
    seq![
        "Посмотреть запрос"@,
        "Изменить запрос"@,
        "Создать запрос"@,
        "Меню актуальности запроса"@,
    ]
}

pub open spec fn result_buttons() -> Seq<Seq<char>> {
    seq!["Предыдущий результат"@, "Contact!"@, "Следующий результат"@]
}

pub open spec fn back_and_main() -> Seq<Seq<char>> {
    seq!["Назад"@, "Главное меню"@]
}

pub open spec fn one_button(label: Seq<char>) -> Seq<Seq<char>> {
    seq![label]
}

fn buttons_of(labels: &[&str]) -> (res: Vec<String>)
    ensures
        texts(res@) == labels@.map_values(|s: &str| s@),
{
    let mut out: Vec<String> = Vec::new();
    let mut i: usize = 0;
    while i < labels.len()
        invariant
            i <= labels@.len(),
            texts(out@) =~= labels@.subrange(0, i as int).map_values(|s: &str| s@),
        decreases labels.len() - i,
    {
        let label = copy_str(labels[i]);
        let ghost before = out@;
        out.push(label);
        proof {
            assert(out@ =~= before.push(label));
            assert(texts(out@) =~= texts(before).push(labels@[i as int]@));
            assert(labels@.subrange(0, i + 1) =~= labels@.subrange(0, i as int).push(labels@[i as int]));
        }
        i = i + 1;
    }
    proof {
        assert(labels@.subrange(0, labels@.len() as int) =~= labels@);
    }
    out
}

fn main_menu_buttons_vec() -> (res: Vec<String>)
    ensures
        texts(res@) == main_menu_buttons(),
{
    let labels = ["Управление профилем", "Управление запросом", "Выполнить поиск по запросу"];
    let res = buttons_of(&labels);
    assert(texts(res@) =~= main_menu_buttons());
    res
}


fn profile_menu_buttons_vec() -> (res: Vec<String>)
    ensures
        texts(res@) == profile_menu_buttons(),
{
    let labels = ["Посмотреть профиль", "Изменить профиль", "Создать профиль"];
    let res = buttons_of(&labels);
    assert(texts(res@) =~= profile_menu_buttons());
    res
}

fn request_menu_buttons_vec() -> (res: Vec<String>)
    ensures
        texts(res@) == request_menu_buttons(),
{
    let labels = [
        "Посмотреть запрос",
        "Изменить запрос",
        "Создать запрос",
        "Меню актуальности запроса",
    ];
    let res = buttons_of(&labels);
    assert(texts(res@) =~= request_menu_buttons());
    res
}

fn result_buttons_vec() -> (res: Vec<String>)
    ensures
        texts(res@) == result_buttons(),
{
    let labels = ["Предыдущий результат", "Contact!", "Следующий результат"];
    let res = buttons_of(&labels);
    assert(texts(res@) =~= result_buttons());
    res
}

fn back_and_main_vec() -> (res: Vec<String>)
    ensures
        texts(res@) == back_and_main(),
{
    let labels = ["Назад", "Главное меню"];
    let res = buttons_of(&labels);
    assert(texts(res@) =~= back_and_main());
    res
}

fn one_button_vec(label: &str) -> (res: Vec<String>)
    ensures
        texts(res@) == one_button(label@),
{
    let mut res: Vec<String> = Vec::new();
    res.push(copy_str(label));
    assert(texts(res@) =~= one_button(label@));
    res
}

fn no_buttons() -> (res: Vec<String>)
    ensures
        texts(res@) == Seq::<Seq<char>>::empty(),
{
    let res: Vec<String> = Vec::new();
    assert(texts(res@) =~= Seq::<Seq<char>>::empty());
    res
}

fn reply(message: &str, buttons: Vec<String>, action_buttons: Vec<String>, can_input: bool) -> (res:
    ServerResponse)
    ensures
        res@ == response(message@, texts(buttons@), texts(action_buttons@), can_input),
{
    ServerResponse { message: copy_str(message), buttons, action_buttons, can_input }
}

pub open spec fn wrong_choice() -> Seq<char> {
    "Извините, я вас не понял.\nПожалуйста, выберите один из доступных вариантов кнопками."@
}

pub open spec fn listening() -> Seq<char> {
    "Отлично! Слушаю..."@
}

/// The main menu.
pub open spec fn main_menu_response() -> ResponseView {
    response(
        "Вы находитесь в главном меню.\nВыберите интересующий вас раздел:"@,
        main_menu_buttons(),
        one_button("Выход"@),
        false,
    )
}

/// The profile menu.
pub open spec fn profile_menu_response() -> ResponseView {
    response(
        "Вы находитесь в меню управления профилем.\nВыберите опцию:"@,
        profile_menu_buttons(),
        back_and_main(),
        false,
    )
}

/// The request menu.
pub open spec fn request_menu_response() -> ResponseView {
    response(
        "Вы находитесь в меню управления запросом.\nВыберите опцию:"@,
        request_menu_buttons(),
        back_and_main(),
        false,
    )
}

/// The main menu.
pub fn send_main_menu_response() -> (res: ServerResponse)
    ensures
        res@ == main_menu_response(),
{
    reply(
        "Вы находитесь в главном меню.\nВыберите интересующий вас раздел:",
        main_menu_buttons_vec(),
        one_button_vec("Выход"),
        false,
    )
}

/// The profile menu.
pub fn send_profile_menu_response() -> (res: ServerResponse)
    ensures
        res@ == profile_menu_response(),
{
    reply(
        "Вы находитесь в меню управления профилем.\nВыберите опцию:",
        profile_menu_buttons_vec(),
        back_and_main_vec(),
        false,
    )
}

/// The request menu.
pub fn send_request_menu_response() -> (res: ServerResponse)
    ensures
        res@ == request_menu_response(),
{
    reply(
        "Вы находитесь в меню управления запросом.\nВыберите опцию:",
        request_menu_buttons_vec(),
        back_and_main_vec(),
        false,
    )
}

/// Which neighbour of the shown search result to show next.
#[derive(Clone, Copy, Debug, PartialEq, Eq, Structural)]
pub enum Direction {
    Next,
    Previous,
}

/// What an action asks of the application: a reply that is ready, or a piece
/// of outside work whose outcome decides the reply.
pub enum MenuStep {
    Reply(ServerResponse),
    /// Show the stored profile of the user.
    ShowProfile,
    /// Show the stored search request of the user.
    ShowRequest,
    /// Look up the stored request, then offer to replace it.
    BeginRequestEdit,
    /// Search with the stored request.
    RunSearch,
    /// Store this self-description in the profile.
    SaveSelfDescription(String),
    /// Store this text as the new search request.
    SaveRequest(String),
    /// Store this text in place of the search request.
    SaveEditedRequest(String),
    /// Move to a neighbouring search result.
    ShowResult(Direction),
    /// Open a chat with the author of the shown result.
    ContactAuthor,
}

pub enum StepView {
    Reply(ResponseView),
    ShowProfile,
    ShowRequest,
    BeginRequestEdit,
    RunSearch,
    SaveSelfDescription(Seq<char>),
    SaveRequest(Seq<char>),
    SaveEditedRequest(Seq<char>),
    ShowResult(Direction),
    ContactAuthor,
}

impl View for MenuStep {
    type V = StepView;

    open spec fn view(&self) -> StepView {
        match self {
            MenuStep::Reply(r) => StepView::Reply(r@),
            MenuStep::ShowProfile => StepView::ShowProfile,
            MenuStep::ShowRequest => StepView::ShowRequest,
            MenuStep::BeginRequestEdit => StepView::BeginRequestEdit,
            MenuStep::RunSearch => StepView::RunSearch,
            MenuStep::SaveSelfDescription(t) => StepView::SaveSelfDescription(t@),
            MenuStep::SaveRequest(t) => StepView::SaveRequest(t@),
            MenuStep::SaveEditedRequest(t) => StepView::SaveEditedRequest(t@),
            MenuStep::ShowResult(d) => StepView::ShowResult(*d),
            MenuStep::ContactAuthor => StepView::ContactAuthor,
        }
    }
}


/// The buttons and commands that the screens react to; any other text is
/// `Other`.
#[derive(Clone, Copy, Debug, PartialEq, Eq, Structural)]
pub enum MenuAction {
    Start,
    ManageProfile,
    ManageRequest,
    Search,
    Exit,
    ViewProfile,
    EditProfile,
    CreateProfile,
    Back,
    ToMainMenu,
    ViewRequest,
    EditRequest,
    CreateRequest,
    Actuality,
    Go,
    Ready,
    PreviousResult,
    Contact,
    NextResult,
    Other,
}

pub open spec fn menu_action_of(a: Seq<char>) -> MenuAction {
    if a == "Start"@ {
        MenuAction::Start
    } else if a == "Управление профилем"@ {
        MenuAction::ManageProfile
    } else if a == "Управление запросом"@ {
        MenuAction::ManageRequest
    } else if a == "Выполнить поиск по запросу"@ {
        MenuAction::Search
    } else if a == "Выход"@ {
        MenuAction::Exit
    } else if a == "Посмотреть профиль"@ {
        MenuAction::ViewProfile
    } else if a == "Изменить профиль"@ {
        MenuAction::EditProfile
    } else if a == "Создать профиль"@ {
        MenuAction::CreateProfile
    } else if a == "Назад"@ {
        MenuAction::Back
    } else if a == "Главное меню"@ {
        MenuAction::ToMainMenu
    } else if a == "Посмотреть запрос"@ {
        MenuAction::ViewRequest
    } else if a == "Изменить запрос"@ {
        MenuAction::EditRequest
    } else if a == "Создать запрос"@ {
        MenuAction::CreateRequest
    } else if a == "Меню актуальности запроса"@ {
        MenuAction::Actuality
    } else if a == "Поехали!"@ {
        MenuAction::Go
    } else if a == "Готов!"@ {
        MenuAction::Ready
    } else if a == "Предыдущий результат"@ {
        MenuAction::PreviousResult
    } else if a == "Contact!"@ {
        MenuAction::Contact
    } else if a == "Следующий результат"@ {
        MenuAction::NextResult
    } else {
        MenuAction::Other
    }
}

/// Which button or command a text is.
pub fn classify_action(a: &str) -> (res: MenuAction)
    ensures
        res == menu_action_of(a@),
{
    if str_eq(a, "Start") {
        MenuAction::Start
    } else if str_eq(a, "Управление профилем") {
        MenuAction::ManageProfile
    } else if str_eq(a, "Управление запросом") {
        MenuAction::ManageRequest
    } else if str_eq(a, "Выполнить поиск по запросу") {
        MenuAction::Search
    } else if str_eq(a, "Выход") {
        MenuAction::Exit
    } else if str_eq(a, "Посмотреть профиль") {
        MenuAction::ViewProfile
    } else if str_eq(a, "Изменить профиль") {
        MenuAction::EditProfile
    } else if str_eq(a, "Создать профиль") {
        MenuAction::CreateProfile
    } else if str_eq(a, "Назад") {
        MenuAction::Back
    } else if str_eq(a, "Главное меню") {
        MenuAction::ToMainMenu
    } else if str_eq(a, "Посмотреть запрос") {
        MenuAction::ViewRequest
    } else if str_eq(a, "Изменить запрос") {
        MenuAction::EditRequest
    } else if str_eq(a, "Создать запрос") {
        MenuAction::CreateRequest
    } else if str_eq(a, "Меню актуальности запроса") {
        MenuAction::Actuality
    } else if str_eq(a, "Поехали!") {
        MenuAction::Go
    } else if str_eq(a, "Готов!") {
        MenuAction::Ready
    } else if str_eq(a, "Предыдущий результат") {
        MenuAction::PreviousResult
    } else if str_eq(a, "Contact!") {
        MenuAction::Contact
    } else if str_eq(a, "Следующий результат") {
        MenuAction::NextResult
    } else {
        MenuAction::Other
    }
}

/// The screen flags that the menus lower and raise.
#[derive(Clone, Copy, Debug, PartialEq, Eq, Structural)]
pub enum Flag {
    StartWindow,
    MainMenu,
    ProfileMenu,
    CreatingProfile,
    CreatingProfileProcess,
    RequestMenu,
    CreatingRequest,
    CreatingRequestProcess,
    EditingRequest,
    EditingRequestProcess,
    RequestSearchResult,
}

/// `s` with flag `f` set to `v`.
pub open spec fn with_flag(s: UserStates, f: Flag, v: bool) -> UserStates {
    match f {
        Flag::StartWindow => UserStates { start_window: v, ..s },
        Flag::MainMenu => UserStates { main_menu: v, ..s },
        Flag::ProfileMenu => UserStates { profile_menu: v, ..s },
        Flag::CreatingProfile => UserStates { creating_profile: v, ..s },
        Flag::CreatingProfileProcess => UserStates { creating_profile_process: v, ..s },
        Flag::RequestMenu => UserStates { request_menu: v, ..s },
        Flag::CreatingRequest => UserStates { creating_request: v, ..s },
        Flag::CreatingRequestProcess => UserStates { creating_request_process: v, ..s },
        Flag::EditingRequest => UserStates { editing_request: v, ..s },
        Flag::EditingRequestProcess => UserStates { editing_request_process: v, ..s },
        Flag::RequestSearchResult => UserStates { request_search_result: v, ..s },
    }
}

/// `s` with one flag set.
pub fn set_flag(s: UserStates, f: Flag, v: bool) -> (res: UserStates)
    ensures
        res == with_flag(s, f, v),
{
    match f {
        Flag::StartWindow => UserStates { start_window: v, ..s },
        Flag::MainMenu => UserStates { main_menu: v, ..s },
        Flag::ProfileMenu => UserStates { profile_menu: v, ..s },
        Flag::CreatingProfile => UserStates { creating_profile: v, ..s },
        Flag::CreatingProfileProcess => UserStates { creating_profile_process: v, ..s },
        Flag::RequestMenu => UserStates { request_menu: v, ..s },
        Flag::CreatingRequest => UserStates { creating_request: v, ..s },
        Flag::CreatingRequestProcess => UserStates { creating_request_process: v, ..s },
        Flag::EditingRequest => UserStates { editing_request: v, ..s },
        Flag::EditingRequestProcess => UserStates { editing_request_process: v, ..s },
        Flag::RequestSearchResult => UserStates { request_search_result: v, ..s },
    }
}

/// A move between screens: one flag lowered (if any), then one raised.
#[derive(Clone, Copy, Debug, PartialEq, Eq, Structural)]
pub struct Move {
    pub lower: Option<Flag>,
    pub raise: Flag,
}

pub open spec fn apply_move(s: UserStates, mv: Option<Move>) -> UserStates {
    match mv {
        None => s,
        Some(mv) => match mv.lower {
            None => with_flag(s, mv.raise, true),
            Some(l) => with_flag(with_flag(s, l, false), mv.raise, true),
        },
    }
}

/// `s` after a move.
pub fn make_move(s: UserStates, mv: Option<Move>) -> (res: UserStates)
    ensures
        res == apply_move(s, mv),
{
    match mv {
        None => s,
        Some(mv) => match mv.lower {
            None => set_flag(s, mv.raise, true),
            Some(l) => set_flag(set_flag(s, l, false), mv.raise, true),
        },
    }
}

pub open spec fn go(from: Flag, to: Flag) -> Option<Move> {
    Some(Move { lower: Some(from), raise: to })
}

/// The move that `m` makes on `screen`. The search result screen's moves and
/// what follows a stored text are decided once the outside work is done.
pub open spec fn screen_move(screen: Screen, m: MenuAction) -> Option<Move> {
    match screen {
        Screen::StartWindow => match m {
            MenuAction::Start => go(Flag::StartWindow, Flag::MainMenu),
            _ => None,
        },
        Screen::MainMenu => match m {
            MenuAction::ManageProfile => go(Flag::MainMenu, Flag::ProfileMenu),
            MenuAction::ManageRequest => go(Flag::MainMenu, Flag::RequestMenu),
            MenuAction::Search => go(Flag::MainMenu, Flag::RequestSearchResult),
            MenuAction::Exit => go(Flag::MainMenu, Flag::StartWindow),
            _ => None,
        },
        Screen::ProfileMenu => match m {
            MenuAction::CreateProfile => go(Flag::ProfileMenu, Flag::CreatingProfile),
            MenuAction::Back => go(Flag::ProfileMenu, Flag::MainMenu),
            MenuAction::ToMainMenu => go(Flag::ProfileMenu, Flag::MainMenu),
            _ => None,
        },
        Screen::RequestMenu => match m {
            MenuAction::CreateRequest => go(Flag::RequestMenu, Flag::CreatingRequest),
            MenuAction::Back => go(Flag::RequestMenu, Flag::MainMenu),
            MenuAction::ToMainMenu => go(Flag::RequestMenu, Flag::MainMenu),
            _ => None,
        },
        Screen::CreatingProfile => match m {
            MenuAction::Go => go(Flag::CreatingProfile, Flag::CreatingProfileProcess),
            MenuAction::Back => go(Flag::CreatingProfile, Flag::ProfileMenu),
            MenuAction::ToMainMenu => go(Flag::CreatingProfile, Flag::MainMenu),
            _ => None,
        },
        Screen::CreatingProfileProcess => match m {
            MenuAction::Back => go(Flag::CreatingRequestProcess, Flag::CreatingRequest),
            MenuAction::ToMainMenu => go(Flag::CreatingRequestProcess, Flag::MainMenu),
            _ => go(Flag::CreatingRequestProcess, Flag::ProfileMenu),
        },
        Screen::CreatingRequest => match m {
            MenuAction::Ready => go(Flag::CreatingRequest, Flag::CreatingRequestProcess),
            MenuAction::Back => go(Flag::CreatingRequest, Flag::RequestMenu),
            MenuAction::ToMainMenu => go(Flag::CreatingRequest, Flag::MainMenu),
            _ => None,
        },
        Screen::CreatingRequestProcess => match m {
            MenuAction::Back => go(Flag::CreatingRequestProcess, Flag::CreatingRequest),
            MenuAction::ToMainMenu => go(Flag::CreatingRequestProcess, Flag::MainMenu),
            _ => None,
        },
        Screen::SearchResult => match m {
            MenuAction::ToMainMenu => go(Flag::RequestSearchResult, Flag::MainMenu),
            _ => None,
        },
        Screen::EditingRequest => match m {
            MenuAction::Ready => go(Flag::EditingRequest, Flag::EditingRequestProcess),
            MenuAction::Back => go(Flag::EditingRequest, Flag::RequestMenu),
            MenuAction::ToMainMenu => go(Flag::EditingRequest, Flag::MainMenu),
            _ => None,
        },
        Screen::EditingRequestProcess => match m {
            MenuAction::Back => go(Flag::EditingRequestProcess, Flag::EditingRequest),
            MenuAction::ToMainMenu => go(Flag::EditingRequestProcess, Flag::MainMenu),
            _ => None,
        },
        Screen::Unknown => Some(Move { lower: None, raise: Flag::MainMenu }),
    }
}

fn go_exec(from: Flag, to: Flag) -> (res: Option<Move>)
    ensures
        res == go(from, to),
{
    Some(Move { lower: Some(from), raise: to })
}

/// The move that `m` makes on `screen`.
pub fn screen_move_exec(screen: Screen, m: MenuAction) -> (res: Option<Move>)
    ensures
        res == screen_move(screen, m),
{
    match screen {
        Screen::StartWindow => match m {
            MenuAction::Start => go_exec(Flag::StartWindow, Flag::MainMenu),
            _ => None,
        },
        Screen::MainMenu => match m {
            MenuAction::ManageProfile => go_exec(Flag::MainMenu, Flag::ProfileMenu),
            MenuAction::ManageRequest => go_exec(Flag::MainMenu, Flag::RequestMenu),
            MenuAction::Search => go_exec(Flag::MainMenu, Flag::RequestSearchResult),
            MenuAction::Exit => go_exec(Flag::MainMenu, Flag::StartWindow),
            _ => None,
        },
        Screen::ProfileMenu => match m {
            MenuAction::CreateProfile => go_exec(Flag::ProfileMenu, Flag::CreatingProfile),
            MenuAction::Back => go_exec(Flag::ProfileMenu, Flag::MainMenu),
            MenuAction::ToMainMenu => go_exec(Flag::ProfileMenu, Flag::MainMenu),
            _ => None,
        },
        Screen::RequestMenu => match m {
            MenuAction::CreateRequest => go_exec(Flag::RequestMenu, Flag::CreatingRequest),
            MenuAction::Back => go_exec(Flag::RequestMenu, Flag::MainMenu),
            MenuAction::ToMainMenu => go_exec(Flag::RequestMenu, Flag::MainMenu),
            _ => None,
        },
        Screen::CreatingProfile => match m {
            MenuAction::Go => go_exec(Flag::CreatingProfile, Flag::CreatingProfileProcess),
            MenuAction::Back => go_exec(Flag::CreatingProfile, Flag::ProfileMenu),
            MenuAction::ToMainMenu => go_exec(Flag::CreatingProfile, Flag::MainMenu),
            _ => None,
        },
        Screen::CreatingProfileProcess => match m {
            MenuAction::Back => go_exec(Flag::CreatingRequestProcess, Flag::CreatingRequest),
            MenuAction::ToMainMenu => go_exec(Flag::CreatingRequestProcess, Flag::MainMenu),
            _ => go_exec(Flag::CreatingRequestProcess, Flag::ProfileMenu),
        },
        Screen::CreatingRequest => match m {
            MenuAction::Ready => go_exec(Flag::CreatingRequest, Flag::CreatingRequestProcess),
            MenuAction::Back => go_exec(Flag::CreatingRequest, Flag::RequestMenu),
            MenuAction::ToMainMenu => go_exec(Flag::CreatingRequest, Flag::MainMenu),
            _ => None,
        },
        Screen::CreatingRequestProcess => match m {
            MenuAction::Back => go_exec(Flag::CreatingRequestProcess, Flag::CreatingRequest),
            MenuAction::ToMainMenu => go_exec(Flag::CreatingRequestProcess, Flag::MainMenu),
            _ => None,
        },
        Screen::SearchResult => match m {
            MenuAction::ToMainMenu => go_exec(Flag::RequestSearchResult, Flag::MainMenu),
            _ => None,
        },
        Screen::EditingRequest => match m {
            MenuAction::Ready => go_exec(Flag::EditingRequest, Flag::EditingRequestProcess),
            MenuAction::Back => go_exec(Flag::EditingRequest, Flag::RequestMenu),
            MenuAction::ToMainMenu => go_exec(Flag::EditingRequest, Flag::MainMenu),
            _ => None,
        },
        Screen::EditingRequestProcess => match m {
            MenuAction::Back => go_exec(Flag::EditingRequestProcess, Flag::EditingRequest),
            MenuAction::ToMainMenu => go_exec(Flag::EditingRequestProcess, Flag::MainMenu),
            _ => None,
        },
        Screen::Unknown => Some(Move { lower: None, raise: Flag::MainMenu }),
    }
}


pub open spec fn say(r: ResponseView) -> StepView {
    StepView::Reply(r)
}

pub open spec fn no_labels() -> Seq<Seq<char>> {
    Seq::empty()
}

pub open spec fn start_window_reply(m: MenuAction) -> StepView {
    match m {
        MenuAction::Start => say(main_menu_response()),
        _ => say(response(wrong_choice(), one_button("Start"@), no_labels(), false)),
    }
}

pub open spec fn main_menu_reply(m: MenuAction) -> StepView {
    match m {
        MenuAction::ManageProfile => say(profile_menu_response()),
        MenuAction::ManageRequest => say(request_menu_response()),
        MenuAction::Search => StepView::RunSearch,
        MenuAction::Exit => say(
            response("Bye!\nYou are always welcome here"@, one_button("Start"@), no_labels(), false),
        ),
        _ => say(response(wrong_choice(), main_menu_buttons(), one_button("Выход"@), false)),
    }
}

pub open spec fn profile_menu_reply(m: MenuAction) -> StepView {
    match m {
        MenuAction::ViewProfile => StepView::ShowProfile,
        MenuAction::EditProfile => say(
            response(
                "Эта функция пока недоступна.\nВыберите другую опцию:"@,
                profile_menu_buttons(),
                back_and_main(),
                false,
            ),
        ),
        MenuAction::CreateProfile => say(
            response(
                "Следующим шагом вам нужно будет рассказать вкратце о себе, готовы?"@,
                one_button("Поехали!"@),
                back_and_main(),
                false,
            ),
        ),
        MenuAction::Back => say(main_menu_response()),
        MenuAction::ToMainMenu => say(main_menu_response()),
        _ => say(response(wrong_choice(), profile_menu_buttons(), back_and_main(), false)),
    }
}

pub open spec fn request_menu_reply(m: MenuAction) -> StepView {
    match m {
        MenuAction::ViewRequest => StepView::ShowRequest,
        MenuAction::EditRequest => StepView::BeginRequestEdit,
        MenuAction::CreateRequest => say(
            response(
                "Следующим шагом вам нужно будет рассказать о том что или кого вы ищете, готовы?"@,
                one_button("Готов!"@),
                back_and_main(),
                false,
            ),
        ),
        MenuAction::Actuality => say(
            response(
                "Эта функция пока недоступна, пожалуйста, воспользуйтесь другой опцией"@,
                request_menu_buttons(),
                back_and_main(),
                false,
            ),
        ),
        MenuAction::Back => say(main_menu_response()),
        MenuAction::ToMainMenu => say(main_menu_response()),
        _ => say(response(wrong_choice(), request_menu_buttons(), back_and_main(), false)),
    }
}

pub open spec fn creating_profile_reply(m: MenuAction) -> StepView {
    match m {
        MenuAction::Go => say(response(listening(), no_labels(), back_and_main(), true)),
        MenuAction::Back => say(profile_menu_response()),
        MenuAction::ToMainMenu => say(main_menu_response()),
        _ => say(response(wrong_choice(), one_button("Поехали!"@), back_and_main(), false)),
    }
}

pub open spec fn creating_profile_process_reply(m: MenuAction, a: Seq<char>) -> StepView {
    match m {
        MenuAction::Back => say(
            response(
                "Вам нужно рассказать вкратце о себе, готовы?"@,
                one_button("Поехали!"@),
                back_and_main(),
                false,
            ),
        ),
        MenuAction::ToMainMenu => say(main_menu_response()),
        _ => StepView::SaveSelfDescription(a),
    }
}

pub open spec fn creating_request_reply(m: MenuAction) -> StepView {
    match m {
        MenuAction::Ready => say(response(listening(), no_labels(), back_and_main(), true)),
        MenuAction::Back => say(request_menu_response()),
        MenuAction::ToMainMenu => say(main_menu_response()),
        _ => say(response(wrong_choice(), one_button("Готов!"@), back_and_main(), false)),
    }
}

pub open spec fn creating_request_process_reply(m: MenuAction, a: Seq<char>) -> StepView {
    match m {
        MenuAction::Back => say(
            response(
                "Вам нужно рассказать о том, что или кого вы ищите, готовы?"@,
                one_button("Готов!"@),
                back_and_main(),
                false,
            ),
        ),
        MenuAction::ToMainMenu => say(main_menu_response()),
        _ => StepView::SaveRequest(a),
    }
}

pub open spec fn search_result_reply(m: MenuAction) -> StepView {
    match m {
        MenuAction::PreviousResult => StepView::ShowResult(Direction::Previous),
        MenuAction::Contact => StepView::ContactAuthor,
        MenuAction::NextResult => StepView::ShowResult(Direction::Next),
        MenuAction::ToMainMenu => say(main_menu_response()),
        _ => say(
            response(
                "Извините, я вас не понял.\nПожалуйста, выберите один из доступных вариантов кнопками"@,
                result_buttons(),
                back_and_main(),
                false,
            ),
        ),
    }
}

pub open spec fn editing_request_reply(m: MenuAction) -> StepView {
    match m {
        MenuAction::Ready => say(response(listening(), no_labels(), back_and_main(), true)),
        MenuAction::Back => say(request_menu_response()),
        MenuAction::ToMainMenu => say(main_menu_response()),
        _ => say(response(wrong_choice(), one_button("Готов!"@), back_and_main(), false)),
    }
}

pub open spec fn editing_request_process_reply(m: MenuAction, a: Seq<char>) -> StepView {
    match m {
        MenuAction::Back => say(
            response(
                "Вам нужно рассказать о том что или кого вы ищете, чтобы изменить запрос, готовы?"@,
                one_button("Готов!"@),
                back_and_main(),
                true,
            ),
        ),
        MenuAction::ToMainMenu => say(main_menu_response()),
        _ => StepView::SaveEditedRequest(a),
    }
}

pub open spec fn unknown_state_reply() -> StepView {
    say(
        response(
            "Unknown state or no action matched. Please contact dev team: @spacewhaleblues"@,
            no_labels(),
            no_labels(),
            false,
        ),
    )
}

/// What the handler of `screen` answers to `m`, the action's text being `a`.
pub open spec fn screen_reply(screen: Screen, m: MenuAction, a: Seq<char>) -> StepView {
    match screen {
        Screen::StartWindow => start_window_reply(m),
        Screen::MainMenu => main_menu_reply(m),
        Screen::ProfileMenu => profile_menu_reply(m),
        Screen::RequestMenu => request_menu_reply(m),
        Screen::CreatingProfile => creating_profile_reply(m),
        Screen::CreatingProfileProcess => creating_profile_process_reply(m, a),
        Screen::CreatingRequest => creating_request_reply(m),
        Screen::CreatingRequestProcess => creating_request_process_reply(m, a),
        Screen::SearchResult => search_result_reply(m),
        Screen::EditingRequest => editing_request_reply(m),
        Screen::EditingRequestProcess => editing_request_process_reply(m, a),
        Screen::Unknown => unknown_state_reply(),
    }
}

fn say_exec(message: &str, buttons: Vec<String>, action_buttons: Vec<String>, can_input: bool) -> (res:
    MenuStep)
    ensures
        res@ == say(response(message@, texts(buttons@), texts(action_buttons@), can_input)),
{
    MenuStep::Reply(reply(message, buttons, action_buttons, can_input))
}

fn wrong_choice_exec(buttons: Vec<String>, action_buttons: Vec<String>) -> (res: MenuStep)
    ensures
        res@ == say(response(wrong_choice(), texts(buttons@), texts(action_buttons@), false)),
{
    say_exec(
        "Извините, я вас не понял.\nПожалуйста, выберите один из доступных вариантов кнопками.",
        buttons,
        action_buttons,
        false,
    )
}

fn listening_exec() -> (res: MenuStep)
    ensures
        res@ == say(response(listening(), no_labels(), back_and_main(), true)),
{
    say_exec("Отлично! Слушаю...", no_buttons(), back_and_main_vec(), true)
}

fn main_menu_step() -> (res: MenuStep)
    ensures
        res@ == say(main_menu_response()),
{
    MenuStep::Reply(send_main_menu_response())
}

/// The start screen's answer.
pub fn handle_start_window(m: MenuAction) -> (res: MenuStep)
    ensures
        res@ == start_window_reply(m),
{
    match m {
        MenuAction::Start => main_menu_step(),
        _ => wrong_choice_exec(one_button_vec("Start"), no_buttons()),
    }
}

/// The main menu's answer.
pub fn handle_main_menu(m: MenuAction) -> (res: MenuStep)
    ensures
        res@ == main_menu_reply(m),
{
    match m {
        MenuAction::ManageProfile => MenuStep::Reply(send_profile_menu_response()),
        MenuAction::ManageRequest => MenuStep::Reply(send_request_menu_response()),
        MenuAction::Search => MenuStep::RunSearch,
        MenuAction::Exit => say_exec(
            "Bye!\nYou are always welcome here",
            one_button_vec("Start"),
            no_buttons(),
            false,
        ),
        _ => wrong_choice_exec(main_menu_buttons_vec(), one_button_vec("Выход")),
    }
}

/// The profile menu's answer.
pub fn handle_state_profile_menu(m: MenuAction) -> (res: MenuStep)
    ensures
        res@ == profile_menu_reply(m),
{
    match m {
        MenuAction::ViewProfile => MenuStep::ShowProfile,
        MenuAction::EditProfile => say_exec(
            "Эта функция пока недоступна.\nВыберите другую опцию:",
            profile_menu_buttons_vec(),
            back_and_main_vec(),
            false,
        ),
        MenuAction::CreateProfile => say_exec(
            "Следующим шагом вам нужно будет рассказать вкратце о себе, готовы?",
            one_button_vec("Поехали!"),
            back_and_main_vec(),
            false,
        ),
        MenuAction::Back => main_menu_step(),
        MenuAction::ToMainMenu => main_menu_step(),
        _ => wrong_choice_exec(profile_menu_buttons_vec(), back_and_main_vec()),
    }
}

/// The request menu's answer.
pub fn handle_state_request_menu(m: MenuAction) -> (res: MenuStep)
    ensures
        res@ == request_menu_reply(m),
{
    match m {
        MenuAction::ViewRequest => MenuStep::ShowRequest,
        MenuAction::EditRequest => MenuStep::BeginRequestEdit,
        MenuAction::CreateRequest => say_exec(
            "Следующим шагом вам нужно будет рассказать о том что или кого вы ищете, готовы?",
            one_button_vec("Готов!"),
            back_and_main_vec(),
            false,
        ),
        MenuAction::Actuality => say_exec(
            "Эта функция пока недоступна, пожалуйста, воспользуйтесь другой опцией",
            request_menu_buttons_vec(),
            back_and_main_vec(),
            false,
        ),
        MenuAction::Back => main_menu_step(),
        MenuAction::ToMainMenu => main_menu_step(),
        _ => wrong_choice_exec(request_menu_buttons_vec(), back_and_main_vec()),
    }
}

/// The answer of the screen before a self-description is typed.
pub fn handle_state_creating_profile_menu(m: MenuAction) -> (res: MenuStep)
    ensures
        res@ == creating_profile_reply(m),
{
    match m {
        MenuAction::Go => listening_exec(),
        MenuAction::Back => MenuStep::Reply(send_profile_menu_response()),
        MenuAction::ToMainMenu => main_menu_step(),
        _ => wrong_choice_exec(one_button_vec("Поехали!"), back_and_main_vec()),
    }
}

/// The answer of the screen that takes a self-description.
pub fn handle_state_creating_profile_process(m: MenuAction, action: &str) -> (res: MenuStep)
    ensures
        res@ == creating_profile_process_reply(m, action@),
{
    match m {
        MenuAction::Back => say_exec(
            "Вам нужно рассказать вкратце о себе, готовы?",
            one_button_vec("Поехали!"),
            back_and_main_vec(),
            false,
        ),
        MenuAction::ToMainMenu => main_menu_step(),
        _ => MenuStep::SaveSelfDescription(copy_str(action)),
    }
}

/// The answer of the screen before a request is typed.
pub fn handle_state_creating_request_menu(m: MenuAction) -> (res: MenuStep)
    ensures
        res@ == creating_request_reply(m),
{
    match m {
        MenuAction::Ready => listening_exec(),
        MenuAction::Back => MenuStep::Reply(send_request_menu_response()),
        MenuAction::ToMainMenu => main_menu_step(),
        _ => wrong_choice_exec(one_button_vec("Готов!"), back_and_main_vec()),
    }
}

/// The answer of the screen that takes a new request.
pub fn handle_state_creating_request_process(m: MenuAction, action: &str) -> (res: MenuStep)
    ensures
        res@ == creating_request_process_reply(m, action@),
{
    match m {
        MenuAction::Back => say_exec(
            "Вам нужно рассказать о том, что или кого вы ищите, готовы?",
            one_button_vec("Готов!"),
            back_and_main_vec(),
            false,
        ),
        MenuAction::ToMainMenu => main_menu_step(),
        _ => MenuStep::SaveRequest(copy_str(action)),
    }
}

/// The answer of the search result screen.
pub fn handle_state_request_search_result(m: MenuAction) -> (res: MenuStep)
    ensures
        res@ == search_result_reply(m),
{
    match m {
        MenuAction::PreviousResult => MenuStep::ShowResult(Direction::Previous),
        MenuAction::Contact => MenuStep::ContactAuthor,
        MenuAction::NextResult => MenuStep::ShowResult(Direction::Next),
        MenuAction::ToMainMenu => main_menu_step(),
        _ => say_exec(
            "Извините, я вас не понял.\nПожалуйста, выберите один из доступных вариантов кнопками",
            result_buttons_vec(),
            back_and_main_vec(),
            false,
        ),
    }
}

/// The answer of the screen before a replacement request is typed.
pub fn handle_state_editing_request(m: MenuAction) -> (res: MenuStep)
    ensures
        res@ == editing_request_reply(m),
{
    match m {
        MenuAction::Ready => listening_exec(),
        MenuAction::Back => MenuStep::Reply(send_request_menu_response()),
        MenuAction::ToMainMenu => main_menu_step(),
        _ => wrong_choice_exec(one_button_vec("Готов!"), back_and_main_vec()),
    }
}

/// The answer of the screen that takes a replacement request.
pub fn handle_state_editing_request_process(m: MenuAction, action: &str) -> (res: MenuStep)
    ensures
        res@ == editing_request_process_reply(m, action@),
{
    match m {
        MenuAction::Back => say_exec(
            "Вам нужно рассказать о том что или кого вы ищете, чтобы изменить запрос, готовы?",
            one_button_vec("Готов!"),
            back_and_main_vec(),
            true,
        ),
        MenuAction::ToMainMenu => main_menu_step(),
        _ => MenuStep::SaveEditedRequest(copy_str(action)),
    }
}

fn unknown_state_step() -> (res: MenuStep)
    ensures
        res@ == unknown_state_reply(),
{
    say_exec(
        "Unknown state or no action matched. Please contact dev team: @spacewhaleblues",
        no_buttons(),
        no_buttons(),
        false,
    )
}

/// What the handler of `screen` answers to `action`, classified as `m`.
pub fn screen_answer(screen: Screen, m: MenuAction, action: &str) -> (res: MenuStep)
    ensures
        res@ == screen_reply(screen, m, action@),
{
    match screen {
        Screen::StartWindow => handle_start_window(m),
        Screen::MainMenu => handle_main_menu(m),
        Screen::ProfileMenu => handle_state_profile_menu(m),
        Screen::RequestMenu => handle_state_request_menu(m),
        Screen::CreatingProfile => handle_state_creating_profile_menu(m),
        Screen::CreatingProfileProcess => handle_state_creating_profile_process(m, action),
        Screen::CreatingRequest => handle_state_creating_request_menu(m),
        Screen::CreatingRequestProcess => handle_state_creating_request_process(m, action),
        Screen::SearchResult => handle_state_request_search_result(m),
        Screen::EditingRequest => handle_state_editing_request(m),
        Screen::EditingRequestProcess => handle_state_editing_request_process(m, action),
        Screen::Unknown => unknown_state_step(),
    }
}


/// One search hit as it comes from the vector store: its text and its
/// author's username, where the payload holds them.
pub struct FoundPoint {
    pub text: Option<String>,
    pub username: Option<String>,
}

/// A stored search hit under its number.
pub struct SearchEntry {
    pub index: usize,
    pub text: Option<String>,
    pub username: Option<String>,
}

/// A user's search hits, kept by number in ascending order, and the order in
/// which they are shown.
pub struct UserSearchResults {
    pub points: Vec<SearchEntry>,
    pub order: Vec<usize>,
}

pub open spec fn sorted_by_index(points: Seq<SearchEntry>) -> bool {
    forall|i: int, j: int| 0 <= i < j < points.len() ==> points[i].index < points[j].index
}

impl UserSearchResults {
    /// Numbers are unique and ascending, as in a map keyed by them.
    pub open spec fn wf(&self) -> bool {
        sorted_by_index(self.points@)
    }
}

pub fn clone_text(o: &Option<String>) -> (res: Option<String>)
    ensures
        res == *o,
{
    match o {
        Some(t) => Some(t.clone()),
        None => None,
    }
}

/// Numbers the hits from 1 in the order found, and shows them in that order.
pub fn store_search_results(found: &Vec<FoundPoint>) -> (res: UserSearchResults)
    requires
        found.len() < usize::MAX,
    ensures
        res.wf(),
        res.points@.len() == found@.len(),
        res.order@.len() == found@.len(),
        forall|i: int|
            0 <= i < found@.len() ==> {
                &&& #[trigger] res.points@[i].index == i + 1
                &&& res.points@[i].text == found@[i].text
                &&& res.points@[i].username == found@[i].username
                &&& res.order@[i] == i + 1
            },
{
    let mut points: Vec<SearchEntry> = Vec::new();
    let mut order: Vec<usize> = Vec::new();
    let mut i: usize = 0;
    while i < found.len()
        invariant
            i <= found@.len(),
            found@.len() < usize::MAX,
            points@.len() == i,
            order@.len() == i,
            forall|k: int|
                0 <= k < i ==> {
                    &&& #[trigger] points@[k].index == k + 1
                    &&& points@[k].text == found@[k].text
                    &&& points@[k].username == found@[k].username
                    &&& order@[k] == k + 1
                },
        decreases found.len() - i,
    {
        let entry = SearchEntry {
            index: i + 1,
            text: clone_text(&found[i].text),
            username: clone_text(&found[i].username),
        };
        points.push(entry);
        order.push(i + 1);
        i = i + 1;
    }
    let res = UserSearchResults { points, order };
    assert(sorted_by_index(res.points@)) by {
        assert forall|a: int, b: int| 0 <= a < b < res.points@.len() implies res.points@[a].index
            < res.points@[b].index by {
            assert(res.points@[a].index == a + 1);
            assert(res.points@[b].index == b + 1);
        }
    }
    res
}

/// Where the hit numbered `index` stands among `points`, if it is there.
pub open spec fn entry_position(points: Seq<SearchEntry>, index: usize) -> Option<int>
    decreases points.len(),
{
    if points.len() == 0 {
        None
    } else if points.last().index == index {
        Some(points.len() - 1)
    } else {
        entry_position(points.drop_last(), index)
    }
}

pub proof fn lemma_entry_position(points: Seq<SearchEntry>, index: usize)
    ensures
        match entry_position(points, index) {
            Some(p) => 0 <= p < points.len() && points[p].index == index,
            None => forall|k: int| 0 <= k < points.len() ==> points[k].index != index,
        },
    decreases points.len(),
{
    if points.len() > 0 && points.last().index != index {
        lemma_entry_position(points.drop_last(), index);
        assert forall|k: int| 0 <= k < points.len() - 1 implies points[k] == points.drop_last()[k] by {}
    }
}

/// The position of the hit numbered `index`.
pub fn find_entry(points: &Vec<SearchEntry>, index: usize) -> (res: Option<usize>)
    ensures
        match res {
            Some(p) => entry_position(points@, index) == Some(p as int),
            None => entry_position(points@, index) is None,
        },
{
    let mut k: usize = points.len();
    assert(points@.subrange(0, k as int) =~= points@);
    while k > 0
        invariant
            k <= points@.len(),
            entry_position(points@, index) == entry_position(points@.subrange(0, k as int), index),
        decreases k,
    {
        let ghost pre = points@.subrange(0, k as int);
        if points[k - 1].index == index {
            assert(pre.last() == points@[k - 1]);
            return Some(k - 1);
        }
        assert(pre.drop_last() =~= points@.subrange(0, k - 1));
        k = k - 1;
    }
    assert(points@.subrange(0, 0) =~= Seq::<SearchEntry>::empty());
    None
}


/// The hits whose numbers `order` lists, in their stored order.
pub open spec fn keep_listed(points: Seq<SearchEntry>, order: Seq<usize>) -> Seq<SearchEntry>
    decreases points.len(),
{
    if points.len() == 0 {
        Seq::empty()
    } else if order.contains(points.last().index) {
        keep_listed(points.drop_last(), order).push(points.last())
    } else {
        keep_listed(points.drop_last(), order)
    }
}

proof fn lemma_keep_listed_bound(points: Seq<SearchEntry>, order: Seq<usize>, b: int)
    requires
        forall|k: int| 0 <= k < points.len() ==> points[k].index < b,
    ensures
        forall|k: int|
            0 <= k < keep_listed(points, order).len() ==> keep_listed(points, order)[k].index < b,
    decreases points.len(),
{
    if points.len() > 0 {
        let init = points.drop_last();
        assert forall|k: int| 0 <= k < init.len() implies init[k].index < b by {
            assert(init[k] == points[k]);
        }
        lemma_keep_listed_bound(init, order, b);
    }
}

proof fn lemma_keep_listed_sorted(points: Seq<SearchEntry>, order: Seq<usize>)
    requires
        sorted_by_index(points),
    ensures
        sorted_by_index(keep_listed(points, order)),
    decreases points.len(),
{
    if points.len() > 0 {
        let init = points.drop_last();
        assert(sorted_by_index(init)) by {
            assert forall|i: int, j: int| 0 <= i < j < init.len() implies init[i].index
                < init[j].index by {
                assert(init[i] == points[i] && init[j] == points[j]);
            }
        }
        lemma_keep_listed_sorted(init, order);
        assert forall|k: int| 0 <= k < init.len() implies init[k].index < points.last().index by {
            assert(init[k] == points[k]);
        }
        lemma_keep_listed_bound(init, order, points.last().index as int);
    }
}

fn copy_entry(e: &SearchEntry) -> (res: SearchEntry)
    ensures
        res == *e,
{
    SearchEntry { index: e.index, text: clone_text(&e.text), username: clone_text(&e.username) }
}

fn order_lists(order: &Vec<usize>, index: usize) -> (res: bool)
    ensures
        res == order@.contains(index),
{
    let mut k: usize = 0;
    while k < order.len()
        invariant
            k <= order@.len(),
            forall|j: int| 0 <= j < k ==> order@[j] != index,
        decreases order.len() - k,
    {
        if order[k] == index {
            return true;
        }
        k = k + 1;
    }
    false
}

/// Takes the order chosen for the hits: the hits it lists are kept, in
/// ascending number, and shown in that order.
pub fn update_search_results_order(results: &mut UserSearchResults, new_order: Vec<usize>)
    requires
        old(results).wf(),
    ensures
        final(results).wf(),
        final(results).order@ == new_order@,
        final(results).points@ == keep_listed(old(results).points@, new_order@),
{
    let mut kept: Vec<SearchEntry> = Vec::new();
    let mut i: usize = 0;
    while i < results.points.len()
        invariant
            i <= results.points@.len(),
            kept@ == keep_listed(results.points@.take(i as int), new_order@),
        decreases results.points.len() - i,
    {
        let ghost pre = results.points@.take(i as int);
        if order_lists(&new_order, results.points[i].index) {
            kept.push(copy_entry(&results.points[i]));
        }
        i = i + 1;
        proof {
            let cur = results.points@.take(i as int);
            assert(cur.drop_last() =~= pre);
            assert(cur.last() == results.points@[i - 1]);
        }
    }
    proof {
        assert(results.points@.take(results.points@.len() as int) =~= results.points@);
        lemma_keep_listed_sorted(results.points@, new_order@);
    }
    results.points = kept;
    results.order = new_order;
}

/// The line that presents a hit to the ranking model, where it has a text.
pub open spec fn llm_lines(points: Seq<SearchEntry>) -> Seq<Seq<char>>
    decreases points.len(),
{
    if points.len() == 0 {
        Seq::empty()
    } else {
        match points.last().text {
            Some(t) => llm_lines(points.drop_last()).push(
                decimal(points.last().index as nat) + ". "@ + t@,
            ),
            None => llm_lines(points.drop_last()),
        }
    }
}

/// The hits as numbered lines for the ranking model; empty without hits.
pub fn prepare_search_results_for_llm(results: Option<&UserSearchResults>) -> (res: String)
    ensures
        res@ == match results {
            Some(r) => join_with(llm_lines(r.points@), "\n"@),
            None => Seq::empty(),
        },
{
    match results {
        None => string_from_chars(&Vec::new()),
        Some(r) => {
            let mut lines: Vec<Vec<char>> = Vec::new();
            let mut i: usize = 0;
            while i < r.points.len()
                invariant
                    i <= r.points@.len(),
                    seq_view(lines@) == llm_lines(r.points@.take(i as int)),
                decreases r.points.len() - i,
            {
                let ghost pre = r.points@.take(i as int);
                let ghost before = lines@;
                match &r.points[i].text {
                    Some(t) => {
                        let mut line = u64_decimal(r.points[i].index as u64);
                        let dot = chars_of(". ");
                        append_chars(&mut line, &dot);
                        let tc = chars_of(t.as_str());
                        append_chars(&mut line, &tc);
                        lines.push(line);
                        proof {
                            assert(seq_view(lines@) =~= seq_view(before).push(line@));
                        }
                    },
                    None => {},
                }
                i = i + 1;
                proof {
                    let cur = r.points@.take(i as int);
                    assert(cur.drop_last() =~= pre);
                    assert(cur.last() == r.points@[i - 1]);
                }
            }
            proof {
                assert(r.points@.take(r.points@.len() as int) =~= r.points@);
            }
            let nl = chars_of("\n");
            let joined = join_chars(&lines, &nl);
            string_from_chars(&joined)
        },
    }
}


/// `a`, `b` and `c` one after another.
pub fn concat3(a: &str, b: &str, c: &str) -> (res: String)
    ensures
        res@ == a@ + b@ + c@,
{
    let mut out = chars_of(a);
    let bc = chars_of(b);
    append_chars(&mut out, &bc);
    let cc = chars_of(c);
    append_chars(&mut out, &cc);
    string_from_chars(&out)
}

/// The message that asks the ranking model to order the search results of
/// a request.
pub open spec fn ranking_request_text(user_request: Seq<char>, results_text: Seq<char>) -> Seq<char> {
    "User's query: "@ + user_request
        + "\nA list of search results from the Qdrant vector database based on the user's query: "@
        + results_text
}

pub fn ranking_request(user_request: &str, results_text: &str) -> (res: String)
    ensures
        res@ == ranking_request_text(user_request@, results_text@),
{
    let mut out = chars_of("User's query: ");
    let r = chars_of(user_request);
    append_chars(&mut out, &r);
    let mid = chars_of("\nA list of search results from the Qdrant vector database based on the user's query: ");
    append_chars(&mut out, &mid);
    let t = chars_of(results_text);
    append_chars(&mut out, &t);
    string_from_chars(&out)
}

/// `a` followed by `b`.
pub fn concat2(a: &str, b: &str) -> (res: String)
    ensures
        res@ == a@ + b@,
{
    let mut out = chars_of(a);
    let bc = chars_of(b);
    append_chars(&mut out, &bc);
    string_from_chars(&out)
}

/// The answer after a stored profile was looked up.
pub enum ProfileLookup {
    /// The profile, already formatted for display.
    Found(String),
    NotFound,
    LookupFailed,
    NoDatabase,
}

pub open spec fn profile_reply(lookup: ProfileLookup) -> ResponseView {
    let message = match lookup {
        ProfileLookup::Found(p) => "Ваш профиль:\n```\n"@ + p@ + "\n```"@,
        ProfileLookup::NotFound => "Я не смог найти ваш профиль. Создайте его командой *'Создать профиль'*"@,
        ProfileLookup::LookupFailed => "Произошла ошибка при обращении к базе данных."@,
        ProfileLookup::NoDatabase => "База данных не инициализирована."@,
    };
    response(message, profile_menu_buttons(), back_and_main(), false)
}

/// Shows the user's profile, or says why it cannot.
pub fn send_user_profile_server(lookup: ProfileLookup) -> (res: ServerResponse)
    ensures
        res@ == profile_reply(lookup),
{
    let message = match &lookup {
        ProfileLookup::Found(p) => concat3("Ваш профиль:\n```\n", p.as_str(), "\n```"),
        ProfileLookup::NotFound => copy_str(
            "Я не смог найти ваш профиль. Создайте его командой *'Создать профиль'*",
        ),
        ProfileLookup::LookupFailed => copy_str("Произошла ошибка при обращении к базе данных."),
        ProfileLookup::NoDatabase => copy_str("База данных не инициализирована."),
    };
    ServerResponse {
        message,
        buttons: profile_menu_buttons_vec(),
        action_buttons: back_and_main_vec(),
        can_input: false,
    }
}

pub open spec fn request_display_reply(saved: Option<Seq<char>>) -> ResponseView {
    let message = match saved {
        None => "У вас нет сохраненного запроса. Пожалуйста, создайте его командой *'Создать запрос'*"@,
        Some(r) => "Ваш текущий запрос:\n>**"@ + r + "**."@,
    };
    response(message, request_menu_buttons(), back_and_main(), false)
}

pub open spec fn opt_view(o: Option<&str>) -> Option<Seq<char>> {
    match o {
        Some(t) => Some(t@),
        None => None,
    }
}

/// Shows the user's stored search request, if there is one.
pub fn display_user_request_server(saved: Option<&str>) -> (res: ServerResponse)
    ensures
        res@ == request_display_reply(opt_view(saved)),
{
    let message = match saved {
        None => copy_str(
            "У вас нет сохраненного запроса. Пожалуйста, создайте его командой *'Создать запрос'*",
        ),
        Some(r) => concat3("Ваш текущий запрос:\n>**", r, "**."),
    };
    ServerResponse {
        message,
        buttons: request_menu_buttons_vec(),
        action_buttons: back_and_main_vec(),
        can_input: false,
    }
}

pub open spec fn edit_prompt_spec(s: UserStates, saved: Option<Seq<char>>) -> (UserStates, ResponseView) {
    match saved {
        None => (
            s,
            response(
                "У вас нет сохраненного запроса. Пожалуйста, создайте его командой 'Создать запрос'."@,
                request_menu_buttons(),
                back_and_main(),
                false,
            ),
        ),
        Some(r) => (
            apply_move(s, go(Flag::RequestMenu, Flag::EditingRequest)),
            response(
                r
                    + "\n\nСледующим шагом вам нужно будет рассказать о том что или кого вы ищете, чтобы изменить запрос, готовы?"@,
                one_button("Готов!"@),
                back_and_main(),
                false,
            ),
        ),
    }
}

/// After the stored request was looked up: offers to replace it, or says
/// there is none.
pub fn request_edit_prompt(s: UserStates, saved: Option<&str>) -> (res: (UserStates, ServerResponse))
    ensures
        res.0 == edit_prompt_spec(s, opt_view(saved)).0,
        res.1@ == edit_prompt_spec(s, opt_view(saved)).1,
{
    match saved {
        None => (
            s,
            reply(
                "У вас нет сохраненного запроса. Пожалуйста, создайте его командой 'Создать запрос'.",
                request_menu_buttons_vec(),
                back_and_main_vec(),
                false,
            ),
        ),
        Some(r) => {
            let mv = go_exec(Flag::RequestMenu, Flag::EditingRequest);
            let message = concat2(
                r,
                "\n\nСледующим шагом вам нужно будет рассказать о том что или кого вы ищете, чтобы изменить запрос, готовы?",
            );
            (
                make_move(s, mv),
                ServerResponse {
                    message,
                    buttons: one_button_vec("Готов!"),
                    action_buttons: back_and_main_vec(),
                    can_input: false,
                },
            )
        },
    }
}

pub open spec fn request_saved_spec(s: UserStates, editing: bool, ok: bool) -> (UserStates, ResponseView) {
    let to = if !editing && ok {
        Flag::RequestMenu
    } else {
        Flag::MainMenu
    };
    let r = if editing {
        if ok {
            response("Отлично, отредактировал!"@, main_menu_buttons(), one_button("Выход"@), false)
        } else {
            response(
                "Произошла ошибка при обновлении запроса.\nПожалуйста, обратитесь к разработчикам приложения: @spacewhaleblues"@,
                main_menu_buttons(),
                one_button("Выход"@),
                false,
            )
        }
    } else {
        if ok {
            response("Отлично, сохранил!"@, request_menu_buttons(), back_and_main(), false)
        } else {
            response(
                "Произошла ошибка при сохранении запроса.\nПожалуйста, обратитесь к разработчикам приложения: @spacewhaleblues"@,
                main_menu_buttons(),
                one_button("Выход"@),
                false,
            )
        }
    };
    (apply_move(s, go(Flag::CreatingRequestProcess, to)), r)
}

/// After a typed request was stored (`ok`) or not: where the user goes and
/// what is said. `editing` tells a replaced request from a new one.
pub fn request_saved(s: UserStates, editing: bool, ok: bool) -> (res: (UserStates, ServerResponse))
    ensures
        res.0 == request_saved_spec(s, editing, ok).0,
        res.1@ == request_saved_spec(s, editing, ok).1,
{
    let to = if !editing && ok {
        Flag::RequestMenu
    } else {
        Flag::MainMenu
    };
    let r = if editing {
        if ok {
            reply("Отлично, отредактировал!", main_menu_buttons_vec(), one_button_vec("Выход"), false)
        } else {
            reply(
                "Произошла ошибка при обновлении запроса.\nПожалуйста, обратитесь к разработчикам приложения: @spacewhaleblues",
                main_menu_buttons_vec(),
                one_button_vec("Выход"),
                false,
            )
        }
    } else {
        if ok {
            reply("Отлично, сохранил!", request_menu_buttons_vec(), back_and_main_vec(), false)
        } else {
            reply(
                "Произошла ошибка при сохранении запроса.\nПожалуйста, обратитесь к разработчикам приложения: @spacewhaleblues",
                main_menu_buttons_vec(),
                one_button_vec("Выход"),
                false,
            )
        }
    };
    (make_move(s, go_exec(Flag::CreatingRequestProcess, to)), r)
}

pub open spec fn self_description_saved_reply() -> ResponseView {
    response("Отлично, сохранил!"@, profile_menu_buttons(), back_and_main(), false)
}

/// The answer once a self-description was stored.
pub fn self_description_saved() -> (res: ServerResponse)
    ensures
        res@ == self_description_saved_reply(),
{
    reply("Отлично, сохранил!", profile_menu_buttons_vec(), back_and_main_vec(), false)
}


/// Where `x` first stands in `order`.
pub open spec fn order_position(order: Seq<usize>, x: usize) -> Option<int>
    decreases order.len(),
{
    if order.len() == 0 {
        None
    } else if order[0] == x {
        Some(0)
    } else {
        match order_position(order.subrange(1, order.len() as int), x) {
            Some(p) => Some(p + 1),
            None => None,
        }
    }
}

pub proof fn lemma_order_position(order: Seq<usize>, x: usize)
    ensures
        match order_position(order, x) {
            Some(p) => 0 <= p < order.len() && order[p] == x && forall|j: int|
                0 <= j < p ==> order[j] != x,
            None => forall|j: int| 0 <= j < order.len() ==> order[j] != x,
        },
    decreases order.len(),
{
    if order.len() > 0 && order[0] != x {
        let rest = order.subrange(1, order.len() as int);
        lemma_order_position(rest, x);
        assert forall|j: int| 1 <= j < order.len() implies order[j] == rest[j - 1] by {}
    }
}

/// Where `x` first stands in `order`.
pub fn position_in_order(order: &Vec<usize>, x: usize) -> (res: Option<usize>)
    ensures
        match res {
            Some(p) => order_position(order@, x) == Some(p as int),
            None => order_position(order@, x) is None,
        },
{
    proof {
        lemma_order_position(order@, x);
    }
    let mut k: usize = 0;
    while k < order.len()
        invariant
            k <= order@.len(),
            forall|j: int| 0 <= j < k ==> order@[j] != x,
        decreases order.len() - k,
    {
        if order[k] == x {
            proof {
                lemma_order_position(order@, x);
                if order_position(order@, x) is Some {
                    let p = order_position(order@, x)->0;
                    assert(!(p < k));
                    assert(!(p > k));
                }
            }
            return Some(k);
        }
        k = k + 1;
    }
    proof {
        lemma_order_position(order@, x);
        if order_position(order@, x) is Some {
            let p = order_position(order@, x)->0;
            assert(order@[p] == x);
        }
    }
    None
}

/// Where a move among the search results ends.
#[derive(Clone, Copy, Debug, PartialEq, Eq, Structural)]
pub enum Nav {
    /// There is nothing after the shown result.
    AtEnd,
    /// There is nothing before the shown result.
    AtStart,
    /// The result at this position of the order is shown next.
    MoveTo(usize),
    /// No result is shown, or it is not in the order.
    Lost,
}

pub open spec fn nav_target(order: Seq<usize>, current: Option<usize>, dir: Direction) -> Nav {
    match current {
        None => Nav::Lost,
        Some(c) => match order_position(order, c) {
            None => Nav::Lost,
            Some(p) => match dir {
                Direction::Next => if p + 1 < order.len() {
                    Nav::MoveTo((p + 1) as usize)
                } else {
                    Nav::AtEnd
                },
                Direction::Previous => if p == 0 {
                    Nav::AtStart
                } else {
                    Nav::MoveTo((p - 1) as usize)
                },
            },
        },
    }
}

/// Where a move from the shown result ends.
pub fn navigate(order: &Vec<usize>, current: Option<usize>, dir: Direction) -> (res: Nav)
    ensures
        res == nav_target(order@, current, dir),
{
    match current {
        None => Nav::Lost,
        Some(c) => match position_in_order(order, c) {
            None => Nav::Lost,
            Some(p) => {
                proof {
                    lemma_order_position(order@, c);
                }
                assert(p < order.len());
                match dir {
                    Direction::Next => if p + 1 < order.len() {
                        Nav::MoveTo(p + 1)
                    } else {
                        Nav::AtEnd
                    },
                    Direction::Previous => if p == 0 {
                        Nav::AtStart
                    } else {
                        Nav::MoveTo(p - 1)
                    },
                }
            },
        },
    }
}

/// The result shown after a move: the one the move reaches, else the same.
pub open spec fn moved_index(order: Seq<usize>, current: Option<usize>, dir: Direction) -> Option<
    usize,
> {
    match nav_target(order, current, dir) {
        Nav::MoveTo(q) => Some(order[q as int]),
        _ => current,
    }
}

/// Stepping to the next result and back shows the same result again, when no
/// number occurs twice in the order.
pub proof fn lemma_next_then_previous(order: Seq<usize>, c: usize)
    requires
        order.len() <= usize::MAX,
        order.no_duplicates(),
        nav_target(order, Some(c), Direction::Next) is MoveTo,
    ensures
        moved_index(order, moved_index(order, Some(c), Direction::Next), Direction::Previous)
            == Some(c),
{
    lemma_order_position(order, c);
    let p = order_position(order, c)->0;
    let n = order[p + 1];
    assert(moved_index(order, Some(c), Direction::Next) == Some(n));
    lemma_order_position(order, n);
    assert(order_position(order, n) == Some(p + 1)) by {
        if order_position(order, n) is None {
            assert(order[p + 1] == n);
        } else {
            let q = order_position(order, n)->0;
            if q != p + 1 {
                assert(order[q] == order[p + 1]);
            }
        }
    }
    assert(nav_target(order, Some(n), Direction::Previous) == Nav::MoveTo(p as usize));
}

/// Stepping to the previous result and forth shows the same result again,
/// when no number occurs twice in the order.
pub proof fn lemma_previous_then_next(order: Seq<usize>, c: usize)
    requires
        order.len() <= usize::MAX,
        order.no_duplicates(),
        nav_target(order, Some(c), Direction::Previous) is MoveTo,
    ensures
        moved_index(order, moved_index(order, Some(c), Direction::Previous), Direction::Next)
            == Some(c),
{
    lemma_order_position(order, c);
    let p = order_position(order, c)->0;
    let n = order[p - 1];
    assert(moved_index(order, Some(c), Direction::Previous) == Some(n));
    lemma_order_position(order, n);
    assert(order_position(order, n) == Some(p - 1)) by {
        if order_position(order, n) is None {
            assert(order[p - 1] == n);
        } else {
            let q = order_position(order, n)->0;
            if q != p - 1 {
                assert(order[q] == order[p - 1]);
            }
        }
    }
    assert(nav_target(order, Some(n), Direction::Next) == Nav::MoveTo(p as usize));
}

pub open spec fn entry_text(points: Seq<SearchEntry>, index: usize) -> Option<Option<String>> {
    match entry_position(points, index) {
        Some(p) => Some(points[p].text),
        None => None,
    }
}

/// Whether showing the result that a move reaches would find it without a
/// text, which the application treats as a broken store.
pub open spec fn shows_textless(results: Option<&UserSearchResults>, s: UserStates, dir: Direction) -> bool {
    match results {
        None => false,
        Some(r) => match nav_target(r.order@, s.current_result_index, dir) {
            Nav::MoveTo(q) => entry_text(r.points@, r.order@[q as int]) == Some(None::<String>),
            _ => false,
        },
    }
}

pub open spec fn result_page_reply(dir: Direction, text: Seq<char>) -> ResponseView {
    let lead = match dir {
        Direction::Next => "Следующий"@,
        Direction::Previous => "Предыдущий"@,
    };
    response(
        lead + " результат:\n>**"@ + text
            + "**.\n---\nНажмите *'Contact!'*, чтобы связаться с автором, или выберите *'Следующий результат'* для продолжения."@,
        result_buttons(),
        one_button("Главное меню"@),
        false,
    )
}

pub open spec fn nav_notice(message: Seq<char>) -> ResponseView {
    response(message, result_buttons(), one_button("Главное меню"@), false)
}

pub open spec fn show_result_spec(s: UserStates, results: Option<&UserSearchResults>, dir: Direction) -> (
    UserStates,
    ResponseView,
) {
    let lost = nav_notice("Ошибка: Не удалось получить результат. Попробуйте еще раз."@);
    match results {
        None => (s, lost),
        Some(r) => match nav_target(r.order@, s.current_result_index, dir) {
            Nav::AtEnd => (
                s,
                nav_notice(
                    "Это был последний результат в списке. Могу снова показать предыдущие варианты."@,
                ),
            ),
            Nav::AtStart => (
                s,
                nav_notice("Это первый результат в списке. Посмотрите следующие результаты"@),
            ),
            Nav::Lost => (s, lost),
            Nav::MoveTo(q) => {
                let idx = r.order@[q as int];
                let moved = UserStates { current_result_index: Some(idx), ..s };
                match entry_text(r.points@, idx) {
                    Some(Some(t)) => (moved, result_page_reply(dir, t@)),
                    _ => (moved, lost),
                }
            },
        },
    }
}

fn nav_notice_exec(message: &str) -> (res: ServerResponse)
    ensures
        res@ == nav_notice(message@),
{
    reply(message, result_buttons_vec(), one_button_vec("Главное меню"), false)
}

/// Moves to the next or previous search result and shows it, or says why it
/// cannot.
pub fn show_result_by_direction(s: UserStates, results: Option<&UserSearchResults>, dir: Direction) -> (res: (
    UserStates,
    ServerResponse,
))
    requires
        !shows_textless(results, s, dir),
    ensures
        res.0 == show_result_spec(s, results, dir).0,
        res.1@ == show_result_spec(s, results, dir).1,
{
    match results {
        None => (s, nav_notice_exec("Ошибка: Не удалось получить результат. Попробуйте еще раз.")),
        Some(r) => match navigate(&r.order, s.current_result_index, dir) {
            Nav::AtEnd => (
                s,
                nav_notice_exec(
                    "Это был последний результат в списке. Могу снова показать предыдущие варианты.",
                ),
            ),
            Nav::AtStart => (
                s,
                nav_notice_exec("Это первый результат в списке. Посмотрите следующие результаты"),
            ),
            Nav::Lost => (
                s,
                nav_notice_exec("Ошибка: Не удалось получить результат. Попробуйте еще раз."),
            ),
            Nav::MoveTo(q) => {
                proof {
                    lemma_order_position(r.order@, s.current_result_index->0);
                }
                let idx = r.order[q];
                let moved = UserStates { current_result_index: Some(idx), ..s };
                let found = find_entry(&r.points, idx);
                proof {
                    lemma_entry_position(r.points@, idx);
                }
                match found {
                    Some(p) => match &r.points[p].text {
                        Some(t) => {
                            let lead = match dir {
                                Direction::Next => "Следующий",
                                Direction::Previous => "Предыдущий",
                            };
                            let head = concat3(lead, " результат:\n>**", t.as_str());
                            let message = concat2(
                                head.as_str(),
                                "**.\n---\nНажмите *'Contact!'*, чтобы связаться с автором, или выберите *'Следующий результат'* для продолжения.",
                            );
                            (
                                moved,
                                ServerResponse {
                                    message,
                                    buttons: result_buttons_vec(),
                                    action_buttons: one_button_vec("Главное меню"),
                                    can_input: false,
                                },
                            )
                        },
                        None => (
                            moved,
                            nav_notice_exec(
                                "Ошибка: Не удалось получить результат. Попробуйте еще раз.",
                            ),
                        ),
                    },
                    None => (
                        moved,
                        nav_notice_exec("Ошибка: Не удалось получить результат. Попробуйте еще раз."),
                    ),
                }
            },
        },
    }
}


pub open spec fn no_request_for_search_spec(s: UserStates) -> (UserStates, ResponseView) {
    (
        apply_move(s, go(Flag::RequestSearchResult, Flag::RequestMenu)),
        response(
            "У вас нет ни одного сохраненного запроса. Пожалуйста, создайте его в меню управления запросом"@,
            request_menu_buttons(),
            back_and_main(),
            false,
        ),
    )
}

/// A search was asked for without a stored request: back to the request menu.
pub fn search_without_request(s: UserStates) -> (res: (UserStates, ServerResponse))
    ensures
        res.0 == no_request_for_search_spec(s).0,
        res.1@ == no_request_for_search_spec(s).1,
{
    (
        make_move(s, go_exec(Flag::RequestSearchResult, Flag::RequestMenu)),
        reply(
            "У вас нет ни одного сохраненного запроса. Пожалуйста, создайте его в меню управления запросом",
            request_menu_buttons_vec(),
            back_and_main_vec(),
            false,
        ),
    )
}

/// The first result of a search that found something, if it can be shown.
pub open spec fn first_result(results: Option<&UserSearchResults>) -> Option<(usize, Option<Option<String>>)> {
    match results {
        Some(r) => if r.order@.len() > 0 {
            Some((r.order@[0], entry_text(r.points@, r.order@[0])))
        } else {
            None
        },
        None => None,
    }
}

pub open spec fn search_outcome_spec(s: UserStates, job: Seq<char>, results: Option<&UserSearchResults>) -> Option<
    (UserStates, ResponseView),
> {
    let lost_state = UserStates {
        current_result_index: None,
        ..apply_move(s, go(Flag::RequestSearchResult, Flag::MainMenu))
    };
    let lost = response(
        "Ошибка: результат не найден. Попробуйте еще раз.\nОшибка: AppState doesn't contain search_results_map"@,
        main_menu_buttons(),
        one_button("Выход"@),
        false,
    );
    if job == "No results found"@ {
        Some(
            (
                apply_move(s, go(Flag::RequestSearchResult, Flag::RequestMenu)),
                response(
                    "Извините, ничего подходящего в базе нет.\nПопробуйте изменить ваш запрос соответствующей командой"@,
                    request_menu_buttons(),
                    back_and_main(),
                    false,
                ),
            ),
        )
    } else if job == "All's good"@ {
        match first_result(results) {
            Some((first, Some(Some(t)))) => Some(
                (
                    UserStates { current_result_index: Some(first), ..s },
                    response(
                        "Результаты поиска по вашему запросу:\n>**"@ + t@
                            + "**.\n---\nВы можете посмотреть другие результаты или связаться с автором найденного результата, нажав кнопку *'Contact!'*"@,
                        result_buttons(),
                        one_button("Главное меню"@),
                        false,
                    ),
                ),
            ),
            _ => Some((lost_state, lost)),
        }
    } else {
        None
    }
}

/// The answer to a search once the search job has reported: the first result,
/// or why there is none. `None` for a report the menus do not know.
pub fn search_by_users_request_server(s: UserStates, job: &str, results: Option<&UserSearchResults>) -> (res:
    Option<(UserStates, ServerResponse)>)
    requires
        first_result(results) matches Some((_, Some(t))) ==> t is Some,
    ensures
        match (res, search_outcome_spec(s, job@, results)) {
            (Some(r), Some(e)) => r.0 == e.0 && r.1@ == e.1,
            (None, None) => true,
            _ => false,
        },
{
    if str_eq(job, "No results found") {
        Some(
            (
                make_move(s, go_exec(Flag::RequestSearchResult, Flag::RequestMenu)),
                reply(
                    "Извините, ничего подходящего в базе нет.\nПопробуйте изменить ваш запрос соответствующей командой",
                    request_menu_buttons_vec(),
                    back_and_main_vec(),
                    false,
                ),
            ),
        )
    } else if str_eq(job, "All's good") {
        let moved = make_move(s, go_exec(Flag::RequestSearchResult, Flag::MainMenu));
        let lost_state = UserStates { current_result_index: None, ..moved };
        match results {
            Some(r) => {
                if r.order.len() > 0 {
                    let first = r.order[0];
                    let found = find_entry(&r.points, first);
                    proof {
                        lemma_entry_position(r.points@, first);
                    }
                    match found {
                        Some(p) => match &r.points[p].text {
                            Some(t) => {
                                let message = concat3(
                                    "Результаты поиска по вашему запросу:\n>**",
                                    t.as_str(),
                                    "**.\n---\nВы можете посмотреть другие результаты или связаться с автором найденного результата, нажав кнопку *'Contact!'*",
                                );
                                return Some(
                                    (
                                        UserStates { current_result_index: Some(first), ..s },
                                        ServerResponse {
                                            message,
                                            buttons: result_buttons_vec(),
                                            action_buttons: one_button_vec("Главное меню"),
                                            can_input: false,
                                        },
                                    ),
                                );
                            },
                            None => {},
                        },
                        None => {},
                    }
                }
            },
            None => {},
        }
        Some(
            (
                lost_state,
                reply(
                    "Ошибка: результат не найден. Попробуйте еще раз.\nОшибка: AppState doesn't contain search_results_map",
                    main_menu_buttons_vec(),
                    one_button_vec("Выход"),
                    false,
                ),
            ),
        )
    } else {
        None
    }
}

pub open spec fn recipient_of(s: UserStates, results: Option<&UserSearchResults>) -> Option<Seq<char>> {
    match results {
        None => None,
        Some(r) => match entry_position(r.points@, s.current_result_index->0) {
            None => None,
            Some(p) => match r.points@[p].username {
                Some(u) => Some(u@),
                None => Some(Seq::empty()),
            },
        },
    }
}

/// The username of the author of the shown result, empty where the hit has
/// none; `None` where the hit is not stored.
pub fn contact_recipient(s: UserStates, results: Option<&UserSearchResults>) -> (res: Option<String>)
    requires
        s.current_result_index is Some,
    ensures
        match res {
            Some(u) => recipient_of(s, results) == Some(u@),
            None => recipient_of(s, results) is None,
        },
{
    match results {
        None => None,
        Some(r) => {
            let idx = match s.current_result_index {
                Some(i) => i,
                None => 0,
            };
            let found = find_entry(&r.points, idx);
            proof {
                lemma_entry_position(r.points@, idx);
            }
            match found {
                None => None,
                Some(p) => match &r.points[p].username {
                    Some(u) => Some(u.clone()),
                    None => Some(string_from_chars(&Vec::new())),
                },
            }
        },
    }
}

pub open spec fn contact_reply_spec(s: UserStates, chat_opened: bool) -> (UserStates, ResponseView) {
    let message = if chat_opened {
        "Я создал чат между вами и автором найденного результата.\nFeel free to contact p2p."@
    } else {
        "Автор найденного запроса не имеет username, с ним невозможно связаться, увы."@
    };
    (
        apply_move(s, go(Flag::RequestSearchResult, Flag::MainMenu)),
        response(message, main_menu_buttons(), one_button("Выход"@), false),
    )
}

/// Back to the main menu after a contact was asked for; `chat_opened` tells
/// whether the shown result was found and a chat with its author requested.
pub fn contact_reply(s: UserStates, chat_opened: bool) -> (res: (UserStates, ServerResponse))
    ensures
        res.0 == contact_reply_spec(s, chat_opened).0,
        res.1@ == contact_reply_spec(s, chat_opened).1,
{
    let message = if chat_opened {
        "Я создал чат между вами и автором найденного результата.\nFeel free to contact p2p."
    } else {
        "Автор найденного запроса не имеет username, с ним невозможно связаться, увы."
    };
    (
        make_move(s, go_exec(Flag::RequestSearchResult, Flag::MainMenu)),
        reply(message, main_menu_buttons_vec(), one_button_vec("Выход"), false),
    )
}

/// Every flag down but the start screen's, and no result shown.
pub open spec fn started_states() -> UserStates {
    UserStates { start_window: true, ..blank_states() }
}

pub open spec fn user_action_spec(current: Option<UserStates>, a: Seq<char>, username: Seq<char>) -> (
    Option<UserStates>,
    StepView,
) {
    if a == "Mini-app initialized"@ && username == "Unknown User"@ {
        (
            current,
            say(
                response(
                    "Извините, но для использования приложения необходимо установить username в Telegram.\nПожалуйста, установите username в настройках что бы получить доступ к приложению"@,
                    no_labels(),
                    no_labels(),
                    false,
                ),
            ),
        )
    } else if a == "Mini-app initialized"@ {
        (
            Some(started_states()),
            say(response("Push the start button!"@, one_button("Start"@), no_labels(), false)),
        )
    } else {
        let s = match current {
            Some(s) => s,
            None => blank_states(),
        };
        let screen = match current {
            Some(s) => screen_of(s),
            None => Screen::Unknown,
        };
        let m = menu_action_of(a);
        (Some(apply_move(s, screen_move(screen, m))), screen_reply(screen, m, a))
    }
}

/// Handles an action of a mini-app user whose state is `current` (`None`
/// for a user not seen yet): the state afterwards, and the reply or the work
/// that decides it.
pub fn handle_user_action(current: Option<UserStates>, action: &str, username: &str) -> (res: (
    Option<UserStates>,
    MenuStep,
))
    ensures
        res.0 == user_action_spec(current, action@, username@).0,
        res.1@ == user_action_spec(current, action@, username@).1,
{
    let init = str_eq(action, "Mini-app initialized");
    if init && str_eq(username, "Unknown User") {
        return (
            current,
            say_exec(
                "Извините, но для использования приложения необходимо установить username в Telegram.\nПожалуйста, установите username в настройках что бы получить доступ к приложению",
                no_buttons(),
                no_buttons(),
                false,
            ),
        );
    }
    if init {
        let started = UserStates { start_window: true, ..UserStates::default() };
        return (
            Some(started),
            say_exec("Push the start button!", one_button_vec("Start"), no_buttons(), false),
        );
    }
    let (s, screen) = match current {
        Some(s) => (s, active_screen(&s)),
        None => (UserStates::default(), Screen::Unknown),
    };
    let m = classify_action(action);
    let mv = screen_move_exec(screen, m);
    (Some(make_move(s, mv)), screen_answer(screen, m, action))
}


/// "Главное меню" takes a user to the main menu from every screen but the
/// start screen.
pub proof fn lemma_main_menu_button(current: Option<UserStates>, username: Seq<char>)
    requires
        current matches Some(s) ==> screen_of(s) != Screen::StartWindow,
    ensures
        user_action_spec(current, "Главное меню"@, username).0 matches Some(n) && screen_of(n)
            == Screen::MainMenu,
{
    reveal_strlit("Главное меню");
    reveal_strlit("Mini-app initialized");
    reveal_strlit("Start");
    reveal_strlit("Управление профилем");
    reveal_strlit("Управление запросом");
    reveal_strlit("Выполнить поиск по запросу");
    reveal_strlit("Выход");
    reveal_strlit("Посмотреть профиль");
    reveal_strlit("Изменить профиль");
    reveal_strlit("Создать профиль");
    reveal_strlit("Назад");
    assert("Главное меню"@[0] != "Mini-app initialized"@[0]);
    assert("Главное меню"@[0] != "Start"@[0]);
    assert("Главное меню"@ != "Управление профилем"@);
    assert("Главное меню"@ != "Управление запросом"@);
    assert("Главное меню"@ != "Выполнить поиск по запросу"@);
    assert("Главное меню"@ != "Выход"@);
    assert("Главное меню"@ != "Посмотреть профиль"@);
    assert("Главное меню"@ != "Изменить профиль"@);
    assert("Главное меню"@ != "Создать профиль"@);
    assert("Главное меню"@ != "Назад"@);
    assert(menu_action_of("Главное меню"@) == MenuAction::ToMainMenu);
}

/// Opening the mini-app with a username puts the user on the start screen,
/// whatever state the user was in.
pub proof fn lemma_initialization_resets(current: Option<UserStates>, username: Seq<char>)
    requires
        username != "Unknown User"@,
    ensures
        user_action_spec(current, "Mini-app initialized"@, username).0 == Some(started_states()),
        screen_of(started_states()) == Screen::StartWindow,
{
}


/// What a user tells about themselves at registration.
pub struct RegistrationInfo {
    pub first_name: Option<String>,
    pub last_name: Option<String>,
    pub age: Option<u8>,
    pub gender: Option<String>,
    pub city_of_residence: Option<String>,
}

/// A user's interests.
pub struct AdditionalInfo {
    pub interests: Option<Vec<String>>,
}

/// A user's profile in the request mini-app.
pub struct UserProfile {
    pub registration_info: RegistrationInfo,
    pub additional_info: AdditionalInfo,
}

impl UserProfile {
    /// A profile with nothing filled in.
    pub fn new() -> (res: UserProfile)
        ensures
            res.registration_info.first_name is None,
            res.registration_info.last_name is None,
            res.registration_info.age is None,
            res.registration_info.gender is None,
            res.registration_info.city_of_residence is None,
            res.additional_info.interests is None,
    {
        UserProfile {
            registration_info: RegistrationInfo {
                first_name: None,
                last_name: None,
                age: None,
                gender: None,
                city_of_residence: None,
            },
            additional_info: AdditionalInfo { interests: None },
        }
    }
}


/// The texts that are present, in order.
pub open spec fn present_texts(v: Seq<Option<String>>) -> Seq<Seq<char>>
    decreases v.len(),
{
    if v.len() == 0 {
        Seq::empty()
    } else {
        match v.last() {
            Some(t) => present_texts(v.drop_last()).push(t@),
            None => present_texts(v.drop_last()),
        }
    }
}

fn collect_present(v: &Vec<Option<String>>) -> (res: Vec<Vec<char>>)
    ensures
        seq_view(res@) == present_texts(v@),
{
    let mut out: Vec<Vec<char>> = Vec::new();
    let mut i: usize = 0;
    while i < v.len()
        invariant
            i <= v@.len(),
            seq_view(out@) == present_texts(v@.take(i as int)),
        decreases v.len() - i,
    {
        proof {
            assert(v@.take(i + 1).drop_last() =~= v@.take(i as int));
            assert(v@.take(i + 1).last() == v@[i as int]);
        }
        match &v[i] {
            Some(t) => {
                let c = chars_of(t.as_str());
                let ghost before = out@;
                out.push(c);
                proof {
                    assert(seq_view(out@) =~= seq_view(before).push(c@));
                }
            },
            None => {},
        }
        i = i + 1;
    }
    proof {
        assert(v@.take(v@.len() as int) =~= v@);
    }
    out
}

/// The texts of the found points joined line by line; `None` when no point
/// has a text.
pub fn combine_payload_texts(texts: &Vec<Option<String>>) -> (res: Option<String>)
    ensures
        match res {
            Some(c) => present_texts(texts@).len() > 0 && c@ == join_with(present_texts(texts@), "\n"@),
            None => present_texts(texts@).len() == 0,
        },
{
    let parts = collect_present(texts);
    if parts.len() == 0 {
        None
    } else {
        let nl = chars_of("\n");
        let joined = join_chars(&parts, nl.as_slice());
        Some(string_from_chars(joined.as_slice()))
    }
}

/// The usernames of the found points' authors, comma-separated.
pub fn join_authors(usernames: &Vec<Option<String>>) -> (res: String)
    ensures
        res@ == join_with(present_texts(usernames@), ", "@),
{
    let parts = collect_present(usernames);
    let sep = chars_of(", ");
    let joined = join_chars(&parts, sep.as_slice());
    string_from_chars(joined.as_slice())
}

/// Whether a found point is offered to a user, its score being above the
/// threshold (`score_ok`): it is not the user's own request. `author` is the
/// point's stored user id (`None`: none stored; `Some(None)`: not a number).
pub fn keeps_point(score_ok: bool, author: Option<Option<i64>>, user_id: i64) -> (res: bool)
    ensures
        res == (score_ok && match author {
            Some(Some(a)) => a != user_id,
            _ => true,
        }),
{
    score_ok && match author {
        Some(Some(a)) => a != user_id,
        _ => true,
    }
}

/// The answer of a full search over the kept points, in rank order (`texts` and
/// `usernames` are the points' "text" and "username" payloads, `None` where a
/// point has none): `None` when no point has a text; otherwise the texts joined
/// line by line, and the authors' usernames joined by ", ", which are remembered
/// as the authors of the user's last result.
pub fn full_search_answer(texts: &Vec<Option<String>>, usernames: &Vec<Option<String>>) -> (res: Option<
    (String, String),
>)
    ensures
        match res {
            None => present_texts(texts@).len() == 0,
            Some((answer, authors)) => present_texts(texts@).len() > 0 && answer@ == join_with(
                present_texts(texts@),
                "\n"@,
            ) && authors@ == join_with(present_texts(usernames@), ", "@),
        },
{
    match combine_payload_texts(texts) {
        None => None,
        Some(answer) => Some((answer, join_authors(usernames))),
    }
}

/// At most one screen flag is raised.
pub open spec fn single_screen(s: UserStates) -> bool {
    let flags = seq![
        s.start_window,
        s.main_menu,
        s.profile_menu,
        s.creating_profile,
        s.creating_profile_process,
        s.request_menu,
        s.creating_request,
        s.creating_request_process,
        s.editing_request,
        s.editing_request_process,
        s.request_search_result,
    ];
    forall|i: int, j: int| 0 <= i < j < flags.len() ==> !(flags[i] && flags[j])
}

/// The screen where the text typed after "ready" is taken down.
pub open spec fn input_screen(screen: Screen) -> Screen {
    match screen {
        Screen::CreatingProfile => Screen::CreatingProfileProcess,
        Screen::CreatingRequest => Screen::CreatingRequestProcess,
        Screen::EditingRequest => Screen::EditingRequestProcess,
        _ => screen,
    }
}

/// The user lands where the reply says: after an action on a screen (one screen
/// flag raised at most), when the reply shows the main, profile or request menu
/// the new state's screen is that menu, and when the reply starts listening for a
/// typed text the new state's screen is the one that takes the text down.
#[verifier::spinoff_prover]
pub proof fn lemma_reply_matches_screen(s: UserStates, m: MenuAction, a: Seq<char>)
    requires
        single_screen(s),
    ensures
        screen_reply(screen_of(s), m, a) == say(main_menu_response()) ==> screen_of(
            apply_move(s, screen_move(screen_of(s), m)),
        ) == Screen::MainMenu,
        screen_reply(screen_of(s), m, a) == say(profile_menu_response()) ==> screen_of(
            apply_move(s, screen_move(screen_of(s), m)),
        ) == Screen::ProfileMenu,
        screen_reply(screen_of(s), m, a) == say(request_menu_response()) ==> screen_of(
            apply_move(s, screen_move(screen_of(s), m)),
        ) == Screen::RequestMenu,
        screen_reply(screen_of(s), m, a) == say(response(listening(), no_labels(), back_and_main(), true))
            ==> screen_of(apply_move(s, screen_move(screen_of(s), m))) == input_screen(screen_of(s)),
{
    let flags = seq![
        s.start_window,
        s.main_menu,
        s.profile_menu,
        s.creating_profile,
        s.creating_profile_process,
        s.request_menu,
        s.creating_request,
        s.creating_request_process,
        s.editing_request,
        s.editing_request_process,
        s.request_search_result,
    ];
    assert(flags[0] == s.start_window && flags[1] == s.main_menu && flags[2] == s.profile_menu
        && flags[3] == s.creating_profile && flags[4] == s.creating_profile_process && flags[5]
        == s.request_menu && flags[6] == s.creating_request && flags[7] == s.creating_request_process
        && flags[8] == s.editing_request && flags[9] == s.editing_request_process && flags[10]
        == s.request_search_result);
    assert(main_menu_buttons().len() == 3);
    assert(profile_menu_buttons().len() == 3);
    assert(request_menu_buttons().len() == 4);
    assert(back_and_main().len() == 2);
    assert(one_button("Готов!"@).len() == 1);
    assert(one_button("Поехали!"@).len() == 1);
    assert(one_button("Start"@).len() == 1);
    assert(one_button("Выход"@).len() == 1);
    assert(no_labels().len() == 0);
    assert(result_buttons().len() == 3);
    let sc = screen_of(s);
    let ns = apply_move(s, screen_move(sc, m));
    match sc {
        Screen::MainMenu => {
            assert(s.main_menu);
        },
        Screen::SearchResult => {
            reveal_strlit("Contact!");
            reveal_strlit("Изменить профиль");
            assert(result_buttons()[1].len() != profile_menu_buttons()[1].len());
            assert(result_buttons() != profile_menu_buttons());
        },
        Screen::ProfileMenu => {
            assert(!s.main_menu && s.profile_menu);
        },
        Screen::RequestMenu => {
            assert(!s.main_menu && !s.profile_menu && s.request_menu);
        },
        Screen::CreatingProfile => {
            assert(s.creating_profile);
            assert(!s.main_menu && !s.profile_menu && !s.request_menu && !s.creating_request
                && !s.creating_request_process && !s.request_search_result && !s.editing_request
                && !s.editing_request_process && !s.start_window && !s.creating_profile_process);
        },
        Screen::CreatingRequest => {
            assert(s.creating_request);
            assert(!s.main_menu && !s.profile_menu && !s.request_menu && !s.creating_request_process);
        },
        Screen::EditingRequest => {
            assert(s.editing_request);
            assert(!s.main_menu && !s.profile_menu && !s.request_menu && !s.creating_request
                && !s.creating_request_process && !s.request_search_result && !s.editing_request_process);
        },
        Screen::EditingRequestProcess => {
            assert(s.editing_request_process);
            assert(!s.main_menu && !s.profile_menu && !s.request_menu);
        },
        Screen::CreatingRequestProcess => {
            assert(s.creating_request_process);
            assert(!s.main_menu && !s.profile_menu && !s.request_menu);
        },
        Screen::CreatingProfileProcess => {
            assert(s.creating_profile_process);
            assert(!s.main_menu && !s.profile_menu && !s.request_menu);
        },
        _ => {},
    }
}

/// The same, for a mini-app user's action as handled: the menu the reply shows is
/// the screen the user is on afterwards.
pub proof fn lemma_user_action_lands_on_shown_menu(s: UserStates, a: Seq<char>, username: Seq<char>)
    requires
        single_screen(s),
        a != "Mini-app initialized"@,
    ensures
        user_action_spec(Some(s), a, username).1 == say(main_menu_response()) ==> screen_of(
            user_action_spec(Some(s), a, username).0.unwrap(),
        ) == Screen::MainMenu,
        user_action_spec(Some(s), a, username).1 == say(profile_menu_response()) ==> screen_of(
            user_action_spec(Some(s), a, username).0.unwrap(),
        ) == Screen::ProfileMenu,
        user_action_spec(Some(s), a, username).1 == say(request_menu_response()) ==> screen_of(
            user_action_spec(Some(s), a, username).0.unwrap(),
        ) == Screen::RequestMenu,
{
    lemma_reply_matches_screen(s, menu_action_of(a), a);
}

/// The prompt before a self-description is typed.
pub open spec fn profile_prompt() -> ResponseView {
    response(
        "Следующим шагом вам нужно будет рассказать вкратце о себе, готовы?"@,
        one_button("Поехали!"@),
        back_and_main(),
        false,
    )
}

/// The prompt before a search request is typed.
pub open spec fn request_prompt() -> ResponseView {
    response(
        "Следующим шагом вам нужно будет рассказать о том что или кого вы ищете, готовы?"@,
        one_button("Готов!"@),
        back_and_main(),
        false,
    )
}

/// The prompts lead to their screens: after the prompt for a self-description the
/// user is on the profile-creation screen, after the prompt for a search request
/// on the request-creation screen.
#[verifier::spinoff_prover]
pub proof fn lemma_prompts_lead_to_their_screens(s: UserStates, m: MenuAction, a: Seq<char>)
    requires
        single_screen(s),
    ensures
        screen_reply(screen_of(s), m, a) == say(profile_prompt()) ==> screen_of(
            apply_move(s, screen_move(screen_of(s), m)),
        ) == Screen::CreatingProfile,
        screen_reply(screen_of(s), m, a) == say(request_prompt()) ==> screen_of(
            apply_move(s, screen_move(screen_of(s), m)),
        ) == Screen::CreatingRequest,
{
    lemma_reply_matches_screen(s, m, a);
    let flags = seq![
        s.start_window,
        s.main_menu,
        s.profile_menu,
        s.creating_profile,
        s.creating_profile_process,
        s.request_menu,
        s.creating_request,
        s.creating_request_process,
        s.editing_request,
        s.editing_request_process,
        s.request_search_result,
    ];
    assert(flags[0] == s.start_window && flags[1] == s.main_menu && flags[2] == s.profile_menu
        && flags[3] == s.creating_profile && flags[4] == s.creating_profile_process && flags[5]
        == s.request_menu && flags[6] == s.creating_request && flags[7] == s.creating_request_process
        && flags[8] == s.editing_request && flags[9] == s.editing_request_process && flags[10]
        == s.request_search_result);
    assert(main_menu_buttons().len() == 3);
    assert(profile_menu_buttons().len() == 3);
    assert(request_menu_buttons().len() == 4);
    assert(back_and_main().len() == 2);
    assert(result_buttons().len() == 3);
    reveal_strlit("Готов!");
    reveal_strlit("Поехали!");
    assert("Готов!"@.len() != "Поехали!"@.len());
    assert(one_button("Готов!"@)[0] != one_button("Поехали!"@)[0]);
    match screen_of(s) {
        Screen::CreatingProfileProcess => {
            reveal_strlit("Следующим шагом вам нужно будет рассказать вкратце о себе, готовы?");
            reveal_strlit("Вам нужно рассказать вкратце о себе, готовы?");
            assert(profile_prompt().message.len() != "Вам нужно рассказать вкратце о себе, готовы?"@.len());
        },
        Screen::EditingRequest => {
            reveal_strlit("Следующим шагом вам нужно будет рассказать о том что или кого вы ищете, готовы?");
            reveal_strlit("Извините, я вас не понял.\nПожалуйста, выберите один из доступных вариантов кнопками.");
            assert(request_prompt().message.len() != wrong_choice().len());
            assert(s.editing_request);
        },
        Screen::ProfileMenu => {
            assert(!s.main_menu && s.profile_menu);
        },
        Screen::RequestMenu => {
            assert(!s.main_menu && !s.profile_menu && s.request_menu);
        },
        Screen::CreatingProfile => {
            assert(s.creating_profile);
        },
        Screen::CreatingRequest => {
            assert(s.creating_request);
        },
        Screen::CreatingRequestProcess => {
            assert(s.creating_request_process);
            assert(!s.main_menu && !s.profile_menu && !s.request_menu);
        },
        _ => {},
    }
}

/// A move keeps at most one screen flag raised, except from the screen that
/// takes a self-description down, whose "Назад" and "Главное меню" lower the
/// request-text flag instead of its own.
#[verifier::spinoff_prover]
#[verifier::rlimit(40)]
pub proof fn lemma_moves_keep_one_screen(s: UserStates, m: MenuAction)
    requires
        single_screen(s),
        screen_of(s) != Screen::CreatingProfileProcess,
    ensures
        single_screen(apply_move(s, screen_move(screen_of(s), m))),
{
    let ns = apply_move(s, screen_move(screen_of(s), m));
    let flags = seq![
        s.start_window,
        s.main_menu,
        s.profile_menu,
        s.creating_profile,
        s.creating_profile_process,
        s.request_menu,
        s.creating_request,
        s.creating_request_process,
        s.editing_request,
        s.editing_request_process,
        s.request_search_result,
    ];
    let nflags = seq![
        ns.start_window,
        ns.main_menu,
        ns.profile_menu,
        ns.creating_profile,
        ns.creating_profile_process,
        ns.request_menu,
        ns.creating_request,
        ns.creating_request_process,
        ns.editing_request,
        ns.editing_request_process,
        ns.request_search_result,
    ];
    assert(flags[0] == s.start_window && flags[1] == s.main_menu && flags[2] == s.profile_menu
        && flags[3] == s.creating_profile && flags[4] == s.creating_profile_process && flags[5]
        == s.request_menu && flags[6] == s.creating_request && flags[7] == s.creating_request_process
        && flags[8] == s.editing_request && flags[9] == s.editing_request_process && flags[10]
        == s.request_search_result);
    assert(nflags[0] == ns.start_window && nflags[1] == ns.main_menu && nflags[2] == ns.profile_menu
        && nflags[3] == ns.creating_profile && nflags[4] == ns.creating_profile_process && nflags[5]
        == ns.request_menu && nflags[6] == ns.creating_request && nflags[7] == ns.creating_request_process
        && nflags[8] == ns.editing_request && nflags[9] == ns.editing_request_process && nflags[10]
        == ns.request_search_result);
}

} // verus!
