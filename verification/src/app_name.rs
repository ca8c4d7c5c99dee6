use vstd::prelude::*;
use crate::text::{chars_of, string_from_chars, append_chars, str_eq, copy_str, push_str, push_signed, signed_decimal, contains, contains_exec};

verus! {

/// The applications of the platform.
#[derive(Clone, Copy, Debug, PartialEq, Eq, Structural)]
pub enum AppName {
    ProbiotBot,
    W3ABot,
    W3AWeb,
    TheViperRoom,
    TheViperRoomBot,
    BlacksmithWeb,
    GrootBot,
    StatBot,
    UniframeStudio,
    AgentDavon,
}

/// The name of an application as configuration and storage use it.
pub open spec fn app_name_str(app: AppName) -> Seq<char> {
    match app {
        AppName::ProbiotBot => "probiot_bot"@,
        AppName::W3ABot => "w3a_bot"@,
        AppName::W3AWeb => "w3a_web"@,
        AppName::TheViperRoom => "the_viper_room"@,
        AppName::TheViperRoomBot => "the_viper_room_bot"@,
        AppName::BlacksmithWeb => "blacksmith_web"@,
        AppName::GrootBot => "groot_bot"@,
        AppName::StatBot => "stat_bot"@,
        AppName::UniframeStudio => "uniframe_studio"@,
        AppName::AgentDavon => "agent_davon"@,
    }
}

/// The directory (under the resource root) that holds an application's files.
pub open spec fn role_directory(app: AppName) -> Seq<char> {
    match app {
        AppName::ProbiotBot => "probiot"@,
        AppName::W3ABot => "w3a"@,
        AppName::W3AWeb => "w3a"@,
        AppName::TheViperRoomBot => "the_viper_room"@,
        AppName::BlacksmithWeb => "blacksmith_lab"@,
        AppName::GrootBot => "groot_bot"@,
        _ => app_name_str(app),
    }
}

impl AppName {
    pub fn as_str(&self) -> (res: &'static str)
        ensures
            res@ == app_name_str(*self),
    {
        match self {
            AppName::ProbiotBot => "probiot_bot",
            AppName::W3ABot => "w3a_bot",
            AppName::W3AWeb => "w3a_web",
            AppName::TheViperRoom => "the_viper_room",
            AppName::TheViperRoomBot => "the_viper_room_bot",
            AppName::BlacksmithWeb => "blacksmith_web",
            AppName::GrootBot => "groot_bot",
            AppName::StatBot => "stat_bot",
            AppName::UniframeStudio => "uniframe_studio",
            AppName::AgentDavon => "agent_davon",
        }
    }
}

/// The directory of an application's resources.
pub fn get_mapped_from_app_name_role_directory(app_name: &AppName) -> (res: &'static str)
    ensures
        res@ == role_directory(*app_name),
{
    match app_name {
        AppName::ProbiotBot => "probiot",
        AppName::W3ABot => "w3a",
        AppName::W3AWeb => "w3a",
        AppName::TheViperRoomBot => "the_viper_room",
        AppName::BlacksmithWeb => "blacksmith_lab",
        AppName::GrootBot => "groot_bot",
        _ => app_name.as_str(),
    }
}

/// Whether the application keeps a local database.
pub fn is_localdb_implemented(app_name: &AppName) -> (res: bool)
    ensures
        res == (*app_name == AppName::GrootBot),
{
    match app_name {
        AppName::GrootBot => true,
        _ => false,
    }
}

/// `base` extended by the relative or absolute path `comp`, as `PathBuf::push`
/// does on Unix: an absolute `comp` replaces `base`; otherwise a single '/' goes
/// between them unless `base` is empty or already ends with one.
pub open spec fn path_join(base: Seq<char>, comp: Seq<char>) -> Seq<char> {
    if comp.len() > 0 && comp[0] == '/' {
        comp
    } else if base.len() == 0 || base.last() == '/' {
        base + comp
    } else {
        base + seq!['/'] + comp
    }
}

pub fn path_join_chars(base: &[char], comp: &[char]) -> (res: Vec<char>)
    ensures
        res@ == path_join(base@, comp@),
{
    let mut out: Vec<char> = Vec::new();
    if comp.len() > 0 && comp[0] == '/' {
        append_chars(&mut out, comp);
        assert(out@ =~= comp@);
        return out;
    }
    append_chars(&mut out, base);
    if !(base.len() == 0 || base[base.len() - 1] == '/') {
        out.push('/');
    }
    append_chars(&mut out, comp);
    assert(out@ =~= path_join(base@, comp@));
    out
}

/// The path of a resource file of an application: `common_res/<dir>/<file>`.
pub open spec fn resource_file_path(app: AppName, file_name: Seq<char>) -> Seq<char> {
    path_join(path_join("common_res"@, role_directory(app)), file_name)
}

pub fn build_resource_file_path(app_name: &AppName, file_name: &str) -> (res: String)
    ensures
        res@ == resource_file_path(*app_name, file_name@),
{
    let root = chars_of("common_res");
    let dir = chars_of(get_mapped_from_app_name_role_directory(app_name));
    let p = path_join_chars(&root, &dir);
    let f = chars_of(file_name);
    let full = path_join_chars(&p, &f);
    string_from_chars(&full)
}

/// The path of a system role file: `common_res/system_roles/<dir>/<role>.txt`.
pub open spec fn system_role_path(app: AppName, role_type: Seq<char>) -> Seq<char> {
    path_join(
        path_join(path_join("common_res"@, "system_roles"@), role_directory(app)),
        role_type + ".txt"@,
    )
}

pub fn get_system_role_path(app_name: &AppName, role_type: &str) -> (res: String)
    ensures
        res@ == system_role_path(*app_name, role_type@),
{
    let root = chars_of("common_res");
    let roles = chars_of("system_roles");
    let dir = chars_of(get_mapped_from_app_name_role_directory(app_name));
    let mut file = chars_of(role_type);
    let ext = chars_of(".txt");
    append_chars(&mut file, &ext);
    let p1 = path_join_chars(&root, &roles);
    let p2 = path_join_chars(&p1, &dir);
    let full = path_join_chars(&p2, &file);
    string_from_chars(&full)
}


/// A state that knows which application it serves.
pub trait AppNameProvider {
    fn app_name(&self) -> &AppName;
}


/// Whether a reply gets the application's footer: on every third user message
/// of the cached dialogue, and only in the applications that have a footer.
pub open spec fn footer_due(message_count: usize, app: AppName) -> bool {
    message_count > 0 && message_count % 3 == 0 && app == AppName::ProbiotBot
}

/// Whether the footer should be fetched for a reply after `message_count`
/// user messages.
pub fn footer_needed(message_count: usize, app: AppName) -> (res: bool)
    ensures
        res == footer_due(message_count, app),
{
    message_count > 0 && message_count % 3 == 0 && app == AppName::ProbiotBot
}

/// The reply with the footer on a line of its own when it is due and not
/// empty; `footer` is the application's footer text.
pub fn append_footer_if_needed(response: &str, message_count: usize, app: AppName, footer: &str) -> (res: String)
    ensures
        res@ == if footer_due(message_count, app) && footer@.len() > 0 {
            response@ + "\n"@ + footer@
        } else {
            response@
        },
{
    let mut out = chars_of(response);
    if footer_needed(message_count, app) && footer.unicode_len() > 0 {
        let nl = chars_of("\n");
        append_chars(&mut out, &nl);
        let f = chars_of(footer);
        append_chars(&mut out, &f);
    }
    string_from_chars(&out)
}


pub open spec fn app_named(s: Seq<char>) -> Option<AppName> {
    if s == "probiot_bot"@ {
        Some(AppName::ProbiotBot)
    } else if s == "w3a_bot"@ {
        Some(AppName::W3ABot)
    } else if s == "w3a_web"@ {
        Some(AppName::W3AWeb)
    } else if s == "the_viper_room"@ {
        Some(AppName::TheViperRoom)
    } else if s == "the_viper_room_bot"@ {
        Some(AppName::TheViperRoomBot)
    } else if s == "blacksmith_web"@ {
        Some(AppName::BlacksmithWeb)
    } else if s == "groot_bot"@ {
        Some(AppName::GrootBot)
    } else if s == "stat_bot"@ {
        Some(AppName::StatBot)
    } else if s == "uniframe_studio"@ {
        Some(AppName::UniframeStudio)
    } else if s == "agent_davon"@ {
        Some(AppName::AgentDavon)
    } else {
        None
    }
}

/// The application with the name `s`, if there is one.
pub fn parse_app_name(s: &str) -> (res: Option<AppName>)
    ensures
        res == app_named(s@),
{
    if str_eq(s, "probiot_bot") {
        Some(AppName::ProbiotBot)
    } else if str_eq(s, "w3a_bot") {
        Some(AppName::W3ABot)
    } else if str_eq(s, "w3a_web") {
        Some(AppName::W3AWeb)
    } else if str_eq(s, "the_viper_room") {
        Some(AppName::TheViperRoom)
    } else if str_eq(s, "the_viper_room_bot") {
        Some(AppName::TheViperRoomBot)
    } else if str_eq(s, "blacksmith_web") {
        Some(AppName::BlacksmithWeb)
    } else if str_eq(s, "groot_bot") {
        Some(AppName::GrootBot)
    } else if str_eq(s, "stat_bot") {
        Some(AppName::StatBot)
    } else if str_eq(s, "uniframe_studio") {
        Some(AppName::UniframeStudio)
    } else if str_eq(s, "agent_davon") {
        Some(AppName::AgentDavon)
    } else {
        None
    }
}

/// The application a web request names; an unknown name means the
/// Blacksmith web application.
pub fn requested_app(s: &str) -> (res: AppName)
    ensures
        res == match app_named(s@) {
            Some(a) => a,
            None => AppName::BlacksmithWeb,
        },
{
    match parse_app_name(s) {
        Some(a) => a,
        None => AppName::BlacksmithWeb,
    }
}

/// Reading an application's name gives the application back.
pub proof fn lemma_app_name_round_trip(app: AppName)
    ensures
        app_named(app_name_str(app)) == Some(app),
{
    reveal_strlit("probiot_bot");
    reveal_strlit("w3a_bot");
    reveal_strlit("w3a_web");
    reveal_strlit("the_viper_room");
    reveal_strlit("the_viper_room_bot");
    reveal_strlit("blacksmith_web");
    reveal_strlit("groot_bot");
    reveal_strlit("stat_bot");
    reveal_strlit("uniframe_studio");
    reveal_strlit("agent_davon");
    assert("w3a_bot"@[0] != "probiot_bot"@[0]);
    assert("w3a_web"@[0] != "probiot_bot"@[0]);
    assert("w3a_web"@[4] != "w3a_bot"@[4]);
    assert("the_viper_room"@[0] != "probiot_bot"@[0]);
    assert("the_viper_room"@[0] != "w3a_bot"@[0]);
    assert("the_viper_room"@[0] != "w3a_web"@[0]);
    assert("the_viper_room_bot"@[0] != "probiot_bot"@[0]);
    assert("the_viper_room_bot"@[0] != "w3a_bot"@[0]);
    assert("the_viper_room_bot"@[0] != "w3a_web"@[0]);
    assert("the_viper_room_bot"@.len() != "the_viper_room"@.len());
    assert("blacksmith_web"@[0] != "probiot_bot"@[0]);
    assert("blacksmith_web"@[0] != "w3a_bot"@[0]);
    assert("blacksmith_web"@[0] != "w3a_web"@[0]);
    assert("blacksmith_web"@[0] != "the_viper_room"@[0]);
    assert("blacksmith_web"@[0] != "the_viper_room_bot"@[0]);
    assert("groot_bot"@[0] != "probiot_bot"@[0]);
    assert("groot_bot"@[0] != "w3a_bot"@[0]);
    assert("groot_bot"@[0] != "w3a_web"@[0]);
    assert("groot_bot"@[0] != "the_viper_room"@[0]);
    assert("groot_bot"@[0] != "the_viper_room_bot"@[0]);
    assert("groot_bot"@[0] != "blacksmith_web"@[0]);
    assert("stat_bot"@[0] != "probiot_bot"@[0]);
    assert("stat_bot"@[0] != "w3a_bot"@[0]);
    assert("stat_bot"@[0] != "w3a_web"@[0]);
    assert("stat_bot"@[0] != "the_viper_room"@[0]);
    assert("stat_bot"@[0] != "the_viper_room_bot"@[0]);
    assert("stat_bot"@[0] != "blacksmith_web"@[0]);
    assert("stat_bot"@[0] != "groot_bot"@[0]);
    assert("uniframe_studio"@[0] != "probiot_bot"@[0]);
    assert("uniframe_studio"@[0] != "w3a_bot"@[0]);
    assert("uniframe_studio"@[0] != "w3a_web"@[0]);
    assert("uniframe_studio"@[0] != "the_viper_room"@[0]);
    assert("uniframe_studio"@[0] != "the_viper_room_bot"@[0]);
    assert("uniframe_studio"@[0] != "blacksmith_web"@[0]);
    assert("uniframe_studio"@[0] != "groot_bot"@[0]);
    assert("uniframe_studio"@[0] != "stat_bot"@[0]);
    assert("agent_davon"@[0] != "probiot_bot"@[0]);
    assert("agent_davon"@[0] != "w3a_bot"@[0]);
    assert("agent_davon"@[0] != "w3a_web"@[0]);
    assert("agent_davon"@[0] != "the_viper_room"@[0]);
    assert("agent_davon"@[0] != "the_viper_room_bot"@[0]);
    assert("agent_davon"@[0] != "blacksmith_web"@[0]);
    assert("agent_davon"@[0] != "groot_bot"@[0]);
    assert("agent_davon"@[0] != "stat_bot"@[0]);
    assert("agent_davon"@[0] != "uniframe_studio"@[0]);
}

/// The system role used when an application's role file cannot be read.
pub fn role_fallback(fallback: Option<&str>) -> (res: String)
    ensures
        res@ == match fallback {
            Some(f) => f@,
            None => "You are a helpful assistant"@,
        },
{
    match fallback {
        Some(f) => copy_str(f),
        None => copy_str("You are a helpful assistant"),
    }
}

/// The families of system messages, each kept in a directory of its own.
#[derive(Clone, Copy, Debug, PartialEq, Eq, Structural)]
pub enum MessageFamily {
    Common,
    ProbiotBot,
    TheViperRoom,
    TheViperRoomBot,
    W3ABot,
    GrootBot,
    W3A,
    AgentDavon,
}

pub open spec fn message_dir(f: MessageFamily) -> Seq<char> {
    match f {
        MessageFamily::Common => "common_res/messages/common"@,
        MessageFamily::ProbiotBot => "common_res/messages/probiot_bot"@,
        MessageFamily::TheViperRoom => "common_res/messages/the_viper_room"@,
        MessageFamily::TheViperRoomBot => "common_res/messages/the_viper_room_bot"@,
        MessageFamily::W3ABot => "common_res/messages/w3a_bot"@,
        MessageFamily::GrootBot => "common_res/messages/groot_bot"@,
        MessageFamily::W3A => "common_res/w3a"@,
        MessageFamily::AgentDavon => "common_res/messages/agent_davon"@,
    }
}

fn message_dir_exec(f: MessageFamily) -> (res: &'static str)
    ensures
        res@ == message_dir(f),
{
    match f {
        MessageFamily::Common => "common_res/messages/common",
        MessageFamily::ProbiotBot => "common_res/messages/probiot_bot",
        MessageFamily::TheViperRoom => "common_res/messages/the_viper_room",
        MessageFamily::TheViperRoomBot => "common_res/messages/the_viper_room_bot",
        MessageFamily::W3ABot => "common_res/messages/w3a_bot",
        MessageFamily::GrootBot => "common_res/messages/groot_bot",
        MessageFamily::W3A => "common_res/w3a",
        MessageFamily::AgentDavon => "common_res/messages/agent_davon",
    }
}

/// The file of system message `name` of a family: `<dir>/<name>.txt`.
pub fn message_file_path(family: MessageFamily, name: &str) -> (res: String)
    ensures
        res@ == path_join(message_dir(family), name@ + ".txt"@),
{
    let dir = chars_of(message_dir_exec(family));
    let mut file = chars_of(name);
    push_str(&mut file, ".txt");
    let p = path_join_chars(&dir, &file);
    string_from_chars(&p)
}

/// The text shown when a system message cannot be read.
pub open spec fn fallback_message() -> Seq<char> {
    "Извините, произошла техническая ошибка. Пожалуйста, попробуйте позже."@
}

/// A system message: the file's text, or the fallback text where the file is
/// missing or unreadable (`None`).
pub fn message_or_fallback(read: Option<String>) -> (res: String)
    ensures
        res@ == match read {
            Some(t) => t@,
            None => fallback_message(),
        },
{
    match read {
        Some(t) => t,
        None => copy_str("Извините, произошла техническая ошибка. Пожалуйста, попробуйте позже."),
    }
}

/// The callback data of the "voice the answer" button.
pub fn tts_callback_data(chat_id: i64, message_id: &str) -> (res: String)
    ensures
        res@ == "tts:"@ + signed_decimal(chat_id as int) + ":"@ + message_id@,
{
    let mut out: Vec<char> = Vec::new();
    push_str(&mut out, "tts:");
    push_signed(&mut out, chat_id);
    push_str(&mut out, ":");
    push_str(&mut out, message_id);
    string_from_chars(&out)
}

/// Whether a group message speaks to the bot: it replies to the bot, its
/// text holds `@` and the bot's username, or it mentions the bot's account.
/// (A plain mention that equals `@` and the username is found by the text
/// search already.)
pub open spec fn addressed_to_bot(
    replies_to_bot: bool,
    text: Option<Seq<char>>,
    bot_username: Seq<char>,
    mentioned_user_ids: Seq<u64>,
    bot_id: u64,
) -> bool {
    ||| replies_to_bot
    ||| (text matches Some(t) && contains(t, "@"@ + bot_username))
    ||| mentioned_user_ids.contains(bot_id)
}

/// Whether a group message speaks to the bot; `mentioned_user_ids` are the
/// accounts of the message's text mentions.
pub fn is_bot_addressed(
    replies_to_bot: bool,
    text: Option<&str>,
    bot_username: &str,
    mentioned_user_ids: &Vec<u64>,
    bot_id: u64,
) -> (res: bool)
    ensures
        res == addressed_to_bot(
            replies_to_bot,
            match text {
                Some(t) => Some(t@),
                None => None,
            },
            bot_username@,
            mentioned_user_ids@,
            bot_id,
        ),
{
    if replies_to_bot {
        return true;
    }
    match text {
        Some(t) => {
            let tc = chars_of(t);
            let mut mention: Vec<char> = Vec::new();
            push_str(&mut mention, "@");
            push_str(&mut mention, bot_username);
            if contains_exec(&tc, &mention) {
                return true;
            }
        },
        None => {},
    }
    let mut i: usize = 0;
    while i < mentioned_user_ids.len()
        invariant
            i <= mentioned_user_ids@.len(),
            forall|j: int| 0 <= j < i ==> mentioned_user_ids@[j] != bot_id,
        decreases mentioned_user_ids.len() - i,
    {
        if mentioned_user_ids[i] == bot_id {
            assert(mentioned_user_ids@[i as int] == bot_id);
            return true;
        }
        i = i + 1;
    }
    false
}


/// The address of a Bot API method: `https://api.telegram.org/bot<token>/<method>`.
pub fn bot_api_url(token: &str, method: &str) -> (res: String)
    ensures
        res@ == "https://api.telegram.org/bot"@ + token@ + "/"@ + method@,
{
    let mut out: Vec<char> = Vec::new();
    push_str(&mut out, "https://api.telegram.org/bot");
    push_str(&mut out, token);
    push_str(&mut out, "/");
    push_str(&mut out, method);
    string_from_chars(&out)
}

/// The download address of a file of the Bot API.
pub fn bot_file_url(token: &str, file_path: &str) -> (res: String)
    ensures
        res@ == "https://api.telegram.org/file/bot"@ + token@ + "/"@ + file_path@,
{
    let mut out: Vec<char> = Vec::new();
    push_str(&mut out, "https://api.telegram.org/file/bot");
    push_str(&mut out, token);
    push_str(&mut out, "/");
    push_str(&mut out, file_path);
    string_from_chars(&out)
}

} // verus!
