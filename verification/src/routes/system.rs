//! The settings of the assistant's command line on this machine, and their backups.

use vstd::prelude::*;
use crate::calendar;
use crate::error::{self, Reply};
use crate::json::{self, Json, JsonView};
use crate::order;
use crate::text;

verus! {

broadcast use crate::json::lemma_elements_view;

/// A path with one more component.
pub open spec fn joined(base: Seq<char>, name: Seq<char>) -> Seq<char> {
    if base.len() == 0 || base.last() == '/' {
        base + name
    } else {
        base + "/"@ + name
    }
}

fn join(base: &str, name: &str) -> (r: String)
    ensures
        r@ == joined(base@, name@),
{
    proof {
        reveal_strlit("/");
        assert(text::ends(base@, "/"@) == (base@.len() > 0 && base@.last() == '/')) by {
            if base@.len() > 0 {
                assert(base@.subrange(base@.len() - 1, base@.len() as int) =~= seq![base@.last()]);
                if base@.last() == '/' {
                    assert(seq![base@.last()] =~= "/"@);
                } else {
                    assert(seq![base@.last()][0] != "/"@[0]);
                }
            }
        }
    }
    if base.is_empty() || text::ends_with(base, "/") {
        base.to_owned().concat(name)
    } else {
        base.to_owned().concat("/").concat(name)
    }
}

/// The assistant whose command line is set up to use the gateway: the name of its program, and the
/// name that it goes by in messages.
pub struct Assistant {
    pub program: String,
    pub title: String,
}

/// The directory of the assistant's command line in a home directory.
pub fn claude_dir(assistant: &Assistant, home: Option<&str>) -> (r: Option<String>)
    ensures
        json::some_string(r) == (match home {
            Some(h) => Some(joined(h@, "."@ + assistant.program@)),
            None => None,
        }),
{
    match home {
        Some(h) => {
            let name = ".".to_owned().concat(assistant.program.as_str());
            Some(join(h, name.as_str()))
        },
        None => None,
    }
}

/// The path of the settings in a home directory.
pub open spec fn settings_text(program: Seq<char>, home: Option<Seq<char>>) -> Option<Seq<char>> {
    match home {
        Some(h) => Some(joined(joined(h, "."@ + program), "settings.json"@)),
        None => None,
    }
}

/// The path of the settings of the assistant's command line in a home directory.
pub fn settings_path(assistant: &Assistant, home: Option<&str>) -> (r: Option<String>)
    ensures
        json::some_string(r) == settings_text(assistant.program@, json::some_text(home)),
{
    match claude_dir(assistant, home) {
        Some(d) => Some(join(d.as_str(), "settings.json")),
        None => None,
    }
}

/// The directory of the backups in the data directory.
pub fn backups_dir(assistant: &Assistant, data_dir: &str) -> (r: String)
    ensures
        r@ == joined(data_dir@, assistant.program@ + "-backups"@),
{
    let name = assistant.program.clone().concat("-backups");
    join(data_dir, name.as_str())
}

/// Which tools are installed: the assistant's own, and those of others.
pub struct InstalledTools {
    pub vscode: bool,
    pub assistant: bool,
    pub gemini: bool,
    pub opencode: bool,
    pub codex: bool,
}

/// The reply that says which tools are installed.
pub fn get_installed_tools(assistant: &Assistant, tools: &InstalledTools) -> (r: Json)
    ensures
        r@ == JsonView::Object(
            map![
                "vscode"@ => JsonView::Bool(tools.vscode),
                assistant.program@ => JsonView::Bool(tools.assistant),
                "gemini"@ => JsonView::Bool(tools.gemini),
                "opencode"@ => JsonView::Bool(tools.opencode),
                "codex"@ => JsonView::Bool(tools.codex),
            ],
        ),
{
    Json::object().with("vscode", Json::Bool(tools.vscode)).with(
        assistant.program.as_str(),
        Json::Bool(tools.assistant),
    ).with("gemini", Json::Bool(tools.gemini)).with("opencode", Json::Bool(tools.opencode)).with(
        "codex",
        Json::Bool(tools.codex),
    )
}

/// What came of looking for the settings file.
pub enum SettingsFile {
    NoHome,
    Missing,
    Unreadable(String),
    Content(String),
}

/// The reply with the content of a settings file, given what it says as JSON.
pub open spec fn content_found(says: Option<JsonView>) -> JsonView {
    match says {
        Some(v) => JsonView::Object(map!["exists"@ => JsonView::Bool(true), "settings"@ => v]),
        None => JsonView::Object(
            map![
                "exists"@ => JsonView::Bool(true),
                "settings"@ => JsonView::Null,
                "error"@ => JsonView::Text("Invalid JSON"@),
            ],
        ),
    }
}

/// The reply with the content of a settings file, given what it says as JSON.
pub fn show_content(says: Option<Json>) -> (r: Json)
    ensures
        r@ == content_found(
            match says {
                Some(v) => Some(v@),
                None => None,
            },
        ),
{
    match says {
        Some(v) => Json::object().with("exists", Json::Bool(true)).with("settings", v),
        None => Json::object().with("exists", Json::Bool(true)).with("settings", Json::Null).with(
            "error",
            Json::text("Invalid JSON"),
        ),
    }
}

/// The reply with settings.
pub open spec fn settings_found(file: SettingsFile) -> JsonView {
    match file {
        SettingsFile::Content(s) => content_found(json::parsed(s@)),
        SettingsFile::Unreadable(e) => JsonView::Object(
            map![
                "exists"@ => JsonView::Bool(true),
                "settings"@ => JsonView::Null,
                "error"@ => JsonView::Text("Failed to read: "@ + e@),
            ],
        ),
        SettingsFile::Missing => JsonView::Object(
            map!["exists"@ => JsonView::Bool(false), "settings"@ => JsonView::Null],
        ),
        SettingsFile::NoHome => JsonView::Object(
            map![
                "exists"@ => JsonView::Bool(false),
                "settings"@ => JsonView::Null,
                "error"@ => JsonView::Text("Cannot determine home directory"@),
            ],
        ),
    }
}

/// The reply with the settings of the assistant's command line.
pub fn get_claude_settings(file: &SettingsFile) -> (r: Json)
    ensures
        r@ == settings_found(*file),
{
    match file {
        SettingsFile::Content(s) => show_content(json::parse(s.as_str())),
        SettingsFile::Unreadable(e) => Json::object().with("exists", Json::Bool(true)).with(
            "settings",
            Json::Null,
        ).with("error", Json::Text("Failed to read: ".to_owned().concat(e.as_str()))),
        SettingsFile::Missing => Json::object().with("exists", Json::Bool(false)).with(
            "settings",
            Json::Null,
        ),
        SettingsFile::NoHome => Json::object().with("exists", Json::Bool(false)).with(
            "settings",
            Json::Null,
        ).with("error", Json::text("Cannot determine home directory")),
    }
}

/// What a text holds as settings; an empty object where it is no JSON.
pub open spec fn settings_in(content: Option<Seq<char>>) -> JsonView {
    match content {
        Some(s) => match json::parsed(s) {
            Some(v) => v,
            None => JsonView::Object(Map::empty()),
        },
        None => JsonView::Object(Map::empty()),
    }
}

fn read_settings(content: Option<&str>) -> (r: Json)
    ensures
        r@ == settings_in(json::some_text(content)),
{
    match content {
        Some(s) => match json::parse(s) {
            Some(v) => v,
            None => Json::object(),
        },
        None => Json::object(),
    }
}

/// The environment in settings; empty where they hold none.
pub open spec fn env_in(settings: JsonView) -> Map<Seq<char>, JsonView> {
    match json::field(settings, "env"@) {
        Some(JsonView::Object(m)) => m,
        _ => Map::empty(),
    }
}

/// A map with a key set to a text, or without the key where there is none.
pub open spec fn set_or_removed(
    m: Map<Seq<char>, JsonView>,
    key: Seq<char>,
    v: Option<Seq<char>>,
) -> Map<Seq<char>, JsonView> {
    match v {
        Some(s) => m.insert(key, JsonView::Text(s)),
        None => m.remove(key),
    }
}

/// The environment after a change: the gateway and its key are set, an older token goes, and each
/// default model is set or goes.
pub open spec fn changed_env(env: Map<Seq<char>, JsonView>, body: JsonView) -> Map<
    Seq<char>,
    JsonView,
> {
    let gateway = env.remove("ANTHROPIC_AUTH_TOKEN"@).insert(
        "ANTHROPIC_BASE_URL"@,
        JsonView::Text(json::text_in(json::field(body, "apiBaseUrl"@))->0),
    ).insert(
        "ANTHROPIC_API_KEY"@,
        JsonView::Text(json::text_in(json::field(body, "apiKey"@))->0),
    );
    let opus = set_or_removed(
        gateway,
        "ANTHROPIC_DEFAULT_OPUS_MODEL"@,
        json::text_in(json::field(body, "opusModel"@)),
    );
    let sonnet = set_or_removed(
        opus,
        "ANTHROPIC_DEFAULT_SONNET_MODEL"@,
        json::text_in(json::field(body, "sonnetModel"@)),
    );
    set_or_removed(
        sonnet,
        "ANTHROPIC_DEFAULT_HAIKU_MODEL"@,
        json::text_in(json::field(body, "haikuModel"@)),
    )
}

/// The settings after a change: their environment is changed, all else stays. Settings that are no
/// object stay as they are.
pub open spec fn changed_settings(settings: JsonView, body: JsonView) -> JsonView {
    match settings {
        JsonView::Object(m) => JsonView::Object(
            m.insert("env"@, JsonView::Object(changed_env(env_in(settings), body))),
        ),
        other => other,
    }
}

/// The refusal of a change.
pub open spec fn unsuccessful(status: u16, message: Seq<char>) -> (u16, JsonView) {
    (
        status,
        JsonView::Object(
            map!["success"@ => JsonView::Bool(false), "error"@ => JsonView::Text(message)],
        ),
    )
}

fn refuse_change(status: u16, message: &str) -> (r: Reply)
    ensures
        r@ == unsuccessful(status, message@),
{
    Reply {
        status,
        body: Json::object().with("success", Json::Bool(false)).with("error", Json::text(message)),
    }
}

fn set_or_remove(env: Json, key: &str, v: Option<&str>) -> (r: Json)
    requires
        env@ is Object,
    ensures
        r@ == JsonView::Object(set_or_removed(env@->Object_0, key@, json::some_text(v))),
{
    match v {
        Some(s) => env.with(key, Json::text(s)),
        None => env.without(key),
    }
}

/// Changes settings so that they use the gateway.
pub fn merge_settings(existing: Json, body: &Json) -> (r: Json)
    requires
        json::text_in(json::field(body@, "apiBaseUrl"@)) is Some,
        json::text_in(json::field(body@, "apiKey"@)) is Some,
    ensures
        r@ == changed_settings(existing@, body@),
{
    let (base_url, api_key) = match (body.str_at("apiBaseUrl"), body.str_at("apiKey")) {
        (Some(u), Some(k)) => (u, k),
        _ => {
            return existing;
        },
    };
    let old_env = match existing.get("env") {
        Some(v) => match v {
            Json::Object(_) => v.without("ANTHROPIC_AUTH_TOKEN"),
            _ => Json::object(),
        },
        None => Json::object(),
    };
    assert(old_env@ is Object && old_env@->Object_0 =~= env_in(existing@).remove(
        "ANTHROPIC_AUTH_TOKEN"@,
    ));
    let gateway = old_env.with("ANTHROPIC_BASE_URL", Json::text(base_url)).with(
        "ANTHROPIC_API_KEY",
        Json::text(api_key),
    );
    let opus = set_or_remove(gateway, "ANTHROPIC_DEFAULT_OPUS_MODEL", body.str_at("opusModel"));
    let sonnet = set_or_remove(opus, "ANTHROPIC_DEFAULT_SONNET_MODEL", body.str_at("sonnetModel"));
    let env = set_or_remove(sonnet, "ANTHROPIC_DEFAULT_HAIKU_MODEL", body.str_at("haikuModel"));
    match existing {
        Json::Object(m) => Json::Object(m).with("env", env),
        other => other,
    }
}

/// Settings to be written, and their text.
pub struct NewSettings {
    pub settings: Json,
    pub content: String,
}

/// What is answered to a change before anything is written.
pub open spec fn change_refusal(
    title: Seq<char>,
    body: JsonView,
    has_path: bool,
) -> Option<(u16, JsonView)> {
    if json::text_in(json::field(body, "apiBaseUrl"@)) is None {
        Some((400u16, error::plain_error("Missing required field: apiBaseUrl"@)))
    } else if json::text_in(json::field(body, "apiKey"@)) is None {
        Some((400u16, error::plain_error("Missing required field: apiKey"@)))
    } else if !has_path {
        Some(unsuccessful(500, "Cannot determine "@ + title + " settings path"@))
    } else {
        None
    }
}

/// Changes the settings of the assistant's command line so that it uses the gateway. `content` is
/// what the settings file holds, if there is one that can be read.
///
/// The new text, read again, says the new settings, where these are read back from their notation.
pub fn apply_claude_settings(
    assistant: &Assistant,
    body: &Json,
    has_path: bool,
    content: Option<&str>,
) -> (r: Result<NewSettings, Reply>)
    ensures
        ({
            let refusal = change_refusal(assistant.title@, body@, has_path);
            let new = changed_settings(settings_in(json::some_text(content)), body@);
            match r {
                Ok(s) => refusal is None && s.settings@ == new && s.content@ == json::pretty(new)
                    && (json::reads_back(new) ==> json::parsed(s.content@) == Some(new)),
                Err(e) => refusal == Some(e@),
            }
        }),
{
    if body.str_at("apiBaseUrl").is_none() {
        return Err(error::simple_error("Missing required field: apiBaseUrl", 400));
    }
    if body.str_at("apiKey").is_none() {
        return Err(error::simple_error("Missing required field: apiKey", 400));
    }
    if !has_path {
        let message = "Cannot determine ".to_owned().concat(assistant.title.as_str()).concat(
            " settings path",
        );
        return Err(refuse_change(500, message.as_str()));
    }
    let settings = merge_settings(read_settings(content), body);
    match json::render_pretty(&settings) {
        Ok(content) => Ok(NewSettings { settings, content }),
        Err(e) => {
            let message = "Failed to serialize settings: ".to_owned().concat(e.as_str());
            Err(refuse_change(500, message.as_str()))
        },
    }
}

/// The reply to a change that was written.
pub fn settings_applied(new: NewSettings, backup_path: &Option<String>) -> (r: Json)
    ensures
        r@ == JsonView::Object(
            map![
                "success"@ => JsonView::Bool(true),
                "backupPath"@ => json::text_or_null(json::some_string(*backup_path)),
                "settings"@ => new.settings@,
            ],
        ),
{
    Json::object().with("success", Json::Bool(true)).with(
        "backupPath",
        json::optional_text(backup_path),
    ).with("settings", new.settings)
}

/// The reply where the directory of the backups could not be made.
pub fn backup_dir_failed(error: &str) -> (r: Reply)
    ensures
        r@ == unsuccessful(500, "Failed to create backup directory: "@ + error@),
{
    let message = "Failed to create backup directory: ".to_owned().concat(error);
    refuse_change(500, message.as_str())
}

/// The reply where the settings could not be written.
pub fn settings_write_failed(error: &str) -> (r: Reply)
    ensures
        r@ == unsuccessful(500, "Failed to write settings: "@ + error@),
{
    let message = "Failed to write settings: ".to_owned().concat(error);
    refuse_change(500, message.as_str())
}

/// A change of the settings leaves alone what it does not speak of, drops the older token, and made
/// twice is the same as made once.
pub proof fn lemma_change_is_narrow(settings: JsonView, body: JsonView)
    ensures
        forall|key: Seq<char>| key != "env"@ ==> #[trigger] json::field(
            changed_settings(settings, body),
            key,
        ) == json::field(settings, key),
        !changed_env(env_in(settings), body).dom().contains("ANTHROPIC_AUTH_TOKEN"@),
        forall|key: Seq<char>|
            key != "ANTHROPIC_AUTH_TOKEN"@ && key != "ANTHROPIC_BASE_URL"@ && key
                != "ANTHROPIC_API_KEY"@ && key != "ANTHROPIC_DEFAULT_OPUS_MODEL"@ && key
                != "ANTHROPIC_DEFAULT_SONNET_MODEL"@ && key != "ANTHROPIC_DEFAULT_HAIKU_MODEL"@
                ==> #[trigger] json::field(
                JsonView::Object(changed_env(env_in(settings), body)),
                key,
            ) == json::field(JsonView::Object(env_in(settings)), key),
        changed_settings(changed_settings(settings, body), body) == changed_settings(
            settings,
            body,
        ),
{
    reveal_strlit("ANTHROPIC_AUTH_TOKEN");
    reveal_strlit("ANTHROPIC_BASE_URL");
    reveal_strlit("ANTHROPIC_API_KEY");
    reveal_strlit("ANTHROPIC_DEFAULT_OPUS_MODEL");
    reveal_strlit("ANTHROPIC_DEFAULT_SONNET_MODEL");
    reveal_strlit("ANTHROPIC_DEFAULT_HAIKU_MODEL");
    assert("ANTHROPIC_AUTH_TOKEN"@.len() == 20 && "ANTHROPIC_BASE_URL"@.len() == 18
        && "ANTHROPIC_API_KEY"@.len() == 17 && "ANTHROPIC_DEFAULT_OPUS_MODEL"@.len() == 28
        && "ANTHROPIC_DEFAULT_SONNET_MODEL"@.len() == 30 && "ANTHROPIC_DEFAULT_HAIKU_MODEL"@.len()
        == 29);
    if let JsonView::Object(m) = settings {
        let env = changed_env(env_in(settings), body);
        let once = changed_settings(settings, body);
        assert(env_in(once) == env);
        assert(changed_env(env, body) =~= env);
        let twice = changed_settings(once, body);
        assert(twice->Object_0 =~= once->Object_0);
    }
}

/// Whether a name is that of a backup.
pub open spec fn is_backup(name: Seq<char>) -> bool {
    text::begins(name, "settings.json."@)
}

/// Whether a name may be asked for as that of a backup: it stays in the directory of the backups.
pub open spec fn may_be_asked(name: Seq<char>) -> bool {
    is_backup(name) && !text::occurs(name, "/"@) && !text::occurs(name, ".."@)
}

fn is_valid_name(name: &str) -> (r: bool)
    ensures
        r == may_be_asked(name@),
{
    text::starts_with(name, "settings.json.") && !text::contains(name, "/") && !text::contains(
        name,
        "..",
    )
}

/// The name of a backup that is made at a time.
pub fn backup_name(secs: u64) -> (r: String)
    ensures
        r@ == "settings.json."@ + text::decimal(secs as nat),
        may_be_asked(r@),
{
    let r = "settings.json.".to_owned().concat(text::decimal_u64(secs).as_str());
    proof {
        lemma_backup_name(secs as nat);
    }
    r
}

/// The digits of a number are no other characters.
proof fn lemma_decimal_is_digits(n: nat)
    ensures
        forall|i: int|
            0 <= i < text::decimal(n).len() ==> (#[trigger] text::decimal(n)[i]) != '/'
                && text::decimal(n)[i] != '.',
        text::decimal(n).len() > 0,
    decreases n,
{
    if n >= 10 {
        lemma_decimal_is_digits(n / 10);
    }
}

/// The name of a backup that is made at a time may be asked for.
proof fn lemma_backup_name(secs: nat)
    ensures
        may_be_asked("settings.json."@ + text::decimal(secs)),
{
    reveal_strlit("settings.json.");
    reveal_strlit("/");
    reveal_strlit("..");
    let prefix = "settings.json."@;
    let digits = text::decimal(secs);
    let name = prefix + digits;
    lemma_decimal_is_digits(secs);
    assert(name.subrange(0, 14) =~= prefix);
    assert(text::begins(name, prefix));
    assert forall|i: int| !#[trigger] text::occurs_at(name, "/"@, i) by {
        if text::occurs_at(name, "/"@, i) {
            assert(name.subrange(i, i + 1)[0] == "/"@[0]);
            assert(name[i] == '/');
            if i >= 14 {
                assert(digits[i - 14] == '/');
            }
        }
    }
    assert forall|i: int| !#[trigger] text::occurs_at(name, ".."@, i) by {
        if text::occurs_at(name, ".."@, i) {
            assert(name.subrange(i, i + 2)[0] == ".."@[0]);
            assert(name.subrange(i, i + 2)[1] == ".."@[1]);
            assert(name[i] == '.' && name[i + 1] == '.');
            if i >= 13 {
                assert(digits[i + 1 - 14] == '.');
            }
        }
    }
}

/// The backups among the names of a directory.
pub open spec fn backups_among(names: Seq<Seq<char>>) -> Seq<Seq<char>> {
    names.filter(|n: Seq<char>| is_backup(n))
}

/// The backups that go where only `keep` are kept: the first ones of all, in the order of their
/// names.
pub open spec fn pruned(sorted: Seq<Seq<char>>, keep: nat) -> Seq<Seq<char>> {
    if sorted.len() <= keep {
        seq![]
    } else {
        sorted.take(sorted.len() - keep)
    }
}

/// Which backups of a directory go where only `keep` are kept.
pub fn prune_backups(names: &Vec<String>, keep: usize) -> (r: Vec<String>)
    ensures
        exists|sorted: Seq<Seq<char>>| #[trigger]
            order::ascending(sorted) && sorted.to_multiset() == backups_among(
                text::texts(names@),
            ).to_multiset() && text::texts(r@) == pruned(sorted, keep as nat),
{
    let ghost is = |n: Seq<char>| is_backup(n);
    let ghost all = text::texts(names@);
    let mut found: Vec<String> = Vec::new();
    let mut i: usize = 0;
    assert(text::texts(found@) =~= all.take(0).filter(is)) by {
        reveal(Seq::filter);
    }
    while i < names.len()
        invariant
            i <= names@.len(),
            all == text::texts(names@),
            is == (|n: Seq<char>| is_backup(n)),
            text::texts(found@) == all.take(i as int).filter(is),
        decreases names@.len() - i,
    {
        let ghost before = found@;
        let ghost part = all.take(i + 1);
        assert(part.drop_last() =~= all.take(i as int));
        assert(part.last() == names@[i as int]@);
        if text::starts_with(names[i].as_str(), "settings.json.") {
            let name = names[i].clone();
            found.push(name);
            assert(text::texts(found@) =~= text::texts(before).push(name@));
        }
        assert(text::texts(found@) =~= part.filter(is)) by {
            reveal(Seq::filter);
        }
        i = i + 1;
    }
    assert(all.take(i as int) =~= all);
    let mut sorted = order::sort_texts(found);
    let ghost order = text::texts(sorted@);
    if sorted.len() <= keep {
        let none: Vec<String> = Vec::new();
        assert(text::texts(none@) =~= pruned(order, keep as nat));
        none
    } else {
        let gone: usize = sorted.len() - keep;
        sorted.truncate(gone);
        assert(text::texts(sorted@) =~= pruned(order, keep as nat));
        sorted
    }
}

/// No backup that goes is newer by name than one that stays, and at most `keep` stay.
pub proof fn lemma_newest_backups_stay(sorted: Seq<Seq<char>>, keep: nat)
    requires
        order::ascending(sorted),
    ensures
        pruned(sorted, keep) == sorted.take(pruned(sorted, keep).len() as int),
        sorted.len() - pruned(sorted, keep).len() == (if sorted.len() < keep {
            sorted.len()
        } else {
            keep
        }),
        forall|i: int, j: int|
            0 <= i < pruned(sorted, keep).len() <= j < sorted.len() ==> order::text_le(
                #[trigger] pruned(sorted, keep)[i],
                #[trigger] sorted[j],
            ),
{
    assert(sorted.take(0) =~= seq![]);
}

/// A file in the directory of the backups.
pub struct BackupFile {
    pub name: String,
    pub path: String,
    pub modified: Option<u64>,
    pub size: u64,
}

/// When a file was changed, in UTC.
pub open spec fn time_text(modified: Option<u64>) -> Seq<char> {
    match modified {
        Some(secs) => {
            let date = calendar::date_of((secs / 86400) as nat);
            let t = (secs % 86400) as nat;
            text::padded(date.0, 4) + "-"@ + text::padded(date.1, 2) + "-"@ + text::padded(
                date.2,
                2,
            ) + " "@ + text::padded(t / 3600, 2) + ":"@ + text::padded(t % 3600 / 60, 2) + ":"@
                + text::padded(t % 60, 2)
        },
        None => "unknown"@,
    }
}

fn write_time(modified: Option<u64>) -> (r: String)
    ensures
        r@ == time_text(modified),
{
    match modified {
        Some(secs) => {
            let date = calendar::days_to_ymd(secs / 86400);
            let t: u64 = secs % 86400;
            text::padded_u64(date.0, 4).concat("-").concat(
                text::padded_u64(date.1, 2).as_str(),
            ).concat("-").concat(text::padded_u64(date.2, 2).as_str()).concat(" ").concat(
                text::padded_u64(t / 3600, 2).as_str(),
            ).concat(":").concat(text::padded_u64(t % 3600 / 60, 2).as_str()).concat(":").concat(
                text::padded_u64(t % 60, 2).as_str(),
            )
        },
        None => "unknown".to_owned(),
    }
}

/// What is reported of a backup.
pub open spec fn backup_entry(f: BackupFile) -> JsonView {
    JsonView::Object(
        map![
            "name"@ => JsonView::Text(f.name@),
            "path"@ => JsonView::Text(f.path@),
            "timestamp"@ => JsonView::Text(time_text(f.modified)),
            "size"@ => JsonView::Int(f.size as int),
        ],
    )
}

/// The backups among the files of a directory.
pub open spec fn backup_files(files: Seq<BackupFile>) -> Seq<BackupFile> {
    files.filter(|f: BackupFile| is_backup(f.name@))
}

/// Whether files stand in descending order of their names.
pub open spec fn newest_first(files: Seq<BackupFile>) -> bool {
    forall|i: int, j: int|
        0 <= i < j < files.len() ==> order::text_le(
            (#[trigger] files[j]).name@,
            (#[trigger] files[i]).name@,
        )
}

fn insert_file(sorted: &mut Vec<BackupFile>, file: BackupFile)
    requires
        newest_first(old(sorted)@),
    ensures
        newest_first(final(sorted)@),
        final(sorted)@.to_multiset() == old(sorted)@.to_multiset().insert(file),
{
    let mut i: usize = 0;
    let ghost before = sorted@;
    while i < sorted.len() && !order::le(sorted[i].name.as_str(), file.name.as_str())
        invariant
            i <= sorted@.len(),
            sorted@ == before,
            forall|k: int|
                0 <= k < i ==> order::text_le(file.name@, (#[trigger] before[k]).name@),
        decreases sorted@.len() - i,
    {
        proof {
            order::lemma_text_le_total(file.name@, before[i as int].name@);
        }
        i = i + 1;
    }
    proof {
        assert forall|k: int| i <= k < before.len() implies order::text_le(
            (#[trigger] before[k]).name@,
            file.name@,
        ) by {
            if k > i {
                order::lemma_text_le_transitive(
                    before[k].name@,
                    before[i as int].name@,
                    file.name@,
                );
            }
        }
        vstd::seq_lib::to_multiset_insert(before, i as int, file);
    }
    sorted.insert(i, file);
    proof {
        let now = sorted@;
        assert forall|a: int, b: int| 0 <= a < b < now.len() implies order::text_le(
            (#[trigger] now[b]).name@,
            (#[trigger] now[a]).name@,
        ) by {
            if a < i && b < i {
                assert(now[a] == before[a] && now[b] == before[b]);
            } else if a < i && b == i {
                assert(now[a] == before[a]);
            } else if a < i {
                assert(now[a] == before[a] && now[b] == before[b - 1]);
            } else if a == i {
                assert(now[b] == before[b - 1]);
            } else {
                assert(now[a] == before[a - 1] && now[b] == before[b - 1]);
            }
        }
    }
}

/// The backups, those of the greatest names first. `files` are the files of the directory, if it
/// can be read.
pub fn list_claude_backups(files: Option<Vec<BackupFile>>) -> (r: Json)
    ensures
        match files {
            Some(all) => exists|sorted: Seq<BackupFile>| #[trigger]
                newest_first(sorted) && sorted.to_multiset() == backup_files(all@).to_multiset()
                    && r@ == JsonView::Array(
                    sorted.map_values(|f: BackupFile| backup_entry(f)),
                ),
            None => r@ == JsonView::Array(seq![]),
        },
{
    let all = match files {
        Some(all) => all,
        None => {
            let none: Vec<Json> = Vec::new();
            assert(json::elements_view(none@) =~= seq![]);
            return Json::Array(none);
        },
    };
    let ghost listed = all@;
    let ghost is = |f: BackupFile| is_backup(f.name@);
    let mut rest = all;
    let mut sorted: Vec<BackupFile> = Vec::new();
    proof {
        sorted@.to_multiset_ensures();
        listed.filter(is).to_multiset_ensures();
        assert(sorted@.to_multiset().add(listed.filter(is).to_multiset())
            =~= listed.filter(is).to_multiset());
    }
    while rest.len() > 0
        invariant
            newest_first(sorted@),
            is == (|f: BackupFile| is_backup(f.name@)),
            sorted@.to_multiset().add(rest@.filter(is).to_multiset()) == listed.filter(
                is,
            ).to_multiset(),
        decreases rest@.len(),
    {
        let ghost before = rest@;
        let ghost done = sorted@;
        let file = rest.pop().unwrap();
        proof {
            reveal(Seq::filter);
            assert(rest@ =~= before.drop_last());
            rest@.filter(is).to_multiset_ensures();
        }
        if text::starts_with(file.name.as_str(), "settings.json.") {
            insert_file(&mut sorted, file);
            proof {
                assert(before.filter(is) =~= rest@.filter(is).push(file));
                assert(done.to_multiset().add(rest@.filter(is).to_multiset().insert(file))
                    =~= done.to_multiset().insert(file).add(rest@.filter(is).to_multiset()));
            }
        }
    }
    proof {
        reveal(Seq::filter);
        rest@.filter(is).to_multiset_ensures();
        assert(sorted@.to_multiset().add(rest@.filter(is).to_multiset())
            =~= sorted@.to_multiset());
    }
    let mut out: Vec<Json> = Vec::new();
    let mut i: usize = 0;
    while i < sorted.len()
        invariant
            i == out@.len(),
            i <= sorted@.len(),
            forall|k: int|
                0 <= k < i ==> #[trigger] json::json_view(out@[k]) == backup_entry(sorted@[k]),
        decreases sorted@.len() - i,
    {
        let f = &sorted[i];
        out.push(
            Json::object().with("name", Json::text(f.name.as_str())).with(
                "path",
                Json::text(f.path.as_str()),
            ).with("timestamp", Json::Text(write_time(f.modified))).with(
                "size",
                Json::Unsigned(f.size),
            ),
        );
        i = i + 1;
    }
    assert(json::elements_view(out@) =~= sorted@.map_values(|f: BackupFile| backup_entry(f)));
    Json::Array(out)
}

/// Which backup is asked for, if any.
pub struct BackupQuery {
    pub name: Option<String>,
}

impl Default for BackupQuery {
    fn default() -> (r: BackupQuery)
        ensures
            r.name is None,
    {
        BackupQuery { name: None }
    }
}

/// The name of the backup that is asked for, if one is: it must stay in the directory of the
/// backups.
pub fn backup_to_show(query: &BackupQuery) -> (r: Result<Option<String>, Reply>)
    ensures
        match query.name {
            Some(n) => match r {
                Ok(asked) => may_be_asked(n@) && json::some_string(asked) == Some(n@),
                Err(e) => !may_be_asked(n@) && e@ == (
                    400u16,
                    error::plain_error("Invalid backup name"@),
                ),
            },
            None => r is Ok && r->Ok_0 is None,
        },
{
    match &query.name {
        Some(n) => if is_valid_name(n.as_str()) {
            Ok(Some(n.clone()))
        } else {
            Err(error::simple_error("Invalid backup name", 400))
        },
        None => Ok(None),
    }
}

/// What came of an operation on a backup.
pub enum BackupOutcome {
    Missing,
    Failed(String),
    Done,
}

/// The reply with one backup. `content` is what was read of it.
pub fn show_backup(outcome: &BackupOutcome, content: &str) -> (r: Reply)
    ensures
        r@ == (match *outcome {
            BackupOutcome::Missing => (404u16, error::plain_error("Not found"@)),
            BackupOutcome::Failed(e) => (
                500u16,
                error::plain_error("Failed to read backup: "@ + e@),
            ),
            BackupOutcome::Done => (
                200u16,
                JsonView::Object(map!["settings"@ => settings_in(Some(content@))]),
            ),
        }),
{
    match outcome {
        BackupOutcome::Missing => error::simple_error("Not found", 404),
        BackupOutcome::Failed(e) => {
            let message = "Failed to read backup: ".to_owned().concat(e.as_str());
            error::simple_error(message.as_str(), 500)
        },
        BackupOutcome::Done => Reply {
            status: 200,
            body: Json::object().with("settings", read_settings(Some(content))),
        },
    }
}

/// The name of the backup that a request is about.
pub fn requested_backup(body: &Json) -> (r: Result<String, Reply>)
    ensures
        match json::text_in(json::field(body@, "name"@)) {
            Some(n) => match r {
                Ok(name) => may_be_asked(n) && name@ == n,
                Err(e) => !may_be_asked(n) && e@ == (
                    400u16,
                    error::plain_error("Invalid backup name"@),
                ),
            },
            None => r is Err && r->Err_0@ == (
                400u16,
                error::plain_error("Missing 'name' in request body"@),
            ),
        },
{
    match body.str_at("name") {
        Some(n) => if is_valid_name(n) {
            Ok(n.to_owned())
        } else {
            Err(error::simple_error("Invalid backup name", 400))
        },
        None => Err(error::simple_error("Missing 'name' in request body", 400)),
    }
}

/// The reply to a request to restore a backup. `content` is what the settings file holds
/// afterwards, if it can be read.
pub fn restore_claude_backup(outcome: &BackupOutcome, has_path: bool, content: Option<&str>) -> (r: Reply)
    ensures
        r@ == (match *outcome {
            BackupOutcome::Missing => (404u16, error::plain_error("Backup file not found"@)),
            BackupOutcome::Failed(e) => if has_path {
                (500u16, error::plain_error("Failed to restore backup: "@ + e@))
            } else {
                (500u16, error::plain_error("Cannot determine settings path"@))
            },
            BackupOutcome::Done => if has_path {
                (
                    200u16,
                    JsonView::Object(
                        map![
                            "success"@ => JsonView::Bool(true),
                            "settings"@ => settings_in(json::some_text(content)),
                        ],
                    ),
                )
            } else {
                (500u16, error::plain_error("Cannot determine settings path"@))
            },
        }),
{
    match outcome {
        BackupOutcome::Missing => error::simple_error("Backup file not found", 404),
        BackupOutcome::Failed(e) => if has_path {
            let message = "Failed to restore backup: ".to_owned().concat(e.as_str());
            error::simple_error(message.as_str(), 500)
        } else {
            error::simple_error("Cannot determine settings path", 500)
        },
        BackupOutcome::Done => if has_path {
            Reply {
                status: 200,
                body: Json::object().with("success", Json::Bool(true)).with(
                    "settings",
                    read_settings(content),
                ),
            }
        } else {
            error::simple_error("Cannot determine settings path", 500)
        },
    }
}

/// The reply to a request to delete a backup.
pub fn delete_claude_backup(outcome: &BackupOutcome) -> (r: Reply)
    ensures
        r@ == (match *outcome {
            BackupOutcome::Missing => (404u16, error::plain_error("Not found"@)),
            BackupOutcome::Failed(e) => (
                500u16,
                error::plain_error("Failed to delete backup: "@ + e@),
            ),
            BackupOutcome::Done => (
                200u16,
                JsonView::Object(map!["success"@ => JsonView::Bool(true)]),
            ),
        }),
{
    match outcome {
        BackupOutcome::Missing => error::simple_error("Not found", 404),
        BackupOutcome::Failed(e) => {
            let message = "Failed to delete backup: ".to_owned().concat(e.as_str());
            error::simple_error(message.as_str(), 500)
        },
        BackupOutcome::Done => Reply {
            status: 200,
            body: Json::object().with("success", Json::Bool(true)),
        },
    }
}

/// A name is joined to a directory with exactly one slash between them.
pub proof fn lemma_joined(base: Seq<char>, name: Seq<char>)
    ensures
        base.len() > 0 && base.last() != '/' ==> joined(base, name) == base + seq!['/'] + name,
        base.len() > 0 && base.last() == '/' ==> joined(base, name) == base + name,
        joined(seq![], name) == name,
{
    reveal_strlit("/");
    assert("/"@ =~= seq!['/']);
    assert(Seq::<char>::empty() + name =~= name);
}

/// The environment names the gateway's address and key as the request gives them, and each model that
/// it gives. A model that it does not give is taken out.
pub proof fn lemma_environment_set(
    env: Map<Seq<char>, JsonView>,
    body: Map<Seq<char>, JsonView>,
    s: Seq<char>,
)
    ensures
        ({
            let after = changed_env(env, JsonView::Object(body));
            &&& json::holds(body, "apiBaseUrl"@, JsonView::Text(s)) ==> json::holds(
                after,
                "ANTHROPIC_BASE_URL"@,
                JsonView::Text(s),
            )
            &&& json::holds(body, "apiKey"@, JsonView::Text(s)) ==> json::holds(
                after,
                "ANTHROPIC_API_KEY"@,
                JsonView::Text(s),
            )
            &&& json::holds(body, "opusModel"@, JsonView::Text(s)) ==> json::holds(
                after,
                "ANTHROPIC_DEFAULT_OPUS_MODEL"@,
                JsonView::Text(s),
            )
            &&& !body.dom().contains("opusModel"@) ==> !after.dom().contains(
                "ANTHROPIC_DEFAULT_OPUS_MODEL"@,
            )
            &&& json::holds(body, "sonnetModel"@, JsonView::Text(s)) ==> json::holds(
                after,
                "ANTHROPIC_DEFAULT_SONNET_MODEL"@,
                JsonView::Text(s),
            )
            &&& !body.dom().contains("sonnetModel"@) ==> !after.dom().contains(
                "ANTHROPIC_DEFAULT_SONNET_MODEL"@,
            )
            &&& json::holds(body, "haikuModel"@, JsonView::Text(s)) ==> json::holds(
                after,
                "ANTHROPIC_DEFAULT_HAIKU_MODEL"@,
                JsonView::Text(s),
            )
            &&& !body.dom().contains("haikuModel"@) ==> !after.dom().contains(
                "ANTHROPIC_DEFAULT_HAIKU_MODEL"@,
            )
        }),
{
    reveal_strlit("ANTHROPIC_AUTH_TOKEN");
    reveal_strlit("ANTHROPIC_BASE_URL");
    reveal_strlit("ANTHROPIC_API_KEY");
    reveal_strlit("ANTHROPIC_DEFAULT_OPUS_MODEL");
    reveal_strlit("ANTHROPIC_DEFAULT_SONNET_MODEL");
    reveal_strlit("ANTHROPIC_DEFAULT_HAIKU_MODEL");
    assert("ANTHROPIC_AUTH_TOKEN"@.len() == 20 && "ANTHROPIC_BASE_URL"@.len() == 18
        && "ANTHROPIC_API_KEY"@.len() == 17 && "ANTHROPIC_DEFAULT_OPUS_MODEL"@.len() == 28
        && "ANTHROPIC_DEFAULT_SONNET_MODEL"@.len() == 30 && "ANTHROPIC_DEFAULT_HAIKU_MODEL"@.len()
        == 29);
}

/// Settings can be changed exactly where the request gives an address and a key and the file has a
/// place. What the request lacks is its own fault; where the file has no place, the server's.
pub proof fn lemma_when_settings_change(
    title: Seq<char>,
    body: Map<Seq<char>, JsonView>,
    has_path: bool,
    url: Seq<char>,
    key: Seq<char>,
)
    ensures
        ({
            let refusal = change_refusal(title, JsonView::Object(body), has_path);
            let given = json::holds(body, "apiBaseUrl"@, JsonView::Text(url)) && json::holds(
                body,
                "apiKey"@,
                JsonView::Text(key),
            );
            &&& given && has_path ==> refusal is None
            &&& given && !has_path ==> refusal is Some && (refusal->0).0 == 500
            &&& !body.dom().contains("apiBaseUrl"@) || !body.dom().contains("apiKey"@)
                ==> refusal is Some && (refusal->0).0 == 400
        }),
{
}

/// Settings that are missing or that are no JSON are empty settings.
pub proof fn lemma_missing_settings(s: Seq<char>)
    ensures
        settings_in(None) == JsonView::Object(Map::empty()),
        json::parsed(s) is None ==> settings_in(Some(s)) == JsonView::Object(Map::empty()),
        json::parsed(s) is Some ==> settings_in(Some(s)) == json::parsed(s)->0,
{
}

/// A backup is found by its name alone: no name that leads out of the directory may be asked for.
pub proof fn lemma_backup_names(name: Seq<char>, i: int)
    ensures
        may_be_asked(name) && 0 <= i < name.len() ==> name[i] != '/',
        may_be_asked(name) && 0 <= i < name.len() - 1 ==> !(name[i] == '.' && name[i + 1] == '.'),
        may_be_asked(name) ==> "settings.json."@.is_prefix_of(name),
{
    reveal_strlit("/");
    reveal_strlit("..");
    if 0 <= i < name.len() && name[i] == '/' {
        assert(name.subrange(i, i + 1) =~= "/"@);
        assert(text::occurs_at(name, "/"@, i));
    }
    if 0 <= i < name.len() - 1 && name[i] == '.' && name[i + 1] == '.' {
        assert(name.subrange(i, i + 2) =~= ".."@);
        assert(text::occurs_at(name, ".."@, i));
    }
    if may_be_asked(name) {
        assert("settings.json."@ =~= name.subrange(0, "settings.json."@.len() as int));
    }
}

/// A backup is listed with its name, its place, its time and its size.
pub proof fn lemma_backup_entry(f: BackupFile)
    ensures
        ({
            let v = backup_entry(f);
            &&& json::field(v, "name"@) == Some(JsonView::Text(f.name@))
            &&& json::field(v, "path"@) == Some(JsonView::Text(f.path@))
            &&& json::field(v, "timestamp"@) == Some(JsonView::Text(time_text(f.modified)))
            &&& json::field(v, "size"@) == Some(JsonView::Int(f.size as int))
        }),
{
    reveal_strlit("name");
    reveal_strlit("path");
    reveal_strlit("timestamp");
    reveal_strlit("size");
    assert("name"@.len() == 4 && "path"@.len() == 4 && "timestamp"@.len() == 9
        && "size"@.len() == 4);
    assert("name"@[0] != "path"@[0]);
    assert("name"@[0] != "size"@[0]);
    assert("path"@[0] != "size"@[0]);
}

/// What is found of the settings says whether the file is there and what it holds. A file that holds
/// no JSON, or that cannot be read, holds no settings, and the reason is given.
pub proof fn lemma_settings_found(s: String, e: String)
    ensures
        ({
            let there = |v: JsonView| json::field(v, "exists"@) == Some(JsonView::Bool(true));
            let holds = |v: JsonView| json::field(v, "settings"@);
            &&& there(settings_found(SettingsFile::Content(s)))
            &&& there(settings_found(SettingsFile::Unreadable(e)))
            &&& json::field(settings_found(SettingsFile::Missing), "exists"@) == Some(
                JsonView::Bool(false),
            )
            &&& json::field(settings_found(SettingsFile::NoHome), "exists"@) == Some(
                JsonView::Bool(false),
            )
            &&& holds(settings_found(SettingsFile::NoHome)) == Some(JsonView::Null)
            &&& json::parsed(s@) is Some ==> holds(settings_found(SettingsFile::Content(s)))
                == json::parsed(s@) && json::field(
                settings_found(SettingsFile::Content(s)),
                "error"@,
            ) is None
            &&& json::parsed(s@) is None ==> holds(settings_found(SettingsFile::Content(s))) == Some(
                JsonView::Null,
            ) && json::field(settings_found(SettingsFile::Content(s)), "error"@) is Some
            &&& holds(settings_found(SettingsFile::Unreadable(e))) == Some(JsonView::Null)
            &&& json::field(settings_found(SettingsFile::Unreadable(e)), "error"@) == Some(
                JsonView::Text("Failed to read: "@ + e@),
            )
            &&& holds(settings_found(SettingsFile::Missing)) == Some(JsonView::Null)
            &&& json::field(settings_found(SettingsFile::Missing), "error"@) is None
            &&& json::field(settings_found(SettingsFile::NoHome), "error"@) is Some
        }),
{
    reveal_strlit("exists");
    reveal_strlit("settings");
    reveal_strlit("error");
    assert("exists"@.len() == 6 && "settings"@.len() == 8 && "error"@.len() == 5);
}

/// The settings lie in the hidden directory of the program in the home directory.
pub proof fn lemma_settings_path(program: Seq<char>, home: Seq<char>)
    requires
        home.len() > 0,
        home.last() != '/',
        program.len() > 0,
        program.last() != '/',
    ensures
        settings_text(program, None) is None,
        settings_text(program, Some(home)) == Some(
            home + "/"@ + ("."@ + program) + "/"@ + "settings.json"@,
        ),
{
    let inner = "."@ + program;
    assert(inner.last() == program.last());
    let dir = joined(home, inner);
    assert(dir.last() == inner.last());
    assert(joined(dir, "settings.json"@) =~= home + "/"@ + inner + "/"@ + "settings.json"@);
}

/// The time of a backup is written as a date and a time of day, and a time that is not known as such.
pub proof fn lemma_backup_time(secs: u64)
    ensures
        time_text(None) == "unknown"@,
        ({
            let date = calendar::date_of((secs / 86400) as nat);
            (text::padded(date.0, 4) + "-"@ + text::padded(date.1, 2) + "-"@ + text::padded(date.2, 2)
                + " "@ + crate::routes::v1::helpers::clock_text(secs)) == time_text(Some(secs))
        }),
{
    let date = calendar::date_of((secs / 86400) as nat);
    assert(text::padded(date.0, 4) + "-"@ + text::padded(date.1, 2) + "-"@ + text::padded(date.2, 2)
        + " "@ + crate::routes::v1::helpers::clock_text(secs) =~= time_text(Some(secs)));
}

/// A change that is refused says that it failed, and why.
pub proof fn lemma_refused_changes(status: u16, message: Seq<char>)
    ensures
        unsuccessful(status, message).0 == status,
        json::field(unsuccessful(status, message).1, "success"@) == Some(JsonView::Bool(false)),
        json::field(unsuccessful(status, message).1, "error"@) == Some(JsonView::Text(message)),
{
    reveal_strlit("success");
    reveal_strlit("error");
    assert("success"@.len() == 7 && "error"@.len() == 5);
}

} // verus!
