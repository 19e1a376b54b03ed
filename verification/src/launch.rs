//! How an entry is run: the command line and the detached process.

use crate::entry::entry_map_get_mut;
use crate::entry::map_entries;
use crate::entry::Entry;
use crate::entry::EntryMap;
use crate::entry::EntryView;
use crate::history::save_history;
use crate::history::stored_text;
use crate::history::HistoryError;
use crate::ordered::position;
use crate::pattern::regex_compiles;
use crate::pattern::regex_replaced;
use crate::pattern::replace_matches;
use crate::shell::has_nul;
use crate::shell::shell_join;
use crate::shell::shell_line;
use crate::shell::shell_split;
use crate::shell::shell_words;
use crate::text::trim;
use crate::text::trimmed;
use vstd::prelude::*;

verus! {

/// The field codes of a desktop entry's command, each with the white space
/// before it: a percent sign and one word character.
pub const FIELD_CODE: &'static str = "\\s*%\\w";

/// Where the terminal of a terminal application comes from.
#[derive(Clone, Debug, PartialEq, Eq)]
pub struct Settings {
    /// The terminal invocation that the user configured, as a shell-style
    /// argument list.
    pub terminal_command: Option<String>,
    /// The terminal program that the environment names.
    pub terminal_env: Option<String>,
}

/// What [`Settings`] hold, as mathematical values.
pub struct SettingsView {
    pub terminal_command: Option<Seq<char>>,
    pub terminal_env: Option<Seq<char>>,
}

impl View for Settings {
    type V = SettingsView;

    open spec fn view(&self) -> SettingsView {
        SettingsView {
            terminal_command: self.terminal_command.deep_view(),
            terminal_env: self.terminal_env.deep_view(),
        }
    }
}

/// A process to start detached from the launcher: in a session of its own,
/// its three standard streams on the null device, not waited for.
#[derive(Clone, Debug, PartialEq, Eq)]
pub struct Launch {
    pub program: String,
    pub args: Vec<String>,
}

/// What a [`Launch`] holds, as mathematical values.
pub struct LaunchView {
    pub program: Seq<char>,
    pub args: Seq<Seq<char>>,
}

impl View for Launch {
    type V = LaunchView;

    open spec fn view(&self) -> LaunchView {
        LaunchView { program: self.program@, args: self.args.deep_view() }
    }
}

/// What one launch comes to: the process to start, and then the text to
/// write to the history store, or why the map has no such text.
#[derive(Debug, PartialEq, Eq)]
pub struct Execution {
    pub launch: Launch,
    pub store: Result<String, HistoryError>,
}

/// The text of a store as a mathematical value, where there is one.
pub open spec fn saved(store: Result<String, HistoryError>) -> Option<Seq<char>> {
    match store {
        Ok(text) => Some(text@),
        Err(_) => None,
    }
}

/// Why an entry could not be launched.
#[derive(Clone, Copy, Debug, PartialEq, Eq, Structural)]
pub enum ExecError {
    /// The identifier is not in the entry map.
    NotFound,
    /// The configured terminal template cannot be split into arguments.
    ConfigParse,
    /// The regular-expression engine rejects the pattern.
    Pattern,
    /// A word of the command line holds a nul character, which no shell
    /// word can carry.
    Nul,
    /// The usage count is at its maximum.
    CountOverflow,
}

/// The process that runs `cmd` in a shell of a new session.
pub open spec fn launch_of(cmd: Seq<char>) -> LaunchView {
    LaunchView { program: "setsid"@, args: seq!["sh"@, "-c"@, cmd] }
}

/// `cmd` trimmed and freed of its field codes.
pub open spec fn stripped(cmd: Seq<char>) -> Seq<char> {
    regex_replaced(FIELD_CODE@, trimmed(cmd), Seq::empty())
}

/// The terminal invocation in front of the command: the configured template
/// split into words, else the environment's terminal with `-e`, else
/// `alacritty -e`. `None` where the template cannot be split.
pub open spec fn terminal_words(settings: SettingsView) -> Option<Seq<Seq<char>>> {
    match settings.terminal_command {
        Some(template) => shell_words(template),
        None => match settings.terminal_env {
            Some(program) => Some(seq![program, "-e"@]),
            None => Some(seq!["alacritty"@, "-e"@]),
        },
    }
}

/// The command line of `cmd` inside the terminal invocation `prefix`: the
/// command is the last word, quoted as one argument.
pub open spec fn wrapped(prefix: Seq<Seq<char>>, cmd: Seq<char>) -> Result<Seq<char>, ExecError> {
    let words = prefix.push(cmd);
    if has_nul(words) {
        Err(ExecError::Nul)
    } else {
        Ok(shell_line(words))
    }
}

/// The command line of an application: its command without field codes.
pub open spec fn app_line(cmd: Seq<char>) -> Result<Seq<char>, ExecError> {
    if regex_compiles(FIELD_CODE@) {
        Ok(stripped(cmd))
    } else {
        Err(ExecError::Pattern)
    }
}

/// The command line of a terminal application: its command without field
/// codes, wrapped in the terminal invocation that the settings select.
pub open spec fn terminal_line(cmd: Seq<char>, settings: SettingsView) -> Result<
    Seq<char>,
    ExecError,
> {
    if !regex_compiles(FIELD_CODE@) {
        Err(ExecError::Pattern)
    } else {
        match terminal_words(settings) {
            None => Err(ExecError::ConfigParse),
            Some(prefix) => wrapped(prefix, stripped(cmd)),
        }
    }
}

/// The command line that is dispatched for an entry, or why there is none.
pub open spec fn command_line(entry: EntryView, settings: SettingsView) -> Result<
    Seq<char>,
    ExecError,
> {
    if !entry.desktop {
        Ok(trimmed(entry.command))
    } else if !entry.terminal {
        app_line(entry.command)
    } else {
        terminal_line(entry.command, settings)
    }
}

/// The process that runs a command line, where there is one.
pub open spec fn launched(line: Result<Seq<char>, ExecError>) -> Result<LaunchView, ExecError> {
    match line {
        Ok(cmd) => Ok(launch_of(cmd)),
        Err(e) => Err(e),
    }
}

/// The process that is started for an entry, or why there is none.
pub open spec fn planned(entry: EntryView, settings: SettingsView) -> Result<
    LaunchView,
    ExecError,
> {
    launched(command_line(entry, settings))
}

/// What an attempt to plan a process came to, as mathematical values.
pub open spec fn outcome(r: Result<Launch, ExecError>) -> Result<LaunchView, ExecError> {
    match r {
        Ok(l) => Ok(l@),
        Err(e) => Err(e),
    }
}

/// `entry` after one more launch.
pub open spec fn counted(entry: EntryView) -> EntryView {
    EntryView { count: (entry.count + 1) as u64, ..entry }
}

/// The detached process that hands `cmd` to a shell.
pub fn exec_raw(cmd: &str) -> (r: Launch)
    ensures
        r@ == launch_of(cmd@),
{
    let mut args: Vec<String> = Vec::new();
    args.push("sh".to_owned());
    args.push("-c".to_owned());
    args.push(cmd.to_owned());
    let r = Launch { program: "setsid".to_owned(), args };
    assert(r.args.deep_view() =~= launch_of(cmd@).args);
    r
}

/// Launch of a command given as typed: trimmed, nothing else changed.
pub fn exec_pretrimmed(cmd: &str) -> (r: Launch)
    ensures
        r@ == launch_of(trimmed(cmd@)),
{
    let cmd = trim(cmd);
    exec_raw(cmd.as_str())
}

/// Launch of a bare command: its command string trimmed, field codes kept.
pub fn exec_command(entry: &Entry) -> (r: Launch)
    ensures
        r@ == launch_of(trimmed(entry@.command)),
{
    let cmd = trim(entry.command.as_str());
    exec_raw(cmd.as_str())
}

/// `text` with every match of `pattern` taken out, where the engine accepts
/// the pattern.
pub fn remove_matches(pattern: &str, text: &str) -> (r: Result<String, ExecError>)
    ensures
        r is Ok <==> regex_compiles(pattern@),
        r matches Ok(s) ==> s@ == regex_replaced(pattern@, text@, Seq::empty()),
        r matches Err(e) ==> e == ExecError::Pattern,
{
    match replace_matches(pattern, text, "") {
        Ok(s) => {
            proof {
                reveal_strlit("");
                assert(""@ =~= Seq::<char>::empty());
            }
            Ok(s)
        },
        Err(_) => Err(ExecError::Pattern),
    }
}

/// The command of a desktop entry, trimmed and without its field codes.
pub fn strip_field_codes(cmd: &str) -> (r: Result<String, ExecError>)
    ensures
        match r {
            Ok(s) => app_line(cmd@) == Ok::<Seq<char>, ExecError>(s@),
            Err(e) => app_line(cmd@) == Err::<Seq<char>, ExecError>(e),
        },
{
    let cmd = trim(cmd);
    remove_matches(FIELD_CODE, cmd.as_str())
}

/// Launch of a desktop entry that needs no terminal.
pub fn exec_app(entry: &Entry) -> (r: Result<Launch, ExecError>)
    ensures
        outcome(r) == launched(app_line(entry@.command)),
{
    match strip_field_codes(entry.command.as_str()) {
        Ok(cmd) => Ok(exec_raw(cmd.as_str())),
        Err(e) => Err(e),
    }
}

/// The terminal invocation that the settings select.
pub fn terminal_prefix(settings: &Settings) -> (r: Result<Vec<String>, ExecError>)
    ensures
        match r {
            Ok(prefix) => terminal_words(settings@) == Some(prefix.deep_view()),
            Err(e) => terminal_words(settings@) is None && e == ExecError::ConfigParse,
        },
{
    match &settings.terminal_command {
        Some(template) => match shell_split(template.as_str()) {
            Some(words) => Ok(words),
            None => Err(ExecError::ConfigParse),
        },
        None => {
            let mut words: Vec<String> = Vec::new();
            match &settings.terminal_env {
                Some(program) => words.push(program.clone()),
                None => words.push("alacritty".to_owned()),
            }
            words.push("-e".to_owned());
            assert(Some(words.deep_view()) =~= terminal_words(settings@));
            Ok(words)
        },
    }
}

/// One shell command line that runs `cmd` in the terminal invocation `prefix`.
pub fn wrap_in_terminal(prefix: Vec<String>, cmd: String) -> (r: Result<String, ExecError>)
    ensures
        match r {
            Ok(line) => wrapped(prefix.deep_view(), cmd@) == Ok::<Seq<char>, ExecError>(line@),
            Err(e) => wrapped(prefix.deep_view(), cmd@) == Err::<Seq<char>, ExecError>(e),
        },
{
    let mut words = prefix;
    words.push(cmd);
    assert(words.deep_view() =~= prefix.deep_view().push(cmd@));
    match shell_join(&words) {
        Ok(line) => Ok(line),
        Err(_) => Err(ExecError::Nul),
    }
}

/// Launch of a desktop entry inside a terminal.
pub fn exec_term(entry: &Entry, settings: &Settings) -> (r: Result<Launch, ExecError>)
    ensures
        outcome(r) == launched(terminal_line(entry@.command, settings@)),
{
    let cmd = match strip_field_codes(entry.command.as_str()) {
        Ok(cmd) => cmd,
        Err(e) => { return Err(e); },
    };
    let prefix = match terminal_prefix(settings) {
        Ok(prefix) => prefix,
        Err(e) => { return Err(e); },
    };
    match wrap_in_terminal(prefix, cmd) {
        Ok(line) => Ok(exec_raw(line.as_str())),
        Err(e) => Err(e),
    }
}

/// The process to start for `entry`, by its kind: bare command, application,
/// or terminal application.
pub fn dispatch(entry: &Entry, settings: &Settings) -> (r: Result<Launch, ExecError>)
    ensures
        outcome(r) == planned(entry@, settings@),
{
    if !entry.desktop {
        Ok(exec_command(entry))
    } else if !entry.terminal {
        exec_app(entry)
    } else {
        exec_term(entry, settings)
    }
}

/// Launches the entry stored under `pathstr`: plans its process, counts the
/// launch, and writes out the text of the store for the whole map as it then
/// is. On success exactly that entry's count has grown by one; on failure the
/// map is as it was.
pub fn execute(pathstr: &str, entries: &mut EntryMap, settings: &Settings) -> (r: Result<
    Execution,
    ExecError,
>)
    ensures
        map_entries(*final(entries)).len() == map_entries(*old(entries)).len(),
        forall|j: int|
            0 <= j < map_entries(*old(entries)).len() ==> {
                &&& (#[trigger] map_entries(*final(entries))[j]).0 == map_entries(
                    *old(entries),
                )[j].0
                &&& map_entries(*final(entries))[j].1.count >= map_entries(
                    *old(entries),
                )[j].1.count
            },
        match r {
            Ok(done) => {
                &&& position(map_entries(*old(entries)), pathstr@) matches Some(i)
                &&& planned(map_entries(*old(entries))[i].1, settings@) == Ok::<
                    LaunchView,
                    ExecError,
                >(done.launch@)
                &&& map_entries(*old(entries))[i].1.count < u64::MAX
                &&& map_entries(*final(entries)) == map_entries(*old(entries)).update(
                    i,
                    (pathstr@, counted(map_entries(*old(entries))[i].1)),
                )
                &&& saved(done.store) == stored_text(map_entries(*final(entries)))
            },
            Err(e) => {
                &&& map_entries(*final(entries)) == map_entries(*old(entries))
                &&& match position(map_entries(*old(entries)), pathstr@) {
                    None => e == ExecError::NotFound,
                    Some(i) => match planned(map_entries(*old(entries))[i].1, settings@) {
                        Err(why) => e == why,
                        Ok(_) => e == ExecError::CountOverflow && map_entries(
                            *old(entries),
                        )[i].1.count == u64::MAX,
                    },
                }
            },
        },
{
    let launch = match count_launch(pathstr, entries, settings) {
        Ok(launch) => launch,
        Err(e) => { return Err(e); },
    };
    let store = save_history(entries);
    Ok(Execution { launch, store })
}

/// The first part of [`execute`]: plans the process of the entry stored
/// under `pathstr` and counts the launch.
pub fn count_launch(pathstr: &str, entries: &mut EntryMap, settings: &Settings) -> (r: Result<
    Launch,
    ExecError,
>)
    ensures
        match r {
            Ok(launch) => {
                &&& position(map_entries(*old(entries)), pathstr@) matches Some(i)
                &&& planned(map_entries(*old(entries))[i].1, settings@) == Ok::<
                    LaunchView,
                    ExecError,
                >(launch@)
                &&& map_entries(*old(entries))[i].1.count < u64::MAX
                &&& map_entries(*final(entries)) == map_entries(*old(entries)).update(
                    i,
                    (pathstr@, counted(map_entries(*old(entries))[i].1)),
                )
            },
            Err(e) => {
                &&& map_entries(*final(entries)) == map_entries(*old(entries))
                &&& match position(map_entries(*old(entries)), pathstr@) {
                    None => e == ExecError::NotFound,
                    Some(i) => match planned(map_entries(*old(entries))[i].1, settings@) {
                        Err(why) => e == why,
                        Ok(_) => e == ExecError::CountOverflow && map_entries(
                            *old(entries),
                        )[i].1.count == u64::MAX,
                    },
                }
            },
        },
{
    let entry = match entry_map_get_mut(entries, pathstr) {
        Some(entry) => entry,
        None => { return Err(ExecError::NotFound); },
    };
    let launch = match dispatch(entry, settings) {
        Ok(launch) => launch,
        Err(e) => { return Err(e); },
    };
    if entry.count == u64::MAX {
        return Err(ExecError::CountOverflow);
    }
    entry.count += 1;
    Ok(launch)
}

/// A bare command is dispatched as its command string with the white space
/// at both ends removed and nothing else changed: field codes stay.
pub proof fn lemma_bare_command_verbatim(entry: EntryView, settings: SettingsView)
    requires
        !entry.desktop,
    ensures
        command_line(entry, settings) == Ok::<Seq<char>, ExecError>(trimmed(entry.command)),
        planned(entry, settings) == Ok::<LaunchView, ExecError>(
            launch_of(trimmed(entry.command)),
        ),
{
}

/// An application that needs no terminal is dispatched as its trimmed command
/// in which every match of the field-code pattern is replaced by nothing,
/// wherever the engine accepts the pattern; wherever it does not, nothing is
/// dispatched.
pub proof fn lemma_app_without_field_codes(entry: EntryView, settings: SettingsView)
    requires
        entry.desktop,
        !entry.terminal,
    ensures
        regex_compiles(FIELD_CODE@) ==> command_line(entry, settings) == Ok::<
            Seq<char>,
            ExecError,
        >(regex_replaced(FIELD_CODE@, trimmed(entry.command), Seq::empty())),
        !regex_compiles(FIELD_CODE@) ==> command_line(entry, settings) == Err::<
            Seq<char>,
            ExecError,
        >(ExecError::Pattern),
{
}

/// Words are free of nul characters where each of them is.
pub proof fn lemma_has_nul(words: Seq<Seq<char>>)
    ensures
        has_nul(words) <==> exists|i: int| 0 <= i < words.len() && (#[trigger] words[i]).contains(
            '\0',
        ),
{
    if has_nul(words) {
        let (i, j) = choose|i: int, j: int|
            0 <= i < words.len() && 0 <= j < words[i].len() && #[trigger] words[i][j] == '\0';
        assert(words[i].contains('\0'));
    }
    if exists|i: int| 0 <= i < words.len() && (#[trigger] words[i]).contains('\0') {
        let i = choose|i: int| 0 <= i < words.len() && (#[trigger] words[i]).contains('\0');
        let j = choose|j: int| 0 <= j < words[i].len() && words[i][j] == '\0';
        assert(words[i][j] == '\0');
    }
}

/// With no terminal configured and none named by the environment, a terminal
/// application is dispatched as `alacritty -e` followed by its command
/// without field codes, joined into one line with the command as one
/// argument. This holds wherever the engine accepts the pattern and the
/// command holds no nul character.
pub proof fn lemma_default_terminal(entry: EntryView, settings: SettingsView)
    requires
        entry.desktop,
        entry.terminal,
        settings.terminal_command is None,
        settings.terminal_env is None,
    ensures
        regex_compiles(FIELD_CODE@) && !stripped(entry.command).contains('\0') ==> command_line(
            entry,
            settings,
        ) == Ok::<Seq<char>, ExecError>(
            shell_line(seq!["alacritty"@, "-e"@, stripped(entry.command)]),
        ),
{
    let cmd = stripped(entry.command);
    let words = seq!["alacritty"@, "-e"@, cmd];
    reveal_strlit("alacritty");
    reveal_strlit("-e");
    lemma_has_nul(words);
    assert(seq!["alacritty"@, "-e"@].push(cmd) =~= words);
    if !cmd.contains('\0') {
        assert(!"alacritty"@.contains('\0'));
        assert(!"-e"@.contains('\0'));
        assert(!has_nul(words));
    }
}

/// With no terminal configured, the terminal program that the environment
/// names is used with `-e`, under the same conditions and with no nul
/// character in the program's name.
pub proof fn lemma_environment_terminal(
    entry: EntryView,
    settings: SettingsView,
    program: Seq<char>,
)
    requires
        entry.desktop,
        entry.terminal,
        settings.terminal_command is None,
        settings.terminal_env == Some(program),
    ensures
        regex_compiles(FIELD_CODE@) && !program.contains('\0') && !stripped(
            entry.command,
        ).contains('\0') ==> command_line(entry, settings) == Ok::<Seq<char>, ExecError>(
            shell_line(seq![program, "-e"@, stripped(entry.command)]),
        ),
{
    let cmd = stripped(entry.command);
    let words = seq![program, "-e"@, cmd];
    reveal_strlit("-e");
    lemma_has_nul(words);
    assert(seq![program, "-e"@].push(cmd) =~= words);
    if !cmd.contains('\0') && !program.contains('\0') {
        assert(!"-e"@.contains('\0'));
        assert(!has_nul(words));
    }
}

/// With a terminal template configured, a terminal application is dispatched
/// as the words of the template followed by its command without field codes,
/// joined into one line. This holds wherever the engine accepts the pattern,
/// the template splits into words, and no word holds a nul character;
/// a template that does not split is a configuration error.
pub proof fn lemma_configured_terminal(
    entry: EntryView,
    settings: SettingsView,
    template: Seq<char>,
)
    requires
        entry.desktop,
        entry.terminal,
        settings.terminal_command == Some(template),
    ensures
        regex_compiles(FIELD_CODE@) ==> match shell_words(template) {
            Some(prefix) => !has_nul(prefix.push(stripped(entry.command))) ==> command_line(
                entry,
                settings,
            ) == Ok::<Seq<char>, ExecError>(shell_line(prefix.push(stripped(entry.command)))),
            None => command_line(entry, settings) == Err::<Seq<char>, ExecError>(
                ExecError::ConfigParse,
            ),
        },
{
}

} // verus!
