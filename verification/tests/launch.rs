use indexmap::IndexMap;
use sklauncher::entry::Entry;
use sklauncher::entry::EntryMap;
use sklauncher::history::load_history;
use sklauncher::history::save_history;
use sklauncher::history::HistoryError;
use sklauncher::launch::count_launch;
use sklauncher::launch::dispatch;
use sklauncher::launch::exec_app;
use sklauncher::launch::exec_command;
use sklauncher::launch::exec_pretrimmed;
use sklauncher::launch::exec_raw;
use sklauncher::launch::exec_term;
use sklauncher::launch::execute;
use sklauncher::launch::remove_matches;
use sklauncher::launch::strip_field_codes;
use sklauncher::launch::terminal_prefix;
use sklauncher::launch::wrap_in_terminal;
use sklauncher::launch::ExecError;
use sklauncher::launch::Launch;
use sklauncher::launch::Settings;
use sklauncher::launch::FIELD_CODE;

fn entry(command: &str, desktop: bool, terminal: bool, count: u64) -> Entry {
    Entry { command: command.to_string(), desktop, terminal, count }
}

fn no_terminal() -> Settings {
    Settings { terminal_command: None, terminal_env: None }
}

fn template(line: &str) -> Settings {
    Settings { terminal_command: Some(line.to_string()), terminal_env: None }
}

fn shell(cmd: &str) -> Launch {
    Launch {
        program: "setsid".to_string(),
        args: vec!["sh".to_string(), "-c".to_string(), cmd.to_string()],
    }
}

fn sample_map() -> EntryMap {
    let mut m: EntryMap = IndexMap::new();
    m.insert("/usr/bin/ls".to_string(), entry("  ls -la  ", false, false, 0));
    m.insert("k".to_string(), entry("vim %f", true, false, 4));
    m.insert("htop.desktop".to_string(), entry("htop %U", true, true, 7));
    m
}

#[test]
fn field_code_pattern_is_white_space_percent_word_character() {
    assert_eq!(FIELD_CODE, r"\s*%\w");
}

#[test]
fn exec_raw_runs_a_shell_in_a_new_session() {
    let l = exec_raw("echo hi");
    assert_eq!(l.program, "setsid");
    assert_eq!(l.args, vec!["sh", "-c", "echo hi"]);
}

#[test]
fn exec_raw_passes_the_command_unchanged() {
    assert_eq!(exec_raw("  a %f 'b'  ").args[2], "  a %f 'b'  ");
    assert_eq!(exec_raw("").args[2], "");
}

#[test]
fn exec_pretrimmed_trims_the_command() {
    assert_eq!(exec_pretrimmed("  ls -la  "), shell("ls -la"));
    assert_eq!(exec_pretrimmed("top"), shell("top"));
}

#[test]
fn exec_pretrimmed_keeps_field_codes() {
    assert_eq!(exec_pretrimmed(" echo %f "), shell("echo %f"));
}

#[test]
fn exec_command_dispatches_the_trimmed_command_verbatim() {
    assert_eq!(exec_command(&entry("  ls -la  ", false, false, 0)), shell("ls -la"));
    assert_eq!(exec_command(&entry("printf %s x", false, false, 0)), shell("printf %s x"));
}

#[test]
fn exec_app_removes_field_codes() {
    assert_eq!(exec_app(&entry("vim %f", true, false, 0)), Ok(shell("vim")));
    assert_eq!(
        exec_app(&entry("  firefox %u --new-window %U ", true, false, 0)),
        Ok(shell("firefox --new-window"))
    );
}

#[test]
fn strip_field_codes_removes_the_white_space_before_a_code() {
    assert_eq!(strip_field_codes("gimp   %F").unwrap(), "gimp");
    assert_eq!(strip_field_codes("a\t%x\n%y b").unwrap(), "a b");
}

#[test]
fn strip_field_codes_takes_one_word_character_only() {
    assert_eq!(strip_field_codes("run %file").unwrap(), "runile");
    assert_eq!(strip_field_codes("50%off").unwrap(), "50ff");
    assert_eq!(strip_field_codes("x %1 %_ y").unwrap(), "x y");
}

#[test]
fn strip_field_codes_keeps_a_percent_sign_without_word_character() {
    assert_eq!(strip_field_codes("echo 100%").unwrap(), "echo 100%");
    assert_eq!(strip_field_codes("echo % x").unwrap(), "echo % x");
    assert_eq!(strip_field_codes("echo %-").unwrap(), "echo %-");
}

#[test]
fn strip_field_codes_knows_word_characters_beyond_ascii() {
    assert_eq!(strip_field_codes("caf %\u{e9}x").unwrap(), "cafx");
}

#[test]
fn remove_matches_takes_out_every_match() {
    assert_eq!(remove_matches("a+", "caaandaab"), Ok("cndb".to_string()));
    assert_eq!(remove_matches("x", "abc"), Ok("abc".to_string()));
    assert_eq!(remove_matches(FIELD_CODE, "  vim %f  "), Ok("  vim  ".to_string()));
}

#[test]
fn remove_matches_reports_a_pattern_that_does_not_compile() {
    assert_eq!(remove_matches("(", "abc"), Err(ExecError::Pattern));
    assert_eq!(remove_matches("[a", "abc"), Err(ExecError::Pattern));
}

#[test]
fn strip_field_codes_trims_first() {
    assert_eq!(strip_field_codes("  vim  ").unwrap(), "vim");
    assert_eq!(strip_field_codes(" %f ").unwrap(), "");
}

#[test]
fn terminal_prefix_falls_back_to_alacritty() {
    assert_eq!(terminal_prefix(&no_terminal()), Ok(vec!["alacritty".to_string(), "-e".to_string()]));
}

#[test]
fn terminal_prefix_takes_the_terminal_of_the_environment() {
    let s = Settings { terminal_command: None, terminal_env: Some("xterm".to_string()) };
    assert_eq!(terminal_prefix(&s), Ok(vec!["xterm".to_string(), "-e".to_string()]));
}

#[test]
fn terminal_prefix_splits_the_template() {
    assert_eq!(
        terminal_prefix(&template("kitty --hold -e")),
        Ok(vec!["kitty".to_string(), "--hold".to_string(), "-e".to_string()])
    );
}

#[test]
fn terminal_prefix_honours_quotes_in_the_template() {
    assert_eq!(
        terminal_prefix(&template("foot --title 'my term' -e")),
        Ok(vec!["foot".to_string(), "--title".to_string(), "my term".to_string(), "-e".to_string()])
    );
}

#[test]
fn terminal_prefix_prefers_the_template_to_the_environment() {
    let s = Settings {
        terminal_command: Some("kitty -e".to_string()),
        terminal_env: Some("xterm".to_string()),
    };
    assert_eq!(terminal_prefix(&s), Ok(vec!["kitty".to_string(), "-e".to_string()]));
}

#[test]
fn terminal_prefix_rejects_a_template_with_an_open_quote() {
    assert_eq!(terminal_prefix(&template("kitty 'oops -e")), Err(ExecError::ConfigParse));
}

#[test]
fn terminal_prefix_of_an_empty_template_is_empty() {
    assert_eq!(terminal_prefix(&template("")), Ok(vec![]));
}

#[test]
fn wrap_in_terminal_quotes_the_command_as_one_argument() {
    let prefix = vec!["alacritty".to_string(), "-e".to_string()];
    assert_eq!(
        wrap_in_terminal(prefix, "vim notes.txt".to_string()),
        Ok("alacritty -e 'vim notes.txt'".to_string())
    );
}

#[test]
fn wrap_in_terminal_leaves_a_plain_word_unquoted() {
    let prefix = vec!["alacritty".to_string(), "-e".to_string()];
    assert_eq!(wrap_in_terminal(prefix, "htop".to_string()), Ok("alacritty -e htop".to_string()));
}

#[test]
fn wrap_in_terminal_quotes_an_empty_command() {
    assert_eq!(wrap_in_terminal(vec!["st".to_string()], String::new()), Ok("st ''".to_string()));
}

#[test]
fn wrap_in_terminal_refuses_a_nul_character() {
    let prefix = vec!["alacritty".to_string(), "-e".to_string()];
    assert_eq!(wrap_in_terminal(prefix, "a\0b".to_string()), Err(ExecError::Nul));
    assert_eq!(wrap_in_terminal(vec!["x\0".to_string()], "a".to_string()), Err(ExecError::Nul));
}

#[test]
fn exec_term_uses_alacritty_by_default() {
    assert_eq!(
        exec_term(&entry("vim %f notes.txt", true, true, 0), &no_terminal()),
        Ok(shell("alacritty -e 'vim notes.txt'"))
    );
}

#[test]
fn exec_term_uses_the_configured_template() {
    assert_eq!(
        exec_term(&entry(" nmtui --wait %u ", true, true, 0), &template("kitty --hold -e")),
        Ok(shell("kitty --hold -e 'nmtui --wait'"))
    );
}

#[test]
fn exec_term_uses_the_terminal_of_the_environment() {
    let s = Settings { terminal_command: None, terminal_env: Some("xterm".to_string()) };
    assert_eq!(exec_term(&entry("htop %U", true, true, 0), &s), Ok(shell("xterm -e htop")));
}

#[test]
fn exec_term_wraps_whatever_the_flags_say() {
    assert_eq!(
        exec_term(&entry("top -d 1", false, false, 0), &no_terminal()),
        Ok(shell("alacritty -e 'top -d 1'"))
    );
}

#[test]
fn exec_term_reports_a_template_that_cannot_be_split() {
    assert_eq!(
        exec_term(&entry("htop", true, true, 0), &template("kitty \"-e")),
        Err(ExecError::ConfigParse)
    );
}

#[test]
fn exec_term_reports_a_nul_character() {
    assert_eq!(exec_term(&entry("ht\0op", true, true, 0), &no_terminal()), Err(ExecError::Nul));
}

#[test]
fn dispatch_runs_a_bare_command_as_typed() {
    let s = template("kitty -e");
    assert_eq!(dispatch(&entry("  ls %f  ", false, false, 0), &s), Ok(shell("ls %f")));
    assert_eq!(dispatch(&entry("  ls %f  ", false, true, 0), &s), Ok(shell("ls %f")));
}

#[test]
fn dispatch_runs_an_application_without_terminal() {
    let s = template("kitty -e");
    assert_eq!(dispatch(&entry("vim %f", true, false, 0), &s), Ok(shell("vim")));
}

#[test]
fn dispatch_runs_a_terminal_application_in_the_terminal() {
    let s = template("kitty --hold -e");
    assert_eq!(
        dispatch(&entry("vim %f -R", true, true, 0), &s),
        Ok(shell("kitty --hold -e 'vim -R'"))
    );
}

#[test]
fn dispatch_ignores_a_broken_template_without_terminal() {
    let s = template("'");
    assert_eq!(dispatch(&entry("vim %f", true, false, 0), &s), Ok(shell("vim")));
    assert_eq!(dispatch(&entry("vim %f", true, true, 0), &s), Err(ExecError::ConfigParse));
}

#[test]
fn count_launch_counts_one_launch() {
    let mut m = sample_map();
    let l = count_launch("k", &mut m, &no_terminal());
    assert_eq!(l, Ok(shell("vim")));
    assert_eq!(m["k"].count, 5);
    let l = count_launch("k", &mut m, &no_terminal());
    assert_eq!(l, Ok(shell("vim")));
    assert_eq!(m["k"].count, 6);
}

#[test]
fn execute_counts_the_launch_and_keeps_the_rest() {
    let mut m = sample_map();
    let before = m.clone();
    let done = execute("k", &mut m, &no_terminal()).unwrap();
    assert_eq!(done.launch, shell("vim"));
    assert_eq!(m.len(), 3);
    assert_eq!(m["k"], entry("vim %f", true, false, 5));
    assert_eq!(m["/usr/bin/ls"], before["/usr/bin/ls"]);
    assert_eq!(m["htop.desktop"], before["htop.desktop"]);
    let keys: Vec<&String> = m.keys().collect();
    assert_eq!(keys, vec!["/usr/bin/ls", "k", "htop.desktop"]);
}

#[test]
fn execute_never_lowers_a_count() {
    let mut m = sample_map();
    let before = m.clone();
    for key in ["k", "k", "/usr/bin/ls", "missing", "htop.desktop"] {
        let _ = execute(key, &mut m, &no_terminal());
        for (id, e) in &m {
            assert!(e.count >= before[id].count);
        }
    }
    assert_eq!(m["k"].count, 6);
    assert_eq!(m["/usr/bin/ls"].count, 1);
    assert_eq!(m["htop.desktop"].count, 8);
}

#[test]
fn execute_saves_the_whole_map_with_the_new_count() {
    let mut m = sample_map();
    let done = execute("k", &mut m, &no_terminal()).unwrap();
    let text = done.store.unwrap();
    assert_eq!(Ok(text.clone()), save_history(&m));
    let back = load_history(&text).unwrap();
    assert_eq!(back, m);
    assert_eq!(back["k"].count, 5);
    assert_eq!(back.len(), 3);
}

#[test]
fn execute_saves_the_one_entry_of_a_map_of_one() {
    let mut m: EntryMap = IndexMap::new();
    m.insert("k".to_string(), entry("true", false, false, 0));
    let done = execute("k", &mut m, &no_terminal()).unwrap();
    assert_eq!(
        done.store,
        Ok("[k]\nexec = \"true\"\ndesktop = false\nterminal = false\ncount = 1\n".to_string())
    );
}

#[test]
fn execute_of_a_terminal_application() {
    let mut m = sample_map();
    let done = execute("htop.desktop", &mut m, &template("kitty --hold -e")).unwrap();
    assert_eq!(done.launch, shell("kitty --hold -e htop"));
    assert_eq!(m["htop.desktop"].count, 8);
}

#[test]
fn execute_of_a_bare_command() {
    let mut m = sample_map();
    let done = execute("/usr/bin/ls", &mut m, &no_terminal()).unwrap();
    assert_eq!(done.launch, shell("ls -la"));
    assert_eq!(m["/usr/bin/ls"].count, 1);
}

#[test]
fn execute_on_a_missing_identifier_leaves_the_map() {
    let mut m = sample_map();
    let before = m.clone();
    assert_eq!(execute("nope", &mut m, &no_terminal()), Err(ExecError::NotFound));
    assert_eq!(m, before);
    let mut empty: EntryMap = IndexMap::new();
    assert_eq!(execute("k", &mut empty, &no_terminal()), Err(ExecError::NotFound));
    assert!(empty.is_empty());
}

#[test]
fn execute_on_a_broken_template_leaves_the_map() {
    let mut m = sample_map();
    let before = m.clone();
    assert_eq!(execute("htop.desktop", &mut m, &template("'")), Err(ExecError::ConfigParse));
    assert_eq!(m, before);
}

#[test]
fn execute_on_a_nul_character_leaves_the_map() {
    let mut m = sample_map();
    m.insert("bad".to_string(), entry("a\0b", true, true, 1));
    let before = m.clone();
    assert_eq!(execute("bad", &mut m, &no_terminal()), Err(ExecError::Nul));
    assert_eq!(m, before);
}

#[test]
fn execute_at_the_highest_count_leaves_the_map() {
    let mut m = sample_map();
    m.insert("full".to_string(), entry("true", false, false, u64::MAX));
    let before = m.clone();
    assert_eq!(execute("full", &mut m, &no_terminal()), Err(ExecError::CountOverflow));
    assert_eq!(m, before);
}

#[test]
fn execute_reports_a_count_beyond_the_store() {
    let mut m: EntryMap = IndexMap::new();
    m.insert("big".to_string(), entry("true", false, false, i64::MAX as u64));
    let done = execute("big", &mut m, &no_terminal()).unwrap();
    assert_eq!(done.launch, shell("true"));
    assert_eq!(m["big"].count, i64::MAX as u64 + 1);
    assert_eq!(done.store, Err(HistoryError::Unrepresentable));
}
