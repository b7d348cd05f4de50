use mlr::{RunnerDesc, RunnerDescError};

#[test]
fn bare_path_is_a_module() {
    match RunnerDesc::parse("players/bot.wasm").unwrap() {
        RunnerDesc::Source { source } => assert_eq!(source, "players/bot.wasm"),
        other => panic!("unexpected {:?}", other),
    }
}

#[test]
fn file_and_local_are_modules() {
    for text in ["file:a/b.wasm", "local:a/b.wasm"].iter() {
        match RunnerDesc::parse(text).unwrap() {
            RunnerDesc::Source { source } => assert_eq!(source, "a/b.wasm"),
            other => panic!("unexpected {:?}", other),
        }
    }
}

#[test]
fn only_the_first_colon_splits() {
    match RunnerDesc::parse("file:C:/bots/x.wasm").unwrap() {
        RunnerDesc::Source { source } => assert_eq!(source, "C:/bots/x.wasm"),
        other => panic!("unexpected {:?}", other),
    }
}

#[test]
fn command_is_split_into_shell_words() {
    match RunnerDesc::parse("command:./bot --name 'Big Bot' x").unwrap() {
        RunnerDesc::Command { command, args } => {
            assert_eq!(command, "./bot");
            assert_eq!(args, vec!["--name", "Big Bot", "x"]);
        }
        other => panic!("unexpected {:?}", other),
    }
}

#[test]
fn command_without_words_is_refused() {
    assert!(matches!(RunnerDesc::parse("command:   "), Err(RunnerDescError::NoCommand)));
}

#[test]
fn command_with_open_quote_is_refused() {
    assert!(matches!(
        RunnerDesc::parse("command:bot 'unterminated"),
        Err(RunnerDescError::NotShellWords)
    ));
}

#[test]
fn unknown_kind_is_refused() {
    match RunnerDesc::parse("docker:image") {
        Err(RunnerDescError::UnknownType(k)) => assert_eq!(k, "docker"),
        other => panic!("unexpected {:?}", other),
    }
}

#[test]
fn from_path_describes_a_module() {
    match RunnerDesc::from_path("x.wasm".to_string()).unwrap() {
        RunnerDesc::Source { source } => assert_eq!(source, "x.wasm"),
        other => panic!("unexpected {:?}", other),
    }
}
