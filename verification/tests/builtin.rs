use potato_shell::builtin::{classify_chars, Builtin};

#[test]
fn every_builtin_name_is_recognised() {
    assert_eq!(Builtin::from_str("history"), Ok(Builtin::History));
    assert_eq!(Builtin::from_str("cd"), Ok(Builtin::Cd));
    assert_eq!(Builtin::from_str("pwd"), Ok(Builtin::Pwd));
    assert_eq!(Builtin::from_str("clear"), Ok(Builtin::Clear));
    assert_eq!(Builtin::from_str("exit"), Ok(Builtin::Exit));
    assert_eq!(Builtin::from_str("help"), Ok(Builtin::Help));
    assert_eq!(Builtin::from_str("clearHistory"), Ok(Builtin::ClearHistory));
}

#[test]
fn any_other_name_is_an_external_program() {
    assert_eq!(Builtin::from_str("ls"), Ok(Builtin::Other("ls".to_string())));
    assert_eq!(Builtin::from_str(""), Ok(Builtin::Other(String::new())));
    assert_eq!(
        Builtin::from_str("nosuchprogram"),
        Ok(Builtin::Other("nosuchprogram".to_string()))
    );
    assert_eq!(Builtin::from_str("cdx"), Ok(Builtin::Other("cdx".to_string())));
    assert_eq!(Builtin::from_str("c"), Ok(Builtin::Other("c".to_string())));
    assert_eq!(Builtin::from_str(" cd"), Ok(Builtin::Other(" cd".to_string())));
}

#[test]
fn matching_is_case_sensitive() {
    assert_eq!(Builtin::from_str("CD"), Ok(Builtin::Other("CD".to_string())));
    assert_eq!(Builtin::from_str("Pwd"), Ok(Builtin::Other("Pwd".to_string())));
    assert_eq!(Builtin::from_str("clearhistory"), Ok(Builtin::Other("clearhistory".to_string())));
    assert_eq!(Builtin::from_str("ClearHistory"), Ok(Builtin::Other("ClearHistory".to_string())));
    assert_eq!(Builtin::from_str("EXIT"), Ok(Builtin::Other("EXIT".to_string())));
}

#[test]
fn classification_never_fails() {
    for name in ["", "cd", "ls", "héllo", "a b", "\n"] {
        assert!(Builtin::from_str(name).is_ok());
    }
}

#[test]
fn classify_chars_agrees_with_from_str() {
    for name in ["history", "cd", "pwd", "clear", "exit", "help", "clearHistory", "ls", ""] {
        let chars: Vec<char> = name.chars().collect();
        assert_eq!(Ok(classify_chars(&chars)), Builtin::from_str(name));
    }
}

#[test]
fn is_other_tells_external_programs() {
    assert!(Builtin::Other("ls".to_string()).is_other());
    assert!(!Builtin::Cd.is_other());
    assert!(!Builtin::Exit.is_other());
}
