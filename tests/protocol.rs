use fpm::{parse_request, Answer, Commands, Outcome, Request, Response, Verb};

fn w(x: &str) -> Vec<String> {
    x.split_whitespace().map(|t| t.to_string()).collect()
}

#[test]
fn response_lines() {
    assert_eq!(Response::Data("x y".to_string()).to_string(), "data x y");
    assert_eq!(Response::Error("bad".to_string()).to_string(), "error bad");
    assert_eq!(Response::Successfully(Some("ok".to_string())).to_string(), "success ok");
    assert_eq!(Response::Successfully(None).to_string(), "success");
}

#[test]
fn request_verb_and_joined_argument() {
    match parse_request(&w("start  my   app ")) {
        Request::Command(v, arg) => {
            assert_eq!(v, Verb::Start);
            assert_eq!(arg, "my app");
        }
        other => panic!("{:?}", other),
    }
    match parse_request(&w("status")) {
        Request::Command(v, arg) => {
            assert_eq!(v, Verb::Status);
            assert_eq!(arg, "");
        }
        other => panic!("{:?}", other),
    }
}

#[test]
fn request_unknown_and_empty() {
    assert!(matches!(parse_request(&w("launch x")), Request::Unknown));
    assert!(matches!(parse_request(&w("   ")), Request::Empty));
    assert_eq!(Outcome::UnknownCommand.response().to_string(), "error Unknown command");
    assert_eq!(Outcome::NoCommand.response().to_string(), "error The command was not found");
}

#[test]
fn every_verb_parses() {
    for (t, v) in [
        ("start", Verb::Start),
        ("stop", Verb::Stop),
        ("restart", Verb::Restart),
        ("status", Verb::Status),
        ("backup", Verb::Backup),
        ("delete", Verb::Delete),
    ] {
        assert_eq!(Verb::parse(&t.to_string()), Some(v));
    }
    assert_eq!(Verb::parse(&"Start".to_string()), None);
}

#[test]
fn answer_decoding() {
    assert!(matches!(Answer::from_words(&w("success")), Answer::Successfully(None)));
    match Answer::from_words(&w("success Process   started")) {
        Answer::Successfully(Some(t)) => assert_eq!(t, "Process started"),
        other => panic!("{:?}", other),
    }
    match Answer::from_words(&w("error Couldn't find the process")) {
        Answer::Error(t) => assert_eq!(t, "Couldn't find the process"),
        other => panic!("{:?}", other),
    }
    match Answer::from_words(&w("data 0. web - Started")) {
        Answer::Data(t) => assert_eq!(t, "0. web - Started"),
        other => panic!("{:?}", other),
    }
    assert!(matches!(Answer::from_words(&w("hello")), Answer::Invalid));
    assert!(matches!(Answer::from_words(&w("")), Answer::Invalid));
}

#[test]
fn answer_texts() {
    assert_eq!(Answer::Error("x".to_string()).to_text(), "Error: x");
    assert_eq!(Answer::Successfully(None).to_text(), "Successfully");
    assert_eq!(Answer::Successfully(Some("y".to_string())).to_text(), "Successfully: y");
    assert_eq!(Answer::Data("d".to_string()).to_text(), "d");
    assert_eq!(Answer::Invalid.to_text(), "Invalid");
}

#[test]
fn client_request_lines() {
    assert_eq!(Commands::Start("web".to_string()).request_text(), "start web");
    assert_eq!(Commands::Status(None).request_text(), "status ");
    assert_eq!(Commands::Backup.request_text(), "backup ");
    assert_eq!(Commands::Delete("3".to_string()).request_text(), "delete 3");
}

#[test]
fn outcome_replies() {
    assert_eq!(Outcome::Started.response().to_string(), "success Process started");
    assert_eq!(Outcome::ProcessMissing.response().to_string(), "error Couldn't find the process");
    assert_eq!(
        Outcome::ConfigMissing.response().to_string(),
        "error The ecosystem file could not be found"
    );
    assert_eq!(Outcome::BackupSaved.response().to_string(), "success Backup saved successfully");
}
