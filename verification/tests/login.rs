use lcr::client::{Client, ClientOptions};
use lcr::login::{captures, login_script, LoginAction};

fn describe(action: &LoginAction) -> String {
    match action {
        LoginAction::Launch { headless, timeout_seconds } => {
            format!("launch headless={} timeout={}", headless, timeout_seconds)
        }
        LoginAction::Navigate { url } => format!("navigate {}", url),
        LoginAction::Click { selector } => format!("click {}", selector),
        LoginAction::Type { text } => format!("type {}", text),
        LoginAction::Pause { seconds } => format!("pause {}", seconds),
        LoginAction::Hold { selector } => format!("hold {}", selector),
        LoginAction::Intercept { resource_type, stage } => {
            format!("intercept {} {}", resource_type, stage)
        }
        LoginAction::ClickHeld => "click held".to_string(),
        LoginAction::AwaitHeaders => "await headers".to_string(),
    }
}

#[test]
fn login_script_lists_the_steps_in_order() {
    let script = login_script("user@example.test", "p@ss word", true);
    let steps: Vec<String> = script.iter().map(describe).collect();
    assert_eq!(
        steps,
        vec![
            "launch headless=true timeout=30",
            "navigate https://lcr.churchofjesuschrist.org",
            "click input#input28",
            "click input#input28",
            "click input#input28",
            "type user@example.test",
            "click input.button.button-primary",
            "click input[type=password]",
            "type p@ss word",
            "pause 1",
            "hold input[type=submit]",
            "intercept Document Request",
            "click held",
            "await headers",
        ]
    );
}

#[test]
fn login_script_of_a_client_uses_its_credentials_and_options() {
    let client = Client::new_with_options("me", "pw", "1", ClientOptions { headless: false });
    let steps: Vec<String> = client.login_script().iter().map(describe).collect();
    assert_eq!(steps.len(), 14);
    assert_eq!(steps[0], "launch headless=false timeout=30");
    assert_eq!(steps[5], "type me");
    assert_eq!(steps[8], "type pw");
}

#[test]
fn only_the_landing_request_is_captured() {
    assert!(captures("https://lcr.churchofjesuschrist.org/?lang=eng", "GET"));
    assert!(!captures("https://lcr.churchofjesuschrist.org/?lang=eng", "POST"));
    assert!(!captures("https://lcr.churchofjesuschrist.org/?lang=eng", "get"));
    assert!(!captures("https://lcr.churchofjesuschrist.org/", "GET"));
    assert!(!captures("https://lcr.churchofjesuschrist.org/?lang=eng&x=1", "GET"));
    assert!(!captures("", ""));
}
