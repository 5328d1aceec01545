//! The sign-in, as the list of steps that a driven browser performs, and the
//! rule that picks the request whose headers become the session's.
use vstd::prelude::*;
use vstd::string::StringExecFns;
use crate::client::Client;
use crate::text::same_text;

verus! {

/// Where the sign-in starts.
pub const START_URL: &'static str = "https://lcr.churchofjesuschrist.org";

/// The address whose request carries the headers of the signed-in session.
pub const CAPTURE_URL: &'static str = "https://lcr.churchofjesuschrist.org/?lang=eng";

/// The method of the request whose headers are captured.
pub const CAPTURE_METHOD: &'static str = "GET";

/// The field that takes the user's name.
pub const USERNAME_FIELD: &'static str = "input#input28";

/// The button that sends the user's name.
pub const USERNAME_SUBMIT: &'static str = "input.button.button-primary";

/// The field that takes the password.
pub const PASSWORD_FIELD: &'static str = "input[type=password]";

/// The button that sends the password and ends the sign-in.
pub const PASSWORD_SUBMIT: &'static str = "input[type=submit]";

/// The kind of request that is watched for the session's headers.
pub const CAPTURE_RESOURCE_TYPE: &'static str = "Document";

/// The stage at which a watched request is looked at: before it is sent.
pub const CAPTURE_STAGE: &'static str = "Request";

/// How long, in seconds, the browser waits for an element to appear.
pub const ELEMENT_TIMEOUT_SECONDS: u64 = 30;

/// How often the field for the user's name is clicked. A single click is lost
/// where the page loads slowly.
pub const USERNAME_CLICKS: usize = 3;

/// How long, in seconds, the sign-in rests after the password was typed.
/// Without the rest the browser sometimes fails.
pub const PAUSE_AFTER_PASSWORD_SECONDS: u64 = 1;

/// One step of the sign-in. A step that fails ends the sign-in.
#[derive(Debug)]
pub enum LoginAction {
    /// Start the browser, with or without a window, take its first tab, and
    /// let every wait for an element on it last at most `timeout_seconds`.
    Launch { headless: bool, timeout_seconds: u64 },
    /// Open the page at `url`.
    Navigate { url: String },
    /// Wait for the element that `selector` picks, and click it.
    Click { selector: String },
    /// Type `text` into the element that has the focus.
    Type { text: String },
    /// Rest for so many seconds.
    Pause { seconds: u64 },
    /// Wait for the element that `selector` picks, and keep it for `ClickHeld`.
    Hold { selector: String },
    /// From now on, look at every request of kind `resource_type` at `stage`,
    /// let it pass, and hand on the headers of those that `captures` accepts.
    Intercept { resource_type: String, stage: String },
    /// Click the element that `Hold` kept.
    ClickHeld,
    /// Wait until the headers of a request have been handed on.
    AwaitHeaders,
}

/// What a `LoginAction` holds.
pub enum LoginActionView {
    Launch { headless: bool, timeout_seconds: u64 },
    Navigate { url: Seq<char> },
    Click { selector: Seq<char> },
    Type { text: Seq<char> },
    Pause { seconds: u64 },
    Hold { selector: Seq<char> },
    Intercept { resource_type: Seq<char>, stage: Seq<char> },
    ClickHeld,
    AwaitHeaders,
}

impl View for LoginAction {
    type V = LoginActionView;

    open spec fn view(&self) -> LoginActionView {
        match self {
            LoginAction::Launch { headless, timeout_seconds } => LoginActionView::Launch {
                headless: *headless,
                timeout_seconds: *timeout_seconds,
            },
            LoginAction::Navigate { url } => LoginActionView::Navigate { url: url@ },
            LoginAction::Click { selector } => LoginActionView::Click { selector: selector@ },
            LoginAction::Type { text } => LoginActionView::Type { text: text@ },
            LoginAction::Pause { seconds } => LoginActionView::Pause { seconds: *seconds },
            LoginAction::Hold { selector } => LoginActionView::Hold { selector: selector@ },
            LoginAction::Intercept { resource_type, stage } => LoginActionView::Intercept {
                resource_type: resource_type@,
                stage: stage@,
            },
            LoginAction::ClickHeld => LoginActionView::ClickHeld,
            LoginAction::AwaitHeaders => LoginActionView::AwaitHeaders,
        }
    }
}

/// What each of `actions` holds.
pub open spec fn actions_view(actions: Seq<LoginAction>) -> Seq<LoginActionView> {
    actions.map_values(|action: LoginAction| action@)
}

/// The steps of signing in as `username`, in order: start the browser and open
/// the start page; click the name field as often as `USERNAME_CLICKS` says,
/// type the name and send it; click the password field, type the password and
/// rest; then find the button that sends it, start watching requests, click the
/// button, and wait for the headers.
pub open spec fn login_steps(username: Seq<char>, password: Seq<char>, headless: bool) -> Seq<
    LoginActionView,
> {
    seq![
        LoginActionView::Launch { headless, timeout_seconds: ELEMENT_TIMEOUT_SECONDS },
        LoginActionView::Navigate { url: START_URL@ },
    ] + Seq::new(
        USERNAME_CLICKS as nat,
        |i: int| LoginActionView::Click { selector: USERNAME_FIELD@ },
    ) + seq![
        LoginActionView::Type { text: username },
        LoginActionView::Click { selector: USERNAME_SUBMIT@ },
        LoginActionView::Click { selector: PASSWORD_FIELD@ },
        LoginActionView::Type { text: password },
        LoginActionView::Pause { seconds: PAUSE_AFTER_PASSWORD_SECONDS },
        LoginActionView::Hold { selector: PASSWORD_SUBMIT@ },
        LoginActionView::Intercept {
            resource_type: CAPTURE_RESOURCE_TYPE@,
            stage: CAPTURE_STAGE@,
        },
        LoginActionView::ClickHeld,
        LoginActionView::AwaitHeaders,
    ]
}

/// The order that the sign-in depends on: the browser is started first and only
/// once, the button that sends the password is found before requests are
/// watched, requests are watched before the button is clicked, and the wait
/// for the headers comes last.
pub proof fn lemma_login_steps_order(username: Seq<char>, password: Seq<char>, headless: bool)
    ensures
        ({
            let steps = login_steps(username, password, headless);
            &&& steps.len() == USERNAME_CLICKS + 11
            &&& steps[0] is Launch
            &&& forall|i: int| 1 <= i < steps.len() ==> !(#[trigger] steps[i] is Launch)
            &&& steps[steps.len() - 4] is Hold
            &&& steps[steps.len() - 3] is Intercept
            &&& steps[steps.len() - 2] is ClickHeld
            &&& steps[steps.len() - 1] is AwaitHeaders
        }),
{
}

/// Whether the headers of a request to `url` by `method` are those of the
/// signed-in session: the request must ask for `CAPTURE_URL` by
/// `CAPTURE_METHOD`.
pub fn captures(url: &str, method: &str) -> (captured: bool)
    ensures
        captured == (url@ == CAPTURE_URL@ && method@ == CAPTURE_METHOD@),
{
    same_text(url, CAPTURE_URL) && same_text(method, CAPTURE_METHOD)
}

/// The steps of signing in with the given name and password.
pub fn login_script(username: &str, password: &str, headless: bool) -> (script: Vec<LoginAction>)
    ensures
        actions_view(script@) == login_steps(username@, password@, headless),
{
    let mut script: Vec<LoginAction> = Vec::new();
    script.push(LoginAction::Launch { headless, timeout_seconds: ELEMENT_TIMEOUT_SECONDS });
    script.push(LoginAction::Navigate { url: String::from_str(START_URL) });
    let mut clicks: usize = 0;
    while clicks < USERNAME_CLICKS
        invariant
            clicks <= USERNAME_CLICKS,
            script@.len() == 2 + clicks,
            script@[0]@ == (LoginActionView::Launch {
                headless,
                timeout_seconds: ELEMENT_TIMEOUT_SECONDS,
            }),
            script@[1]@ == (LoginActionView::Navigate { url: START_URL@ }),
            forall|i: int|
                2 <= i < 2 + clicks ==> (#[trigger] script@[i])@ == (LoginActionView::Click {
                    selector: USERNAME_FIELD@,
                }),
        decreases USERNAME_CLICKS - clicks,
    {
        script.push(LoginAction::Click { selector: String::from_str(USERNAME_FIELD) });
        clicks = clicks + 1;
    }
    script.push(LoginAction::Type { text: String::from_str(username) });
    script.push(LoginAction::Click { selector: String::from_str(USERNAME_SUBMIT) });
    script.push(LoginAction::Click { selector: String::from_str(PASSWORD_FIELD) });
    script.push(LoginAction::Type { text: String::from_str(password) });
    script.push(LoginAction::Pause { seconds: PAUSE_AFTER_PASSWORD_SECONDS });
    script.push(LoginAction::Hold { selector: String::from_str(PASSWORD_SUBMIT) });
    script.push(
        LoginAction::Intercept {
            resource_type: String::from_str(CAPTURE_RESOURCE_TYPE),
            stage: String::from_str(CAPTURE_STAGE),
        },
    );
    script.push(LoginAction::ClickHeld);
    script.push(LoginAction::AwaitHeaders);
    assert(actions_view(script@) =~= login_steps(username@, password@, headless));
    script
}

impl Client {
    /// The steps by which this client signs in.
    pub fn login_script(&self) -> (script: Vec<LoginAction>)
        ensures
            actions_view(script@) == login_steps(
                self@.username,
                self@.password,
                self@.headless,
            ),
    {
        login_script(self.username(), self.password(), self.headless())
    }
}

} // verus!
