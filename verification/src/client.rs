//! The report client: who signs in, the headers of the signed-in session, and
//! the address and headers of every report request.
use vstd::prelude::*;
use vstd::string::StringExecFns;
use itertools::Itertools;
use crate::data::{PhotoInfo, VisualPerson};
use crate::error::{Error, HeadlessError};
use crate::headers::{distinct_names, Headers};
use crate::text::{decimal, decimal_text, pairs_view, same_text};
use crate::Credentials;

verus! {

/// The token that stands where a person has no photo of their own.
pub const NO_INDIVIDUAL_PHOTO: &'static str = "images/nophoto.svg";

/// The token that stands where a household has no photo.
pub const NO_HOUSEHOLD_PHOTO: &'static str = "images/nohousehold.svg";

/// The picture shown for someone who has no photo at all.
pub const PLACEHOLDER_PHOTO: &'static str =
    "https://lcr.churchofjesuschrist.org/images/nohousehold.svg";

/// The picture shown for a person: their own photo if there is one, else the
/// household's if there is one, else the placeholder.
pub open spec fn shown_photo(household_token: Seq<char>, individual_token: Seq<char>) -> Seq<char> {
    if individual_token != NO_INDIVIDUAL_PHOTO@ {
        individual_token
    } else if household_token != NO_HOUSEHOLD_PHOTO@ {
        household_token
    } else {
        PLACEHOLDER_PHOTO@
    }
}

/// The directory entry for one pair of photo records: the household's spoken
/// name beside the picture that `shown_photo` picks.
pub fn visual_person(household: &PhotoInfo, individual: &PhotoInfo) -> (person: VisualPerson)
    ensures
        person.name@ == household.spoken_name@,
        person.photo_url@ == shown_photo(household.image.token_url@, individual.image.token_url@),
{
    let photo_url = if !same_text(individual.image.token_url.as_str(), NO_INDIVIDUAL_PHOTO) {
        individual.image.token_url.clone()
    } else if !same_text(household.image.token_url.as_str(), NO_HOUSEHOLD_PHOTO) {
        household.image.token_url.clone()
    } else {
        String::from_str(PLACEHOLDER_PHOTO)
    };
    VisualPerson { name: household.spoken_name.clone(), photo_url }
}

/// Groups the records two by two with `Itertools::tuples`. The contract is
/// taken on trust from `itertools`: pair `i` is made of records `2 * i` and
/// `2 * i + 1` of the list, and a last record without a partner is left out.
#[verifier::external_body]
fn photo_pairs(photos: &Vec<PhotoInfo>) -> (pairs: Vec<(&PhotoInfo, &PhotoInfo)>)
    ensures
        pairs@.len() == photos@.len() / 2,
        forall|i: int|
            0 <= i < pairs@.len() ==> *(#[trigger] pairs@[i]).0 == photos@[2 * i] && *pairs@[i].1
                == photos@[2 * i + 1],
{
    photos.iter().tuples().collect()
}

/// The directory entries for a list of photo records, which come as a
/// household's record followed by a person's: one entry for each such pair.
pub fn visual_people(photos: &Vec<PhotoInfo>) -> (people: Vec<VisualPerson>)
    ensures
        people@.len() == photos@.len() / 2,
        forall|i: int|
            0 <= i < people@.len() ==> {
                &&& (#[trigger] people@[i]).name@ == photos@[2 * i].spoken_name@
                &&& people@[i].photo_url@ == shown_photo(
                    photos@[2 * i].image.token_url@,
                    photos@[2 * i + 1].image.token_url@,
                )
            },
{
    let pairs = photo_pairs(photos);
    let mut people: Vec<VisualPerson> = Vec::new();
    let mut i: usize = 0;
    while i < pairs.len()
        invariant
            i <= pairs.len(),
            pairs@.len() == photos@.len() / 2,
            forall|k: int|
                0 <= k < pairs@.len() ==> *(#[trigger] pairs@[k]).0 == photos@[2 * k]
                    && *pairs@[k].1 == photos@[2 * k + 1],
            people@.len() == i,
            forall|k: int|
                0 <= k < i ==> {
                    &&& (#[trigger] people@[k]).name@ == photos@[2 * k].spoken_name@
                    &&& people@[k].photo_url@ == shown_photo(
                        photos@[2 * k].image.token_url@,
                        photos@[2 * k + 1].image.token_url@,
                    )
                },
        decreases pairs.len() - i,
    {
        let (household, individual) = pairs[i];
        people.push(visual_person(household, individual));
        i = i + 1;
    }
    people
}

/// How the browser that signs in is run.
#[derive(Debug, Clone, Copy)]
pub struct ClientOptions {
    /// Whether the browser runs without a window.
    pub headless: bool,
}

impl Default for ClientOptions {
    /// The browser runs without a window.
    fn default() -> (options: Self)
        ensures
            options.headless,
    {
        Self { headless: true }
    }
}

/// The text with which a sign-in that captured no headers is refused.
pub const NO_HEADERS_MESSAGE: &'static str = "Header for making queries has no entries";

/// Whether `error` is the refusal of a sign-in that captured no headers.
pub open spec fn is_no_headers_error(error: Error) -> bool {
    match error {
        Error::Io(cause) => cause@ == NO_HEADERS_MESSAGE@,
        _ => false,
    }
}

/// What is said of a captured set of headers: a set without any header is a
/// failure of the sign-in, any other set is the session's.
pub fn checked_headers(captured: Headers) -> (checked: Result<Headers, Error>)
    ensures
        match checked {
            Ok(headers) => captured.pairs().len() > 0 && headers == captured,
            Err(error) => captured.pairs().len() == 0 && is_no_headers_error(error),
        },
{
    if captured.is_empty() {
        Err(Error::Io(String::from_str(NO_HEADERS_MESSAGE)))
    } else {
        Ok(captured)
    }
}

/// Whether `error` is what the failed attempt `attempt` to sign in comes to: a
/// failure in the browser is handed on as it is, and a capture without any
/// header is a failure of its own.
pub open spec fn is_login_failure(attempt: Result<Headers, HeadlessError>, error: Error) -> bool {
    match attempt {
        Ok(captured) => captured.pairs().len() == 0 && is_no_headers_error(error),
        Err(cause) => error == Error::Headless(cause),
    }
}

/// What an attempt to sign in comes to: the captured headers, unless the
/// browser failed or no header was captured.
pub fn login_outcome(attempt: Result<Headers, HeadlessError>) -> (outcome: Result<Headers, Error>)
    ensures
        match outcome {
            Ok(headers) => attempt == Ok::<Headers, HeadlessError>(headers) && headers.pairs().len()
                > 0,
            Err(error) => is_login_failure(attempt, error),
        },
{
    match attempt {
        Ok(captured) => checked_headers(captured),
        Err(cause) => Err(Error::Headless(cause)),
    }
}

/// What a `Client` holds.
pub struct ClientView {
    pub username: Seq<char>,
    pub password: Seq<char>,
    pub unit_number: Seq<char>,
    /// The headers of the session, once signed in, as a list without repeated
    /// names.
    pub headers: Option<Seq<(Seq<char>, Seq<char>)>>,
    pub headless: bool,
}

/// The state of one user's access to the reports of one unit: the credentials,
/// the unit, and, once signed in, the headers of the session.
#[derive(Debug)]
pub struct Client {
    credentials: Credentials,
    unit_number: String,
    headers: Option<Headers>,
    options: ClientOptions,
}

impl View for Client {
    type V = ClientView;

    closed spec fn view(&self) -> ClientView {
        ClientView {
            username: self.credentials@.username,
            password: self.credentials@.password,
            unit_number: self.unit_number@,
            headers: match self.headers {
                Some(headers) => Some(headers.pairs()),
                None => None,
            },
            headless: self.options.headless,
        }
    }
}

/// The address of the report on who moved in during the last `months` months.
pub open spec fn moved_in_address(unit_number: Seq<char>, months: nat) -> Seq<char> {
    "https://lcr.churchofjesuschrist.org/api/report/members-moved-in/unit/"@ + unit_number + "/"@
        + decimal_text(months) + "?lang=eng"@
}

/// The address of the report on who moved out during the last `months` months.
pub open spec fn moved_out_address(unit_number: Seq<char>, months: nat) -> Seq<char> {
    "https://lcr.churchofjesuschrist.org/api/umlu/report/members-moved-out/unit/"@ + unit_number
        + "/"@ + decimal_text(months) + "?lang=eng"@
}

/// The address of the member list.
pub open spec fn member_list_address(unit_number: Seq<char>) -> Seq<char> {
    "https://lcr.churchofjesuschrist.org/api/umlu/report/member-list?lang=eng&unitNumber="@
        + unit_number
}

/// The address of the approved photos.
pub open spec fn photos_address(unit_number: Seq<char>) -> Seq<char> {
    "https://lcr.churchofjesuschrist.org/api/photos/manage-photos/approved-image-individuals/"@
        + unit_number + "?lang=eng"@
}

/// The address of the profile of the member numbered `legacy_cmis_id`.
pub open spec fn member_profile_address(legacy_cmis_id: nat) -> Seq<char> {
    "https://lcr.churchofjesuschrist.org/api/records/member-profile/service/"@ + decimal_text(
        legacy_cmis_id,
    ) + "?lang=eng"@
}

/// The address of the ministering assignments of the elders, or else of the
/// Relief Society.
pub open spec fn ministering_address(unit_number: Seq<char>, elders: bool) -> Seq<char> {
    "https://lcr.churchofjesuschrist.org/api/umlu/v1/ministering/data-full?lang=eng&type="@ + (
    if elders {
        "EQ"@
    } else {
        "RS"@
    }) + "&unitNumber="@ + unit_number
}

/// The headers sent with a report request: those of the session in their
/// order, then the one that asks for JSON.
pub open spec fn request_pairs(session: Seq<(Seq<char>, Seq<char>)>) -> Seq<
    (Seq<char>, Seq<char>),
> {
    session.push(("Accept"@, "application/json"@))
}

impl Client {
    /// A signed-in client holds at least one header, and no header name twice.
    /// This holds of every client.
    #[verifier::type_invariant]
    pub closed spec fn wf(&self) -> bool {
        match self.headers {
            Some(headers) => headers.wf() && headers.pairs().len() > 0,
            None => true,
        }
    }

    /// Of every client: once signed in, its headers are not empty and name no
    /// header twice.
    pub proof fn lemma_signed_in_headers(&self)
        requires
            self.wf(),
        ensures
            self@.headers matches Some(pairs) ==> pairs.len() > 0 && distinct_names(pairs),
    {
        if let Some(headers) = self.headers {
            headers.lemma_pairs();
        }
    }

    /// A client for `username` and the unit `unit_number`, not yet signed in,
    /// whose browser runs without a window.
    pub fn new(username: &str, password: &str, unit_number: &str) -> (client: Self)
        ensures
            client@ == (ClientView {
                username: username@,
                password: password@,
                unit_number: unit_number@,
                headers: None,
                headless: true,
            }),
    {
        Self::new_with_options(username, password, unit_number, ClientOptions::default())
    }

    /// A client for `username` and the unit `unit_number`, not yet signed in,
    /// whose browser runs as `client_options` says.
    pub fn new_with_options(
        username: &str,
        password: &str,
        unit_number: &str,
        client_options: ClientOptions,
    ) -> (client: Self)
        ensures
            client@ == (ClientView {
                username: username@,
                password: password@,
                unit_number: unit_number@,
                headers: None,
                headless: client_options.headless,
            }),
    {
        Self {
            credentials: Credentials::new(username, password),
            unit_number: unit_number.to_owned(),
            headers: None,
            options: client_options,
        }
    }

    /// The name of the user who signs in.
    pub fn username(&self) -> (username: &str)
        ensures
            username@ == self@.username,
    {
        self.credentials.username()
    }

    /// The password of the user who signs in.
    pub fn password(&self) -> (password: &str)
        ensures
            password@ == self@.password,
    {
        self.credentials.password()
    }

    /// The number of the unit whose reports are read.
    pub fn unit_number(&self) -> (unit_number: &str)
        ensures
            unit_number@ == self@.unit_number,
    {
        self.unit_number.as_str()
    }

    /// Whether the browser that signs in runs without a window.
    pub fn headless(&self) -> (headless: bool)
        ensures
            headless == self@.headless,
    {
        self.options.headless
    }

    /// Whether the client holds the headers of a session.
    pub fn is_signed_in(&self) -> (signed_in: bool)
        ensures
            signed_in == self@.headers.is_some(),
    {
        self.headers.is_some()
    }

    /// Ends an attempt to sign in. An attempt that failed in the browser, or that
    /// captured no header, is refused and leaves the client as it was; any
    /// other makes the captured headers the session's.
    pub fn complete_login(&mut self, attempt: Result<Headers, HeadlessError>) -> (outcome: Result<
        (),
        Error,
    >)
        ensures
            match outcome {
                Ok(_) => attempt is Ok && attempt->Ok_0.pairs().len() > 0 && final(self)@ == (
                ClientView { headers: Some(attempt->Ok_0.pairs()), ..old(self)@ }),
                Err(error) => is_login_failure(attempt, error) && final(self)@ == old(self)@,
            },
    {
        match login_outcome(attempt) {
            Ok(headers) => {
                proof {
                    use_type_invariant(&headers);
                }
                self.headers = Some(headers);
                Ok(())
            },
            Err(error) => Err(error),
        }
    }

    /// The headers to send with a report request, or nothing before the
    /// sign-in.
    pub fn request_headers(&self) -> (headers: Option<Vec<(String, String)>>)
        ensures
            match headers {
                Some(pairs) => self@.headers matches Some(session) && pairs_view(pairs@)
                    == request_pairs(session),
                None => self@.headers is None,
            },
    {
        match &self.headers {
            None => None,
            Some(session) => {
                let entries = session.entries();
                let mut pairs: Vec<(String, String)> = Vec::new();
                let mut i: usize = 0;
                while i < entries.len()
                    invariant
                        i <= entries.len(),
                        pairs_view(pairs@) == pairs_view(entries@).take(i as int),
                    decreases entries.len() - i,
                {
                    let ghost before = pairs@;
                    pairs.push((entries[i].0.clone(), entries[i].1.clone()));
                    assert(pairs_view(pairs@) =~= pairs_view(before).push(
                        pairs_view(entries@)[i as int],
                    ));
                    assert(pairs_view(pairs@) =~= pairs_view(entries@).take(i + 1));
                    i = i + 1;
                }
                assert(pairs_view(entries@).take(entries.len() as int) =~= pairs_view(entries@));
                pairs.push((String::from_str("Accept"), String::from_str("application/json")));
                assert(pairs_view(pairs@) =~= request_pairs(session.pairs()));
                Some(pairs)
            },
        }
    }

    /// The address of the report on who moved in during the last `num_months`
    /// months.
    pub fn moved_in_url(&self, num_months: u8) -> (url: String)
        ensures
            url@ == moved_in_address(self@.unit_number, num_months as nat),
    {
        let mut url = String::from_str(
            "https://lcr.churchofjesuschrist.org/api/report/members-moved-in/unit/",
        );
        url.append(self.unit_number.as_str());
        url.append("/");
        url.append(decimal(num_months as u64).as_str());
        url.append("?lang=eng");
        url
    }

    /// The address of the report on who moved out during the last `num_months`
    /// months.
    pub fn moved_out_url(&self, num_months: u8) -> (url: String)
        ensures
            url@ == moved_out_address(self@.unit_number, num_months as nat),
    {
        let mut url = String::from_str(
            "https://lcr.churchofjesuschrist.org/api/umlu/report/members-moved-out/unit/",
        );
        url.append(self.unit_number.as_str());
        url.append("/");
        url.append(decimal(num_months as u64).as_str());
        url.append("?lang=eng");
        url
    }

    /// The address of the member list.
    pub fn member_list_url(&self) -> (url: String)
        ensures
            url@ == member_list_address(self@.unit_number),
    {
        let mut url = String::from_str(
            "https://lcr.churchofjesuschrist.org/api/umlu/report/member-list?lang=eng&unitNumber=",
        );
        url.append(self.unit_number.as_str());
        url
    }

    /// The address of the approved photos, from which the photo directory is
    /// made.
    pub fn visual_member_list_url(&self) -> (url: String)
        ensures
            url@ == photos_address(self@.unit_number),
    {
        let mut url = String::from_str(
            "https://lcr.churchofjesuschrist.org/api/photos/manage-photos/approved-image-individuals/",
        );
        url.append(self.unit_number.as_str());
        url.append("?lang=eng");
        url
    }

    /// The address of the ministering assignments: those of the elders if
    /// `elders` is set, else those of the Relief Society.
    pub fn ministering_url(&self, elders: bool) -> (url: String)
        ensures
            url@ == ministering_address(self@.unit_number, elders),
    {
        let mut url = String::from_str(
            "https://lcr.churchofjesuschrist.org/api/umlu/v1/ministering/data-full?lang=eng&type=",
        );
        if elders {
            url.append("EQ");
        } else {
            url.append("RS");
        }
        url.append("&unitNumber=");
        url.append(self.unit_number.as_str());
        url
    }

    /// The address of the profile of the member numbered `legacy_cmis_id`.
    pub fn member_profile_url(&self, legacy_cmis_id: u64) -> (url: String)
        ensures
            url@ == member_profile_address(legacy_cmis_id as nat),
    {
        let mut url = String::from_str(
            "https://lcr.churchofjesuschrist.org/api/records/member-profile/service/",
        );
        url.append(decimal(legacy_cmis_id).as_str());
        url.append("?lang=eng");
        url
    }
}

} // verus!
