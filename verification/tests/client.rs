use lcr::client::{
    checked_headers, login_outcome, visual_people, visual_person, Client, ClientOptions,
    NO_HEADERS_MESSAGE, NO_HOUSEHOLD_PHOTO, NO_INDIVIDUAL_PHOTO, PLACEHOLDER_PHOTO,
};
use lcr::headers::Headers;
use lcr::data::{Image, PhotoInfo};
use lcr::error::{Error, HeadlessError};
use lcr::Credentials;

fn photo(name: &str, token: &str) -> PhotoInfo {
    PhotoInfo { spoken_name: name.to_string(), image: Image { token_url: token.to_string() } }
}

fn pair(name: &str, value: &str) -> (String, String) {
    (name.to_string(), value.to_string())
}

#[test]
fn credentials_keep_what_they_were_given() {
    let credentials = Credentials::new("user", "secret");
    assert_eq!(credentials.username(), "user");
    assert_eq!(credentials.password(), "secret");
}

#[test]
fn options_default_to_headless() {
    assert!(ClientOptions::default().headless);
}

#[test]
fn new_client_is_not_signed_in() {
    let client = Client::new("user", "secret", "17515");
    assert_eq!(client.username(), "user");
    assert_eq!(client.password(), "secret");
    assert_eq!(client.unit_number(), "17515");
    assert!(client.headless());
    assert!(!client.is_signed_in());
    assert!(client.request_headers().is_none());
}

#[test]
fn new_client_with_options_keeps_them() {
    let client = Client::new_with_options("u", "p", "1", ClientOptions { headless: false });
    assert!(!client.headless());
    assert!(!client.is_signed_in());
}

#[test]
fn report_addresses() {
    let client = Client::new("user", "secret", "17515");
    assert_eq!(
        client.moved_in_url(2),
        "https://lcr.churchofjesuschrist.org/api/report/members-moved-in/unit/17515/2?lang=eng"
    );
    assert_eq!(
        client.moved_out_url(254),
        "https://lcr.churchofjesuschrist.org/api/umlu/report/members-moved-out/unit/17515/254?lang=eng"
    );
    assert_eq!(
        client.moved_in_url(0),
        "https://lcr.churchofjesuschrist.org/api/report/members-moved-in/unit/17515/0?lang=eng"
    );
    assert_eq!(
        client.member_list_url(),
        "https://lcr.churchofjesuschrist.org/api/umlu/report/member-list?lang=eng&unitNumber=17515"
    );
    assert_eq!(
        client.visual_member_list_url(),
        "https://lcr.churchofjesuschrist.org/api/photos/manage-photos/approved-image-individuals/17515?lang=eng"
    );
    assert_eq!(
        client.ministering_url(true),
        "https://lcr.churchofjesuschrist.org/api/umlu/v1/ministering/data-full?lang=eng&type=EQ&unitNumber=17515"
    );
    assert_eq!(
        client.ministering_url(false),
        "https://lcr.churchofjesuschrist.org/api/umlu/v1/ministering/data-full?lang=eng&type=RS&unitNumber=17515"
    );
    assert_eq!(
        client.member_profile_url(12345678901),
        "https://lcr.churchofjesuschrist.org/api/records/member-profile/service/12345678901?lang=eng"
    );
}

#[test]
fn headers_hold_one_value_for_each_name() {
    let headers = Headers::new(vec![pair("cookie", "a=1"), pair("x-token", "t"), pair("cookie", "a=2")]);
    assert!(!headers.is_empty());
    assert_eq!(headers.entries(), &vec![pair("cookie", "a=2"), pair("x-token", "t")]);
}

#[test]
fn headers_insert_replaces_or_appends() {
    let mut headers = Headers::empty();
    assert!(headers.is_empty());
    headers.insert("a".to_string(), "1".to_string());
    headers.insert("b".to_string(), "2".to_string());
    headers.insert("a".to_string(), "3".to_string());
    assert_eq!(headers.entries(), &vec![pair("a", "3"), pair("b", "2")]);
    assert!(!headers.is_empty());
}

#[test]
fn empty_capture_is_a_data_error() {
    match checked_headers(Headers::empty()) {
        Err(Error::Io(cause)) => assert_eq!(cause, NO_HEADERS_MESSAGE),
        other => panic!("an empty capture was taken as {:?}", other),
    }
    match checked_headers(Headers::new(Vec::new())) {
        Err(Error::Io(cause)) => assert_eq!(cause, "Header for making queries has no entries"),
        other => panic!("an empty capture was taken as {:?}", other),
    }
}

#[test]
fn capture_with_headers_is_kept() {
    match checked_headers(Headers::new(vec![pair("cookie", "a=1")])) {
        Ok(headers) => assert_eq!(headers.entries(), &vec![pair("cookie", "a=1")]),
        Err(error) => panic!("a capture with a header was refused: {:?}", error),
    }
}

#[test]
fn login_with_empty_capture_fails_and_changes_nothing() {
    let mut client = Client::new("user", "secret", "17515");
    let outcome = client.complete_login(Ok(Headers::empty()));
    assert!(matches!(outcome, Err(Error::Io(_))));
    assert!(!client.is_signed_in());
    assert!(client.request_headers().is_none());
    assert_eq!(client.unit_number(), "17515");
}

#[test]
fn login_that_failed_in_the_browser_fails_with_its_cause() {
    let mut client = Client::new("user", "secret", "17515");
    match client.complete_login(Err(HeadlessError::Wrapped("element not found".to_string()))) {
        Err(Error::Headless(HeadlessError::Wrapped(cause))) => assert_eq!(cause, "element not found"),
        other => panic!("a failure in the browser was taken as {:?}", other),
    }
    assert!(!client.is_signed_in());
    match login_outcome(Err(HeadlessError::String("bad options".to_string()))) {
        Err(Error::Headless(HeadlessError::String(cause))) => assert_eq!(cause, "bad options"),
        other => panic!("a failure in the browser was taken as {:?}", other),
    }
    match login_outcome(Ok(Headers::empty())) {
        Err(Error::Io(cause)) => assert_eq!(cause, NO_HEADERS_MESSAGE),
        other => panic!("an empty capture was taken as {:?}", other),
    }
    match login_outcome(Ok(Headers::new(vec![pair("cookie", "a=1")]))) {
        Ok(headers) => assert_eq!(headers.entries(), &vec![pair("cookie", "a=1")]),
        Err(error) => panic!("a capture with a header was refused: {:?}", error),
    }
}

#[test]
fn login_with_headers_signs_in() {
    let mut client = Client::new("user", "secret", "17515");
    let outcome =
        client.complete_login(Ok(Headers::new(vec![pair("cookie", "a=1"), pair("x-csrf", "z")])));
    assert!(outcome.is_ok());
    assert!(client.is_signed_in());
    assert_eq!(
        client.request_headers(),
        Some(vec![pair("cookie", "a=1"), pair("x-csrf", "z"), pair("Accept", "application/json")])
    );
    assert_eq!(client.username(), "user");
}

#[test]
fn failed_login_after_a_good_one_keeps_the_session() {
    let mut client = Client::new("user", "secret", "17515");
    assert!(client.complete_login(Ok(Headers::new(vec![pair("cookie", "a=1")]))).is_ok());
    assert!(client.complete_login(Ok(Headers::empty())).is_err());
    assert!(client.complete_login(Err(HeadlessError::String("no browser".to_string()))).is_err());
    assert!(client.is_signed_in());
    assert_eq!(
        client.request_headers(),
        Some(vec![pair("cookie", "a=1"), pair("Accept", "application/json")])
    );
}

#[test]
fn individual_photo_comes_first() {
    let person = visual_person(&photo("Smith, John", "house.jpg"), &photo("John Smith", "john.jpg"));
    assert_eq!(person.name, "Smith, John");
    assert_eq!(person.photo_url, "john.jpg");
}

#[test]
fn household_photo_stands_in() {
    let person = visual_person(&photo("Smith, John", "house.jpg"), &photo("John", NO_INDIVIDUAL_PHOTO));
    assert_eq!(person.name, "Smith, John");
    assert_eq!(person.photo_url, "house.jpg");
}

#[test]
fn placeholder_where_there_is_no_photo() {
    let person =
        visual_person(&photo("Smith, John", "images/nohousehold.svg"), &photo("John", "images/nophoto.svg"));
    assert_eq!(person.name, "Smith, John");
    assert_eq!(person.photo_url, "https://lcr.churchofjesuschrist.org/images/nohousehold.svg");
    assert_eq!(person.photo_url, PLACEHOLDER_PHOTO);
    assert_eq!(NO_HOUSEHOLD_PHOTO, "images/nohousehold.svg");
}

#[test]
fn household_sentinel_as_individual_photo_is_a_photo() {
    let person = visual_person(&photo("A", "house.jpg"), &photo("a", "images/nohousehold.svg"));
    assert_eq!(person.photo_url, "images/nohousehold.svg");
    let person = visual_person(&photo("A", "images/nophoto.svg"), &photo("a", "images/nophoto.svg"));
    assert_eq!(person.photo_url, "images/nophoto.svg");
}

#[test]
fn photos_are_paired_in_order() {
    let photos = vec![
        photo("One", "h1.jpg"),
        photo("one", "i1.jpg"),
        photo("Two", "h2.jpg"),
        photo("two", "images/nophoto.svg"),
        photo("Three", "images/nohousehold.svg"),
        photo("three", "images/nophoto.svg"),
    ];
    let people = visual_people(&photos);
    assert_eq!(people.len(), 3);
    assert_eq!(people[0].name, "One");
    assert_eq!(people[0].photo_url, "i1.jpg");
    assert_eq!(people[1].name, "Two");
    assert_eq!(people[1].photo_url, "h2.jpg");
    assert_eq!(people[2].name, "Three");
    assert_eq!(people[2].photo_url, "https://lcr.churchofjesuschrist.org/images/nohousehold.svg");
}

#[test]
fn a_photo_without_partner_is_left_out() {
    let photos = vec![photo("One", "h1.jpg"), photo("one", "i1.jpg"), photo("Two", "h2.jpg")];
    let people = visual_people(&photos);
    assert_eq!(people.len(), 1);
    assert_eq!(people[0].name, "One");
    assert!(visual_people(&Vec::new()).is_empty());
    assert!(visual_people(&vec![photo("One", "h1.jpg")]).is_empty());
}
