use eve_toons::callback::{
    params_from_pairs, parse_callback_request, scan_line, CallbackError, EsiCallbackParams, LineKind,
};
use eve_toons::session::{
    authorised_record, record_authorisation, select_characters, ConfigError, EsiConfig,
    EsiVerifyResponse, NotFound,
};
use eve_toons::store::{CharacterData, CredentialStore};

fn record(name: &str, id: i32) -> CharacterData {
    CharacterData {
        name: name.to_string(),
        id,
        refresh_token: format!("token-{id}"),
        scopes: "esi-skills.read_skills.v1".to_string(),
    }
}

fn lines(ls: &[&str]) -> Vec<String> {
    ls.iter().map(|l| l.to_string()).collect()
}

#[test]
fn find_by_name_falls_back_to_prefix() {
    let store = CredentialStore::from_records(&vec![record("Bob", 1), record("January", 2)]);
    assert_eq!(store.find_by_name("Jan"), Some(&record("January", 2)));
    assert_eq!(store.find_by_name("Zed"), None);
}

#[test]
fn find_by_name_prefers_exact_name() {
    let store = CredentialStore::from_records(&vec![record("Janet", 1), record("Jan", 2)]);
    assert_eq!(store.find_by_name("Jan"), Some(&record("Jan", 2)));
    assert_eq!(store.find_by_name("Jane"), Some(&record("Janet", 1)));
    assert_eq!(store.find_by_name(""), Some(&record("Janet", 1)));
}

#[test]
fn insert_replaces_record_of_same_name() {
    let mut store = CredentialStore::new();
    store.insert(record("Ann", 1));
    store.insert(record("Bo", 2));
    let mut again = record("Ann", 1);
    again.refresh_token = "fresh".to_string();
    store.insert(again.clone());
    assert_eq!(store.len(), 2);
    assert_eq!(store.toons, vec![again, record("Bo", 2)]);
}

#[test]
fn later_records_win_when_loading() {
    let mut second = record("Ann", 7);
    second.scopes = "other".to_string();
    let store = CredentialStore::from_records(&vec![record("Ann", 1), record("Cy", 3), second.clone()]);
    assert_eq!(store.toons, vec![second, record("Cy", 3)]);
}

#[test]
fn authorisation_upserts_record() {
    let mut store = CredentialStore::from_records(&vec![record("Ann", 1)]);
    let verify = EsiVerifyResponse {
        character_id: 1,
        character_name: "Ann".to_string(),
        scopes: "s".to_string(),
    };
    record_authorisation(&mut store, &verify, "new-token".to_string());
    assert_eq!(
        store.toons,
        vec![CharacterData {
            name: "Ann".to_string(),
            id: 1,
            refresh_token: "new-token".to_string(),
            scopes: "s".to_string()
        }]
    );
    let other = EsiVerifyResponse { character_id: 9, character_name: "Di".to_string(), scopes: "t".to_string() };
    assert_eq!(authorised_record(&other, "r".to_string()).id, 9);
    record_authorisation(&mut store, &other, "r".to_string());
    assert_eq!(store.len(), 2);
}

#[test]
fn selection_covers_all_or_the_named_character() {
    let store = CredentialStore::from_records(&vec![record("Ann", 1), record("January", 2)]);
    assert_eq!(select_characters(&store, None), Ok(vec![record("Ann", 1), record("January", 2)]));
    assert_eq!(select_characters(&store, Some("Jan")), Ok(vec![record("January", 2)]));
    assert_eq!(select_characters(&store, Some("Q")), Err(NotFound));
}

#[test]
fn config_needs_id_and_secret() {
    let c = EsiConfig::from_values(Some("id".to_string()), Some("secret".to_string())).unwrap();
    assert_eq!(c.client_id, "id");
    assert_eq!(c.client_secret, "secret");
    assert_eq!(c.callback_url, "http://localhost:5000/esi/callback");
    assert_eq!(c.user_agent, "eve-toons-agent");
    assert_eq!(EsiConfig::from_values(None, Some("s".to_string())), Err(ConfigError::MissingClientId));
    assert_eq!(EsiConfig::from_values(Some("i".to_string()), None), Err(ConfigError::MissingClientSecret));
}

#[test]
fn callback_request_yields_code_and_state() {
    let req = lines(&["GET /esi/callback?code=ABC&state=XYZ HTTP/1.1\r\n", "\r\n"]);
    let expected = EsiCallbackParams { code: "ABC".to_string(), state: "XYZ".to_string() };
    assert_eq!(parse_callback_request(&req), Ok(Some(expected)));
}

#[test]
fn callback_request_with_headers_and_trailing_lines() {
    let req = lines(&[
        "GET /esi/callback?state=s1&code=c1 HTTP/1.1\r\n",
        "Host: localhost:5000\r\n",
        "\r\n",
        "GET /esi/callback?code=late HTTP/1.1\r\n",
    ]);
    let expected = EsiCallbackParams { code: "c1".to_string(), state: "s1".to_string() };
    assert_eq!(parse_callback_request(&req), Ok(Some(expected)));
}

#[test]
fn request_without_callback_line_yields_nothing() {
    let req = lines(&["GET /favicon.ico HTTP/1.1\r\n", "Host: localhost\r\n", "\r\n"]);
    assert_eq!(parse_callback_request(&req), Ok(None));
    assert_eq!(parse_callback_request(&Vec::new()), Ok(None));
}

#[test]
fn callback_line_without_space_is_rejected() {
    let req = lines(&["GET /esi/callback?code=A&state=B", "\r\n"]);
    assert_eq!(parse_callback_request(&req), Err(CallbackError::UnterminatedTarget));
}

#[test]
fn callback_query_missing_state_is_rejected() {
    assert_eq!(
        scan_line("GET /esi/callback?code=ABC HTTP/1.1\r\n"),
        Err(CallbackError::MalformedQuery)
    );
}

#[test]
fn callback_query_is_percent_decoded() {
    let r = scan_line("GET /esi/callback?code=A%20B&state=x%2Fy HTTP/1.1\r\n");
    let expected = EsiCallbackParams { code: "A B".to_string(), state: "x/y".to_string() };
    assert_eq!(r, Ok(LineKind::Callback(expected)));
}

#[test]
fn line_kinds() {
    assert_eq!(scan_line("\r\n"), Ok(LineKind::EndOfHeaders));
    assert_eq!(scan_line("Accept: */*\r\n"), Ok(LineKind::Other));
    assert_eq!(scan_line("GET /esi/other?code=1&state=2 HTTP/1.1\r\n"), Ok(LineKind::Other));
}

#[test]
fn pairs_pick_last_code_and_state() {
    let pairs = vec![
        ("code".to_string(), "1".to_string()),
        ("state".to_string(), "s".to_string()),
        ("code".to_string(), "2".to_string()),
    ];
    let expected = EsiCallbackParams { code: "2".to_string(), state: "s".to_string() };
    assert_eq!(params_from_pairs(&pairs), Some(expected));
    assert_eq!(params_from_pairs(&vec![("code".to_string(), "1".to_string())]), None);
}
