use codex_local::cli::{CliRun, LoadStep, ToolProbe, CLI_EXE, SERVER_EXE};
use codex_local::client::{
    LemonadeClient, LEMONADE_CONNECTION_ERROR, LEMONADE_OSS_PROVIDER_ID,
};
use codex_local::config::{Config, ModelProviderInfo};
use codex_local::error::{ClientError, ErrorKind};
use codex_local::http::HttpStatus;
use codex_local::json::{parse_json, Json};

fn status(code: u16) -> HttpStatus {
    HttpStatus::new(code).expect("a status code")
}

fn client() -> LemonadeClient {
    LemonadeClient::from_base_url("http://localhost:13305/api/v1".to_string())
}

fn fetch(body: &str) -> Result<Vec<String>, ClientError> {
    client().fetch_models(&Ok(status(200)), &Ok(body.as_bytes().to_vec()))
}

#[test]
fn test_fetch_models_happy_path() {
    let mut model = serde_json::Map::new();
    model.insert(
        "id".to_string(),
        serde_json::Value::from("Qwen3-30B-A3B-Instruct-2507-GGUF"),
    );
    let mut body = serde_json::Map::new();
    body.insert(
        "data".to_string(),
        serde_json::Value::Array(vec![serde_json::Value::Object(model)]),
    );
    let body = serde_json::Value::Object(body).to_string();

    let models = client()
        .fetch_models(&Ok(status(200)), &Ok(body.into_bytes()))
        .expect("fetch models");
    assert_eq!(models, vec!["Qwen3-30B-A3B-Instruct-2507-GGUF".to_string()]);
}

#[test]
fn test_fetch_models_no_data_array() {
    let body = serde_json::Value::Object(serde_json::Map::new()).to_string();

    let result = client().fetch_models(&Ok(status(200)), &Ok(body.into_bytes()));
    assert!(result.is_err());
    assert!(result
        .unwrap_err()
        .message
        .contains("No 'data' array in response"));
}

#[test]
fn fetch_models_reports_a_missing_array_as_invalid_data() {
    for body in ["{}", "[]", "null", "3", r#"{"data":{}}"#, r#"{"data":null}"#] {
        let err = fetch(body).unwrap_err();
        assert_eq!(err.kind, ErrorKind::InvalidData);
        assert_eq!(err.message, "No 'data' array in response");
    }
}

#[test]
fn fetch_models_passes_over_elements_without_a_string_id() {
    let body = r#"{"data":[{"id":"a"},{"id":7},{"name":"b"},"c",{"id":"a"},{"id":"d","id":"e"}]}"#;
    assert_eq!(fetch(body).unwrap(), vec!["a", "a", "e"]);
    assert_eq!(fetch(r#"{"data":[]}"#).unwrap(), Vec::<String>::new());
}

#[test]
fn fetch_models_reports_a_text_that_is_no_document() {
    for body in ["", "{", "nothing", r#"{"data":[]} x"#] {
        let err = fetch(body).unwrap_err();
        assert_eq!(err.kind, ErrorKind::InvalidData);
        assert_eq!(err.message, "JSON parse error: error decoding response body");
    }
}

#[test]
fn fetch_models_reports_a_body_that_cannot_be_read() {
    let err = client()
        .fetch_models(&Ok(status(200)), &Err("cut off".to_string()))
        .unwrap_err();
    assert_eq!(err.kind, ErrorKind::InvalidData);
    assert_eq!(err.message, "JSON parse error: cut off");
}

#[test]
fn fetch_models_reports_the_status_and_does_not_look_at_the_body() {
    let body = br#"{"data":[{"id":"a"}]}"#.to_vec();
    let refused = Ok(status(503));
    assert!(!LemonadeClient::wants_body(&refused));
    for body in [Ok(body), Ok(Vec::new()), Err("unread".to_string())] {
        let err = client().fetch_models(&refused, &body).unwrap_err();
        assert_eq!(err.kind, ErrorKind::Other);
        assert_eq!(err.message, "Failed to fetch models: 503 Service Unavailable");
    }
    assert!(LemonadeClient::wants_body(&Ok(status(204))));
    assert!(!LemonadeClient::wants_body(&Err("refused".to_string())));
}

#[test]
fn fetch_models_reports_a_request_that_failed() {
    let err = client()
        .fetch_models(&Err("no route".to_string()), &Ok(Vec::new()))
        .unwrap_err();
    assert_eq!(err.kind, ErrorKind::Other);
    assert_eq!(err.message, "Request failed: no route");
}

#[test]
fn models_of_a_document() {
    let doc = Json::Object(vec![(
        "data".to_string(),
        Json::Array(vec![
            Json::Object(vec![("id".to_string(), Json::Text("m1".to_string()))]),
            Json::Object(vec![("id".to_string(), Json::Number(Some(1)))]),
            Json::Object(vec![("id".to_string(), Json::Text("m2".to_string()))]),
        ]),
    )]);
    assert_eq!(LemonadeClient::models_of(&doc).unwrap(), vec!["m1", "m2"]);
    assert!(LemonadeClient::models_of(&Json::Null).is_err());
}

#[test]
fn statuses_are_those_of_three_digits() {
    assert!(HttpStatus::new(99).is_none());
    assert!(HttpStatus::new(100).is_some());
    assert!(HttpStatus::new(999).is_some());
    assert!(HttpStatus::new(1000).is_none());
    assert!(!status(199).is_success());
    assert!(status(200).is_success());
    assert!(status(299).is_success());
    assert!(!status(300).is_success());
}

#[test]
fn statuses_are_written_with_their_phrases() {
    assert_eq!(status(200).text(), "200 OK");
    assert_eq!(status(404).text(), "404 Not Found");
    assert_eq!(status(999).text(), "999 <unknown status code>");
}

#[test]
fn slashes_at_the_end_of_the_address_do_not_count() {
    for base in ["http://host/v1", "http://host/v1/", "http://host/v1///"] {
        let client = LemonadeClient::from_base_url(base.to_string());
        assert_eq!(client.models_url(), "http://host/v1/models");
        assert_eq!(client.responses_url(), "http://host/v1/responses");
    }
    assert_eq!(LemonadeClient::from_base_url("//".to_string()).models_url(), "/models");
}

#[test]
fn try_from_provider_takes_the_address_of_the_built_in_provider() {
    let mut config = Config::new(None);
    config.add_provider(
        "other".to_string(),
        ModelProviderInfo { base_url: Some("http://elsewhere".to_string()) },
    );
    let err = LemonadeClient::try_from_provider(&config).err().unwrap();
    assert_eq!(err.kind, ErrorKind::NotFound);
    assert_eq!(
        err.message,
        format!("Built-in provider {} not found", LEMONADE_OSS_PROVIDER_ID)
    );

    config.add_provider(
        LEMONADE_OSS_PROVIDER_ID.to_string(),
        ModelProviderInfo { base_url: None },
    );
    let err = LemonadeClient::try_from_provider(&config).err().unwrap();
    assert_eq!(err.kind, ErrorKind::InvalidData);
    assert_eq!(err.message, "oss provider must have a base_url");

    config.add_provider(
        LEMONADE_OSS_PROVIDER_ID.to_string(),
        ModelProviderInfo { base_url: Some("http://here/".to_string()) },
    );
    let client = LemonadeClient::try_from_provider(&config).unwrap();
    assert_eq!(client.clone().models_url(), "http://here/models");
}

#[test]
fn check_server_goes_by_the_status() {
    let client = client();
    assert!(client.check_server(&Ok(status(200))).is_ok());
    let err = client.check_server(&Ok(status(500))).unwrap_err();
    assert_eq!(err.kind, ErrorKind::Other);
    assert_eq!(
        err.message,
        format!(
            "Server returned error: 500 Internal Server Error {}",
            LEMONADE_CONNECTION_ERROR
        )
    );
    let err = client.check_server(&Err("refused".to_string())).unwrap_err();
    assert_eq!(err.message, LEMONADE_CONNECTION_ERROR);
}

#[test]
fn the_load_request_reads_back() {
    let body = LemonadeClient::load_request_body("a \"model\" \u{e9}");
    let value: serde_json::Value = serde_json::from_slice(&body).unwrap();
    let object = value.as_object().unwrap();
    assert_eq!(object.len(), 3);
    assert_eq!(object["model"].as_str(), Some("a \"model\" \u{e9}"));
    assert_eq!(object["input"].as_str(), Some(""));
    assert_eq!(object["max_output_tokens"].as_u64(), Some(1));

    let doc = parse_json(&body).unwrap();
    assert!(matches!(doc.member("max_output_tokens"), Some(Json::Number(Some(1)))));
    assert_eq!(
        doc.member("model").and_then(|m| m.as_text()).map(|s| s.as_str()),
        Some("a \"model\" \u{e9}")
    );
    assert!(doc.member("other").is_none());
}

#[test]
fn documents_are_read_as_they_are() {
    let doc = parse_json(br#"{"a":[null,true,18446744073709551615,-1,1.5,"x"],"b":{"c":{}}}"#).unwrap();
    let items = doc.member("a").unwrap().as_array().unwrap();
    assert_eq!(items.len(), 6);
    assert!(matches!(items[0], Json::Null));
    assert!(matches!(items[1], Json::Bool(true)));
    assert!(matches!(items[2], Json::Number(Some(u64::MAX))));
    assert!(matches!(items[3], Json::Number(None)));
    assert!(matches!(items[4], Json::Number(None)));
    assert_eq!(items[5].as_text().unwrap(), "x");
    assert!(doc.member("b").unwrap().member("c").is_some());
    assert!(doc.as_array().is_none());
    assert!(doc.as_text().is_none());
    assert!(parse_json(b"[1,").is_none());
}

#[test]
fn a_key_that_occurs_twice_counts_where_it_is_last() {
    let doc = Json::Object(vec![
        ("k".to_string(), Json::Bool(false)),
        ("k".to_string(), Json::Bool(true)),
    ]);
    assert!(matches!(doc.member("k"), Some(Json::Bool(true))));
}

#[test]
fn load_model_via_http_goes_by_the_status() {
    let client = client();
    assert!(client.load_model_via_http(&Ok(status(201))).is_ok());
    let err = client.load_model_via_http(&Ok(status(404))).unwrap_err();
    assert_eq!(err.message, "Failed to load model: 404 Not Found");
    let err = client.load_model_via_http(&Err("timed out".to_string())).unwrap_err();
    assert_eq!(err.message, "Request failed: timed out");
}

fn run(outcome: Result<Option<i32>, String>) -> Result<CliRun, ClientError> {
    Ok(CliRun { cli: "/bin/lemonade".to_string(), outcome })
}

fn missing() -> Result<CliRun, ClientError> {
    Err(ClientError { kind: ErrorKind::NotFound, message: "no tool".to_string() })
}

#[test]
fn load_model_asks_the_server_where_the_tool_fails() {
    let client = client();
    assert!(matches!(client.load_model("m", &missing()), LoadStep::AskServer));
    assert!(matches!(client.load_model("m", &run(Ok(Some(1)))), LoadStep::AskServer));
    assert!(matches!(client.load_model("m", &run(Ok(None))), LoadStep::AskServer));
    assert!(matches!(client.load_model("m", &run(Ok(Some(0)))), LoadStep::Finished(Ok(()))));
    match client.load_model("m", &run(Err("denied".to_string()))) {
        LoadStep::Finished(Err(err)) => {
            assert_eq!(err.kind, ErrorKind::Other);
            assert_eq!(err.message, "Failed to execute '/bin/lemonade load m': denied");
        }
        _ => panic!("a tool that cannot be run is an error"),
    }
}

#[test]
fn download_model_goes_by_the_exit_code() {
    let client = client();
    assert!(client.download_model("m", &run(Ok(Some(0)))).is_ok());
    for (code, text) in [
        (Some(3), "3"),
        (Some(-1), "-1"),
        (Some(120), "120"),
        (Some(i32::MIN), "-2147483648"),
        (Some(i32::MAX), "2147483647"),
        (None, "-1"),
    ] {
        let err = client.download_model("m", &run(Ok(code))).unwrap_err();
        assert_eq!(err.message, format!("Model download failed with exit code: {}", text));
    }
    let err = client.download_model("m", &run(Err("denied".to_string()))).unwrap_err();
    assert_eq!(err.message, "Failed to execute '/bin/lemonade pull m': denied");
    let err = client.download_model("m", &missing()).unwrap_err();
    assert_eq!(err.kind, ErrorKind::NotFound);
    assert_eq!(err.message, "no tool");
}

#[test]
fn the_tool_is_called_with_a_verb_and_the_model() {
    assert_eq!(LemonadeClient::load_args("m"), vec!["load", "m"]);
    assert_eq!(LemonadeClient::pull_args("m"), vec!["pull", "m"]);
}

#[test]
fn programs_are_looked_for_on_the_path_and_then_at_their_usual_place() {
    assert_eq!(
        LemonadeClient::usual_path(Some("C:\\Apps".to_string()), CLI_EXE),
        vec!["C:\\Apps", "lemonade_server", "bin", "lemonade.exe"]
    );
    assert_eq!(
        LemonadeClient::usual_path(None, SERVER_EXE),
        vec!["", "lemonade_server", "bin", "LemonadeServer.exe"]
    );

    let found = LemonadeClient::find_cli(ToolProbe::OnPath("/bin/lemonade".to_string()));
    assert_eq!(found.unwrap(), "/bin/lemonade");
    let found = LemonadeClient::find_cli(ToolProbe::Usual { path: "p".to_string(), exists: true });
    assert_eq!(found.unwrap(), "p");
    let err = LemonadeClient::find_cli(ToolProbe::Usual { path: "p".to_string(), exists: false })
        .unwrap_err();
    assert_eq!(err.kind, ErrorKind::NotFound);
    assert_eq!(
        err.message,
        "Lemonade CLI not found. Install it with `winget install --id AMD.LemonadeServer`."
    );

    assert_eq!(LemonadeClient::find_server_exe(ToolProbe::OnPath(7)).unwrap(), 7);
    let usual = ToolProbe::Usual { path: 8, exists: true };
    assert_eq!(LemonadeClient::find_server_exe(usual).unwrap(), 8);
    let usual = ToolProbe::Usual { path: 8, exists: false };
    let err = LemonadeClient::find_server_exe(usual).unwrap_err();
    assert_eq!(err.kind, ErrorKind::NotFound);
    assert_eq!(
        err.message,
        format!("Lemonade Server executable not found. {}", LEMONADE_CONNECTION_ERROR)
    );
}

#[test]
fn start_server_reports_why_not() {
    assert!(LemonadeClient::start_server("x.exe", &None).is_ok());
    let err = LemonadeClient::start_server("x.exe", &Some("denied".to_string())).unwrap_err();
    assert_eq!(err.kind, ErrorKind::Other);
    assert_eq!(err.message, "Failed to start Lemonade Server from 'x.exe': denied");
}
