use chrome_for_testing::api::exchange::Exchange;
use chrome_for_testing::api::json::Json;
use chrome_for_testing::api::known_good_versions::{
    read_response, Downloads, KnownGoodVersions, VersionWithoutChannel,
};
use chrome_for_testing::api::platform::Platform;
use chrome_for_testing::api::timestamp::Timestamp;
use chrome_for_testing::api::version::Version;
use chrome_for_testing::api::{Download, HasVersion};
use chrome_for_testing::error::{Error, NetworkError, SchemaError, SerializationError};

const TOKENS: [(Platform, &str); 5] = [
    (Platform::Linux64, "linux64"),
    (Platform::MacArm64, "mac-arm64"),
    (Platform::MacX64, "mac-x64"),
    (Platform::Win32, "win32"),
    (Platform::Win64, "win64"),
];

fn url(version: &str, token: &str, artifact: &str) -> String {
    format!(
        "https://storage.googleapis.com/chrome-for-testing-public/{}/{}/{}-{}.zip",
        version, token, artifact, token
    )
}

fn list(version: &str, artifact: &str) -> Vec<Download> {
    TOKENS
        .iter()
        .map(|(platform, token)| Download { platform: *platform, url: url(version, token, artifact) })
        .collect()
}

fn list_json(version: &str, artifact: &str) -> String {
    let items: Vec<String> = TOKENS
        .iter()
        .map(|(_, token)| {
            format!("{{\"platform\": \"{}\", \"url\": \"{}\"}}", token, url(version, token, artifact))
        })
        .collect();
    format!("[{}]", items.join(", "))
}

fn response_body() -> String {
    format!(
        "{{\"timestamp\": \"2025-01-17T10:09:31.689Z\", \"versions\": [\
         {{\"version\": \"113.0.5672.0\", \"revision\": \"1121455\", \
           \"downloads\": {{\"chrome\": {}}}}}, \
         {{\"version\": \"134.0.6962.0\", \"revision\": \"1407692\", \
           \"downloads\": {{\"chrome\": {}, \"chromedriver\": {}}}}}]}}",
        list_json("113.0.5672.0", "chrome"),
        list_json("134.0.6962.0", "chrome"),
        list_json("134.0.6962.0", "chromedriver"),
    )
}

fn ok(body: &str) -> Exchange {
    Exchange::Response { status: 200, body: body.as_bytes().to_vec() }
}

fn schema_error(body: &str) -> SchemaError {
    match KnownGoodVersions::parse(body.as_bytes()) {
        Err(SerializationError::Schema(error)) => error,
        other => panic!("{:?}", other),
    }
}

#[test]
fn can_query_known_good_versions_api_endpoint_and_deserialize_response() {
    let data = read_response(ok(&response_body())).unwrap();

    assert_eq!(
        data,
        KnownGoodVersions {
            timestamp: Timestamp { unix_nanos: 1_737_108_571_689_000_000, offset_seconds: 0 },
            versions: vec![
                VersionWithoutChannel {
                    version: Version { major: 113, minor: 0, patch: 5672, build: 0 },
                    revision: String::from("1121455"),
                    downloads: Downloads {
                        chrome: list("113.0.5672.0", "chrome"),
                        chromedriver: None,
                    },
                },
                VersionWithoutChannel {
                    version: Version { major: 134, minor: 0, patch: 6962, build: 0 },
                    revision: String::from("1407692"),
                    downloads: Downloads {
                        chrome: list("134.0.6962.0", "chrome"),
                        chromedriver: Some(list("134.0.6962.0", "chromedriver")),
                    },
                },
            ],
        }
    );
}

#[test]
fn known_good_versions_keeps_entries_in_order() {
    let data = read_response(ok(&response_body())).unwrap();
    assert_eq!(data.versions.len(), 2);
    assert_eq!(data.versions[0].version(), Version { major: 113, minor: 0, patch: 5672, build: 0 });
    assert_eq!(data.versions[1].version(), Version { major: 134, minor: 0, patch: 6962, build: 0 });
    assert!(data.versions[0].downloads.chromedriver.is_none());
    assert_eq!(data.versions[1].downloads.chromedriver.as_ref().map(|list| list.len()), Some(5));
    assert_eq!(
        data.versions[1].downloads.chrome[1],
        Download {
            platform: Platform::MacArm64,
            url: String::from(
                "https://storage.googleapis.com/chrome-for-testing-public/134.0.6962.0/mac-arm64/chrome-mac-arm64.zip"
            ),
        }
    );
}

#[test]
fn a_missing_driver_list_differs_from_an_empty_one() {
    let missing = Json::parse(br#"{"chrome": []}"#).unwrap();
    let null = Json::parse(br#"{"chrome": [], "chromedriver": null}"#).unwrap();
    let empty = Json::parse(br#"{"chrome": [], "chromedriver": []}"#).unwrap();
    let missing = Downloads::from_json(&missing).unwrap();
    let null = Downloads::from_json(&null).unwrap();
    let empty = Downloads::from_json(&empty).unwrap();
    assert_eq!(missing, Downloads { chrome: vec![], chromedriver: None });
    assert_eq!(null, Downloads { chrome: vec![], chromedriver: None });
    assert_eq!(empty, Downloads { chrome: vec![], chromedriver: Some(vec![]) });
    assert_ne!(missing, empty);
}

#[test]
fn a_truncated_body_is_a_serialization_error() {
    let body = response_body();
    let truncated = &body[..body.len() / 2];
    match read_response(ok(truncated)) {
        Err(Error::Serialization(SerializationError::Syntax(message))) => {
            assert!(!message.is_empty())
        }
        other => panic!("{:?}", other),
    }
    assert!(matches!(
        read_response(ok("")),
        Err(Error::Serialization(SerializationError::Syntax(_)))
    ));
}

#[test]
fn an_exchange_that_failed_is_a_network_error() {
    let exchange = Exchange::Failed(String::from("error trying to connect: connection refused"));
    match read_response(exchange) {
        Err(Error::Network(NetworkError::Transport(reason))) => {
            assert_eq!(reason, "error trying to connect: connection refused")
        }
        other => panic!("{:?}", other),
    }
}

#[test]
fn a_status_outside_the_200s_is_a_network_error() {
    for status in [199u16, 301, 404, 500] {
        let exchange = Exchange::Response { status, body: response_body().into_bytes() };
        assert!(matches!(
            read_response(exchange),
            Err(Error::Network(NetworkError::Status(s))) if s == status
        ));
    }
    let exchange = Exchange::Response { status: 204, body: response_body().into_bytes() };
    assert_eq!(read_response(exchange).unwrap().versions.len(), 2);
}

#[test]
fn members_of_another_name_are_passed_over() {
    let body = r#"{"extra": 1, "timestamp": "2025-01-17T10:09:31.689Z", "versions": [
        {"version": "1.2.3.4", "revision": "r", "more": [], "downloads": {"chrome": [
            {"platform": "win64", "url": "u", "size": 3}], "other": {}}}]}"#;
    let data = KnownGoodVersions::parse(body.as_bytes()).unwrap();
    assert_eq!(data.versions.len(), 1);
    assert_eq!(
        data.versions[0].downloads.chrome,
        vec![Download { platform: Platform::Win64, url: String::from("u") }]
    );
}

#[test]
fn each_departure_from_the_shape_has_its_error() {
    assert_eq!(schema_error("[]"), SchemaError::UnexpectedType);
    assert_eq!(schema_error("{}"), SchemaError::MissingField);
    assert_eq!(schema_error(r#"{"timestamp": 5, "versions": []}"#), SchemaError::UnexpectedType);
    assert_eq!(
        schema_error(r#"{"timestamp": "yesterday", "versions": []}"#),
        SchemaError::MalformedTimestamp
    );
    assert_eq!(
        schema_error(r#"{"timestamp": "2025-01-17T10:09:31.689Z"}"#),
        SchemaError::MissingField
    );
    assert_eq!(
        schema_error(r#"{"timestamp": "2025-01-17T10:09:31.689Z", "versions": {}}"#),
        SchemaError::UnexpectedType
    );
    let entry = |entry: &str| {
        schema_error(&format!(
            "{{\"timestamp\": \"2025-01-17T10:09:31.689Z\", \"versions\": [{}]}}",
            entry
        ))
    };
    assert_eq!(entry("7"), SchemaError::UnexpectedType);
    assert_eq!(entry(r#"{"revision": "r", "downloads": {"chrome": []}}"#), SchemaError::MissingField);
    assert_eq!(
        entry(r#"{"version": "1.2.3", "revision": "r", "downloads": {"chrome": []}}"#),
        SchemaError::MalformedVersion
    );
    assert_eq!(
        entry(r#"{"version": "1.2.3.4", "revision": 9, "downloads": {"chrome": []}}"#),
        SchemaError::UnexpectedType
    );
    assert_eq!(entry(r#"{"version": "1.2.3.4", "revision": "r"}"#), SchemaError::MissingField);
    assert_eq!(
        entry(r#"{"version": "1.2.3.4", "revision": "r", "downloads": {}}"#),
        SchemaError::MissingField
    );
    assert_eq!(
        entry(r#"{"version": "1.2.3.4", "revision": "r", "downloads": {"chrome": [
            {"platform": "solaris", "url": "u"}]}}"#),
        SchemaError::UnknownPlatform
    );
    assert_eq!(
        entry(r#"{"version": "1.2.3.4", "revision": "r", "downloads": {"chrome": [],
            "chromedriver": "none"}}"#),
        SchemaError::UnexpectedType
    );
}

#[test]
fn the_first_entry_that_cannot_be_read_decides_the_error() {
    let body = r#"{"timestamp": "2025-01-17T10:09:31.689Z", "versions": [
        {"version": "1.2.3.4", "revision": "r", "downloads": {"chrome": []}},
        {"version": "x", "revision": "r", "downloads": {"chrome": []}},
        {"version": "1.2.3.4", "downloads": {"chrome": []}}]}"#;
    assert_eq!(schema_error(body), SchemaError::MalformedVersion);
}

#[test]
fn from_json_reads_a_document_built_by_hand() {
    let member = |name: &str, json: Json| (String::from(name), json);
    let text = |s: &str| Json::Text(String::from(s));
    let json = Json::Object(vec![
        member("version", text("113.0.5672.0")),
        member("revision", text("1121455")),
        member(
            "downloads",
            Json::Object(vec![member(
                "chrome",
                Json::Array(vec![Json::Object(vec![
                    member("platform", text("linux64")),
                    member("url", text("u")),
                ])]),
            )]),
        ),
    ]);
    assert_eq!(
        VersionWithoutChannel::from_json(&json),
        Ok(VersionWithoutChannel {
            version: Version { major: 113, minor: 0, patch: 5672, build: 0 },
            revision: String::from("1121455"),
            downloads: Downloads {
                chrome: vec![Download { platform: Platform::Linux64, url: String::from("u") }],
                chromedriver: None,
            },
        })
    );
}
