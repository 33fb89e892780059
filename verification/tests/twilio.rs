use mariners_warner::twilio::{
    convert_to_string, deserialize_twilio_response, rejection_of, response_text, send_text_message,
    CommandExecutor,
    HTTPExecutor, SMSError, SMSExecutor, SubresourceURIs, TwilioConfig,
};

struct SuccesfulMockExecutor;
struct FailingMockExecutor;

impl SMSExecutor for SuccesfulMockExecutor {
    fn execute(&self, _: &str, _: &str, body: &str, _: &str, _: &str) -> Result<Vec<u8>, String> {
        let data = r#"
            {
                "account_sid": "ABCD1234",
                "api_version": "2010-04-01",
                "body": "{body}",
                "date_created": "Thu, 30 Jul 2015 20:12:31 +0000",
                "date_sent": "Thu, 30 Jul 2015 20:12:33 +0000",
                "date_updated": "Thu, 30 Jul 2015 20:12:33 +0000",
                "direction": "outbound-api",
                "error_code": null,
                "error_message": null,
                "from": "+14155552345",
                "messaging_service_sid": "MGXXXXXXXXXXXXXXXXXXXXXXXXXXXXXXXX",
                "num_media": "0",
                "num_segments": "1",
                "price": -0.00750,
                "price_unit": "USD",
                "sid": "MMXXXXXXXXXXXXXXXXXXXXXXXXXXXXXXXX",
                "status": "sent",
                "subresource_uris": {
                    "media": "/2010-04-01/Accounts/ABCD1234/Messages/SMXXXXXXXXXXXXXXXXXXXXXXXXXXXXXXXX/Media.json"
                },
                "to": "+14155552345",
                "uri": "/2010-04-01/Accounts/ABCD1234/Messages/SMXXXXXXXXXXXXXXXXXXXXXXXXXXXXXXXX.json"
            }"#;

        let data = data.replace("{body}", body);

        Ok(data.as_bytes().to_vec())
    }
}

impl SMSExecutor for FailingMockExecutor {
    fn execute(&self, _: &str, _: &str, _: &str, _: &str, _: &str) -> Result<Vec<u8>, String> {
        let custom_error = std::io::Error::new(std::io::ErrorKind::Other, "oh no!");
        Err(custom_error.to_string())
    }
}

#[test]
fn different_executor_works_with_success_flow() {
    let response = send_text_message(
        "1234567890",
        "0987654321",
        "ABCD1234",
        "A1B2C3D4",
        "SUPPP",
        &SuccesfulMockExecutor,
    )
    .unwrap();
    let response: serde_json::Value = serde_json::from_str(&response).unwrap();
    let text = |key: &str| response[key].as_str().map(|s| s.to_string());
    assert_eq!(Some("ABCD1234".to_string()), text("account_sid"));
    assert_eq!(Some("2010-04-01".to_string()), text("api_version"));
    assert_eq!(Some("SUPPP".to_string()), text("body"));
    assert_eq!(Some("Thu, 30 Jul 2015 20:12:31 +0000".to_string()), text("date_created"));
    assert_eq!(Some("Thu, 30 Jul 2015 20:12:33 +0000".to_string()), text("date_sent"));
    assert_eq!(Some("Thu, 30 Jul 2015 20:12:33 +0000".to_string()), text("date_updated"));
    assert_eq!(Some("outbound-api".to_string()), text("direction"));
    assert_eq!(None, text("error_code"));
    assert!(response["error_code"].is_null());
    assert_eq!(None, text("error_message"));
    assert!(response["error_message"].is_null());
    assert_eq!(Some("+14155552345".to_string()), text("from"));
    assert_eq!(Some("MGXXXXXXXXXXXXXXXXXXXXXXXXXXXXXXXX".to_string()), text("messaging_service_sid"));
    assert_eq!(Some("0".to_string()), text("num_media"));
    assert_eq!(Some("1".to_string()), text("num_segments"));
    assert_eq!(Some(-0.00750), response["price"].as_f64());
    assert_eq!(Some("USD".to_string()), text("price_unit"));
    assert_eq!(Some("MMXXXXXXXXXXXXXXXXXXXXXXXXXXXXXXXX".to_string()), text("sid"));
    assert_eq!(Some("sent".to_string()), text("status"));
    assert_eq!(
        Some("/2010-04-01/Accounts/ABCD1234/Messages/SMXXXXXXXXXXXXXXXXXXXXXXXXXXXXXXXX/Media.json"),
        response["subresource_uris"]["media"].as_str()
    );
    assert_eq!(Some("+14155552345".to_string()), text("to"));
    assert_eq!(
        Some("/2010-04-01/Accounts/ABCD1234/Messages/SMXXXXXXXXXXXXXXXXXXXXXXXXXXXXXXXX.json".to_string()),
        text("uri")
    );
}

#[test]
fn different_executor_works_with_fail_flow() {
    let response = send_text_message(
        "1234567890",
        "0987654321",
        "ABCD1234",
        "A1B2C3D4",
        "SUPPP",
        &FailingMockExecutor,
    )
    .err();
    assert_eq!(
        Some(SMSError::ExecutionError {
            error: "oh no!".to_string(),
        }),
        response
    );
}

struct EchoExecutor;

impl SMSExecutor for EchoExecutor {
    fn execute(
        &self,
        from: &str,
        to: &str,
        body: &str,
        account_id: &str,
        access_token: &str,
    ) -> Result<Vec<u8>, String> {
        Ok(format!("from={} to={} body={} id={} token={}", from, to, body, account_id, access_token).into_bytes())
    }
}

#[test]
fn the_executor_gets_each_argument_in_its_place() {
    assert_eq!(
        Ok("from=F to=T body=B id=I token=K".to_string()),
        send_text_message("F", "T", "I", "K", "B", &EchoExecutor)
    );
}

#[test]
fn an_answer_that_is_no_text_is_kept_as_far_as_it_reads() {
    match convert_to_string(vec![b'o', b'k', 0xff]) {
        Err(SMSError::SerdeError { error, raw_response }) => {
            assert!(!error.is_empty());
            assert_eq!("ok\u{fffd}", raw_response);
        }
        other => panic!("{:?}", other),
    }
    match response_text(Ok(vec![0xc3, 0x28])) {
        Err(SMSError::SerdeError { raw_response, .. }) => assert_eq!("\u{fffd}(", raw_response),
        other => panic!("{:?}", other),
    }
}

#[test]
fn a_rejection_is_told_by_its_message_or_its_code() {
    assert_eq!(None, rejection_of(None, None));
    assert_eq!(
        Some(SMSError::TwilioResponseError { error: "Unreachable destination handset".to_string() }),
        rejection_of(Some("30003".to_string()), Some("Unreachable destination handset".to_string()))
    );
    assert_eq!(
        Some(SMSError::TwilioResponseError { error: "30003".to_string() }),
        rejection_of(Some("30003".to_string()), None)
    );
    assert_eq!(
        Some(SMSError::TwilioResponseError { error: "Unknown error".to_string() }),
        rejection_of(None, Some("Unknown error".to_string()))
    );
}

#[test]
fn an_answer_is_read_as_the_text_it_encodes() {
    assert_eq!(Ok("".to_string()), convert_to_string(vec![]));
    assert_eq!(Ok("Hello! \u{1f44d}".to_string()), convert_to_string("Hello! \u{1f44d}".as_bytes().to_vec()));
    assert_eq!(Ok("{}".to_string()), response_text(Ok(b"{}".to_vec())));
}

#[test]
fn a_failed_transport_is_passed_on() {
    assert_eq!(
        Err(SMSError::ExecutionError { error: "connection refused".to_string() }),
        response_text(Err("connection refused".to_string()))
    );
}

#[test]
fn a_decoders_complaint_keeps_the_answer() {
    assert_eq!(Ok(7), deserialize_twilio_response(Ok(7), "7"));
    assert_eq!(
        Err(SMSError::SerdeError {
            error: "expected value at line 1 column 1".to_string(),
            raw_response: "<html>".to_string(),
        }),
        deserialize_twilio_response::<u8>(Err("expected value at line 1 column 1".to_string()), "<html>")
    );
    let decoded: Result<serde_json::Value, String> = serde_json::from_str("{\"code\": 21211").map_err(|e| e.to_string());
    match deserialize_twilio_response(decoded, "{\"code\": 21211") {
        Err(SMSError::SerdeError { raw_response, .. }) => assert_eq!("{\"code\": 21211", raw_response),
        other => panic!("{:?}", other),
    }
}

#[test]
fn the_command_is_the_curl_call() {
    let expected = format!(
        "
        curl -X POST https://api.twilio.com/2010-04-01/Accounts/{}/Messages.json \
            --data-urlencode \"Body={}\" \
            --data-urlencode \"From=+1{}\" \
            --data-urlencode \"To=+1{}\" \
            -u {}:{}
                    ",
        "ABCD1234", "SUPPP", "1234567890", "0987654321", "ABCD1234", "A1B2C3D4"
    );
    assert_eq!(
        expected,
        CommandExecutor.command("1234567890", "0987654321", "SUPPP", "ABCD1234", "A1B2C3D4")
    );
    assert_eq!("CommandExecutor", CommandExecutor.name());
}

#[test]
fn the_form_goes_to_the_accounts_messages() {
    assert_eq!(
        "https://api.twilio.com/2010-04-01/Accounts/ABCD1234/Messages.json",
        HTTPExecutor.url("ABCD1234")
    );
    assert_eq!(
        vec![("Body", "SUPPP"), ("From", "1234567890"), ("To", "0987654321")],
        HTTPExecutor.form("1234567890", "0987654321", "SUPPP")
    );
    assert_eq!("HttpExecutor", HTTPExecutor.name());
}

#[test]
fn a_copy_of_the_account_is_equal_to_it() {
    let config = TwilioConfig {
        from: "1234567890".to_string(),
        to: "0987654321".to_string(),
        twilio_account_id: "ABCD1234".to_string(),
        twilio_access_token: "A1B2C3D4".to_string(),
    };
    assert_eq!(config, config.duplicate());
}

#[test]
fn the_media_are_kept_where_they_were_put() {
    let uris = SubresourceURIs::new("/2010-04-01/Accounts/ABCD1234/Messages/SM1/Media.json".to_string());
    assert_eq!("/2010-04-01/Accounts/ABCD1234/Messages/SM1/Media.json", uris.media());
}

const ANSWER: &str = r#"
            {
                "account_sid": "ABCD1234",
                "api_version": "2010-04-01",
                "body": "{body}",
                "date_created": "Thu, 30 Jul 2015 20:12:31 +0000",
                "date_sent": "Thu, 30 Jul 2015 20:12:33 +0000",
                "date_updated": "Thu, 30 Jul 2015 20:12:33 +0000",
                "direction": "outbound-api",
                "error_code": null,
                "error_message": null,
                "from": "+14155552345",
                "messaging_service_sid": "MGXXXXXXXXXXXXXXXXXXXXXXXXXXXXXXXX",
                "num_media": "0",
                "num_segments": "1",
                "price": -0.00750,
                "price_unit": "USD",
                "sid": "MMXXXXXXXXXXXXXXXXXXXXXXXXXXXXXXXX",
                "status": "sent",
                "subresource_uris": {
                    "media": "/2010-04-01/Accounts/ABCD1234/Messages/SMXXXXXXXXXXXXXXXXXXXXXXXXXXXXXXXX/Media.json"
                },
                "to": "+14155552345",
                "uri": "/2010-04-01/Accounts/ABCD1234/Messages/SMXXXXXXXXXXXXXXXXXXXXXXXXXXXXXXXX.json"
            }"#;

fn decoded_answer(body: &str) -> serde_json::Value {
    let data = ANSWER.replace("{body}", body);
    let text = convert_to_string(data.clone().into_bytes()).unwrap();
    assert_eq!(data, text);
    let decoded = serde_json::from_str::<serde_json::Value>(&text).map_err(|e| e.to_string());
    match deserialize_twilio_response(decoded, &text) {
        Ok(r) => r,
        Err(e) => {
            println!("{:?}", e);
            panic!()
        }
    }
}

fn optional(value: &serde_json::Value) -> Option<String> {
    value.as_str().map(|s| s.to_string())
}

fn assert_answer(response: &serde_json::Value, body: &str) {
    assert_eq!("ABCD1234", response["account_sid"]);
    assert_eq!("2010-04-01", response["api_version"]);
    assert_eq!(body, response["body"]);
    assert_eq!("Thu, 30 Jul 2015 20:12:31 +0000", response["date_created"]);
    assert_eq!(Some("Thu, 30 Jul 2015 20:12:33 +0000".to_string()), optional(&response["date_sent"]));
    assert_eq!("Thu, 30 Jul 2015 20:12:33 +0000", response["date_updated"]);
    assert_eq!("outbound-api", response["direction"]);
    assert_eq!(None, optional(&response["error_code"]));
    assert_eq!(None, optional(&response["error_message"]));
    assert_eq!("+14155552345", response["from"]);
    assert_eq!(
        Some("MGXXXXXXXXXXXXXXXXXXXXXXXXXXXXXXXX".to_string()),
        optional(&response["messaging_service_sid"])
    );
    assert_eq!("0", response["num_media"]);
    assert_eq!("1", response["num_segments"]);
    assert_eq!(Some(-0.00750), response["price"].as_f64());
    assert_eq!("USD", response["price_unit"]);
    assert_eq!("MMXXXXXXXXXXXXXXXXXXXXXXXXXXXXXXXX", response["sid"]);
    assert_eq!("sent", response["status"]);
    assert_eq!(
        "/2010-04-01/Accounts/ABCD1234/Messages/SMXXXXXXXXXXXXXXXXXXXXXXXXXXXXXXXX/Media.json",
        response["subresource_uris"]["media"]
    );
    assert_eq!("+14155552345", response["to"]);
    assert_eq!(
        "/2010-04-01/Accounts/ABCD1234/Messages/SMXXXXXXXXXXXXXXXXXXXXXXXXXXXXXXXX.json",
        response["uri"]
    );
    assert_eq!(
        None,
        rejection_of(optional(&response["error_code"]), optional(&response["error_message"]))
    );
}

#[test]
fn twilio_it_works() {
    let response = decoded_answer("Hello! \u{1f44d}");
    assert_answer(&response, "Hello! \u{1f44d}");
}

#[test]
fn lib_it_works() {
    let response = decoded_answer("HI!");
    assert_answer(&response, "HI!");
}
