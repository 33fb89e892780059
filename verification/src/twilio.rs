//! The provider side of a text message: who sends to whom, how a request is
//! put, what can go wrong on the way, and how a raw answer is told apart
//! from a failure.

use vstd::prelude::*;
use vstd::string::*;
use vstd::utf8::{encode_utf8, valid_utf8};

verus! {

/// The account a message is sent from and the number it goes to.
#[derive(Debug, PartialEq, Clone)]
pub struct TwilioConfig {
    pub from: String,
    pub to: String,
    pub twilio_account_id: String,
    pub twilio_access_token: String,
}

impl TwilioConfig {
    /// A copy with the same four texts, for a job to own.
    pub fn duplicate(&self) -> (copy: TwilioConfig)
        ensures
            copy == *self,
    {
        TwilioConfig {
            from: self.from.clone(),
            to: self.to.clone(),
            twilio_account_id: self.twilio_account_id.clone(),
            twilio_access_token: self.twilio_access_token.clone(),
        }
    }
}

/// The media that belong to a message, by where the provider keeps them.
#[derive(Debug, PartialEq)]
pub struct SubresourceURIs {
    media: String,
}

impl View for SubresourceURIs {
    type V = Seq<char>;

    closed spec fn view(&self) -> Seq<char> {
        self.media@
    }
}

impl SubresourceURIs {
    /// The resources of a message whose media are kept at `media`.
    pub fn new(media: String) -> (uris: SubresourceURIs)
        ensures
            uris@ == media@,
    {
        SubresourceURIs { media }
    }

    /// Where the media are kept.
    pub fn media(&self) -> (media: &String)
        ensures
            media@ == self@,
    {
        &self.media
    }
}

/// Why a message did not go out, or why it is not known whether it did.
#[derive(Debug, PartialEq)]
pub enum SMSError {
    /// The provider answered in its own format that it rejects the message.
    TwilioResponseError { error: String },
    /// There was an answer, but it could not be read as one of the
    /// provider's; it is kept as received.
    SerdeError { error: String, raw_response: String },
    /// The transport failed before any answer arrived.
    ExecutionError { error: String },
}

/// A way to hand one message to the provider. The answer is the bytes the
/// provider sent back, or the transport's account of why none came.
pub trait SMSExecutor {
    fn execute(
        &self,
        from: &str,
        to: &str,
        body: &str,
        account_id: &str,
        access_token: &str,
    ) -> Result<Vec<u8>, String>;
}

/// The standard library's account of bytes that are not UTF-8. It is only
/// passed on to be put into words.
#[verifier::external_type_specification]
#[verifier::external_body]
pub struct ExUtf8Error(core::str::Utf8Error);

/// `str::from_utf8` succeeds exactly on bytes that are valid UTF-8, and the
/// text it gives then consists of those very bytes.
pub assume_specification[ core::str::from_utf8 ](v: &[u8]) -> (text: Result<
    &str,
    core::str::Utf8Error,
>)
    ensures
        text is Ok <==> valid_utf8(v@),
        text matches Ok(s) ==> s.spec_bytes() == v@,
;

/// What the standard library's UTF-8 error says of itself, through
/// `to_string`. Nothing is claimed of the wording.
#[verifier::external_body]
fn utf8_error_text(error: &core::str::Utf8Error) -> (text: String) {
    error.to_string()
}

/// The text that `String::from_utf8_lossy` makes of `bytes`: what they
/// encode, with the replacement character wherever they encode nothing.
pub uninterp spec fn lossy_text(bytes: Seq<u8>) -> Seq<char>;

/// `String::from_utf8_lossy`, as an owned string. The text depends on the
/// bytes alone.
#[verifier::external_body]
fn read_lossy(bytes: &[u8]) -> (text: String)
    ensures
        text@ == lossy_text(bytes@),
{
    String::from_utf8_lossy(bytes).into_owned()
}

/// Whether `text` is what reading `stdout` as text owes: the text that the
/// bytes encode, or, where they encode none, an error that keeps them as
/// far as they can be read.
pub open spec fn is_text_of(text: Result<String, SMSError>, stdout: Seq<u8>) -> bool {
    match text {
        Ok(s) => valid_utf8(stdout) && encode_utf8(s@) == stdout,
        Err(SMSError::SerdeError { raw_response, .. }) => !valid_utf8(stdout) && raw_response@
            == lossy_text(stdout),
        Err(_) => false,
    }
}

/// Reads the provider's answer as text.
pub fn convert_to_string(stdout: Vec<u8>) -> (text: Result<String, SMSError>)
    ensures
        is_text_of(text, stdout@),
{
    match core::str::from_utf8(stdout.as_slice()) {
        Ok(s) => Ok(s.to_owned()),
        Err(error) => Err(
            SMSError::SerdeError {
                error: utf8_error_text(&error),
                raw_response: read_lossy(stdout.as_slice()),
            },
        ),
    }
}

/// The failure that the provider itself reports in an answer: its message,
/// or its code where there is no message, and none where it reports
/// neither.
pub open spec fn rejection(error_code: Option<String>, error_message: Option<String>) -> Option<
    SMSError,
> {
    match (error_message, error_code) {
        (Some(message), _) => Some(SMSError::TwilioResponseError { error: message }),
        (None, Some(code)) => Some(SMSError::TwilioResponseError { error: code }),
        (None, None) => None,
    }
}

/// Tells an answer that reports a rejected message from one that reports
/// none.
pub fn rejection_of(error_code: Option<String>, error_message: Option<String>) -> (failure: Option<
    SMSError,
>)
    ensures
        failure == rejection(error_code, error_message),
{
    match (error_message, error_code) {
        (Some(message), _) => Some(SMSError::TwilioResponseError { error: message }),
        (None, Some(code)) => Some(SMSError::TwilioResponseError { error: code }),
        (None, None) => None,
    }
}

/// Whether `response` is what is owed once the transport has come back with
/// `executed`: its failure, passed on as it is, or its bytes read as text.
pub open spec fn is_response_to(
    response: Result<String, SMSError>,
    executed: Result<Vec<u8>, String>,
) -> bool {
    match executed {
        Ok(stdout) => is_text_of(response, stdout@),
        Err(error) => response == Err::<String, SMSError>(SMSError::ExecutionError { error }),
    }
}

/// Tells a transport's failure from an answer, and reads the answer as text.
pub fn response_text(executed: Result<Vec<u8>, String>) -> (response: Result<String, SMSError>)
    ensures
        is_response_to(response, executed),
{
    match executed {
        Ok(stdout) => convert_to_string(stdout),
        Err(error) => Err(SMSError::ExecutionError { error }),
    }
}

/// Sends `text_content` through `sms_executor` and hands back the provider's
/// answer as text.
///
/// The executor is called with the sender, the receiver, the text, the
/// account and the token, in this order: the text goes third, though it is
/// taken fifth here. The response is what `response_text` owes for what
/// that call came back with.
pub fn send_text_message<E: SMSExecutor>(
    from: &str,
    to: &str,
    account_id: &str,
    access_token: &str,
    text_content: &str,
    sms_executor: &E,
) -> (response: Result<String, SMSError>)
    ensures
        exists|executed: Result<Vec<u8>, String>|
            call_ensures(
                E::execute,
                (sms_executor, from, to, text_content, account_id, access_token),
                executed,
            ) && is_response_to(response, executed),
{
    let executed: Result<Vec<u8>, String> = sms_executor.execute(
        from,
        to,
        text_content,
        account_id,
        access_token,
    );
    let response: Result<String, SMSError> = response_text(executed);
    assert(call_ensures(
        E::execute,
        (sms_executor, from, to, text_content, account_id, access_token),
        executed,
    ) && is_response_to(response, executed));
    response
}

/// Settles what a decoder made of the provider's answer `response`: the
/// value it decoded, or, where it came back with a complaint, that
/// complaint together with the answer as it was received.
pub fn deserialize_twilio_response<T>(decoded: Result<T, String>, response: &str) -> (settled:
    Result<T, SMSError>)
    ensures
        match decoded {
            Ok(value) => settled == Ok::<T, SMSError>(value),
            Err(error) => settled matches Err(SMSError::SerdeError { error: kept, raw_response })
                && kept == error && raw_response@ == response@,
        },
{
    match decoded {
        Ok(value) => Ok(value),
        Err(error) => Err(SMSError::SerdeError { error, raw_response: response.to_owned() }),
    }
}

/// The address that takes the messages of the account `account_id`.
pub open spec fn messages_url(account_id: Seq<char>) -> Seq<char> {
    "https://api.twilio.com/2010-04-01/Accounts/"@ + account_id + "/Messages.json"@
}

/// Sends over HTTP: a form posted to the provider, signed with the
/// account's name and token.
pub struct HTTPExecutor;

impl HTTPExecutor {
    /// The name the executor goes by.
    pub fn name(&self) -> (name: String)
        ensures
            name@ == "HttpExecutor"@,
    {
        "HttpExecutor".to_owned()
    }

    /// The address to post to.
    pub fn url(&self, account_id: &str) -> (url: String)
        ensures
            url@ == messages_url(account_id@),
    {
        let mut url: String = "https://api.twilio.com/2010-04-01/Accounts/".to_owned();
        url.append(account_id);
        url.append("/Messages.json");
        url
    }

    /// The fields of the form, in the order they are posted: the body, the
    /// sender, the receiver.
    pub fn form<'a>(&self, from: &'a str, to: &'a str, body: &'a str) -> (fields: Vec<
        (&'a str, &'a str),
    >)
        ensures
            fields@.len() == 3,
            fields@[0].0@ == "Body"@ && fields@[0].1@ == body@,
            fields@[1].0@ == "From"@ && fields@[1].1@ == from@,
            fields@[2].0@ == "To"@ && fields@[2].1@ == to@,
    {
        let mut fields: Vec<(&'a str, &'a str)> = Vec::new();
        fields.push(("Body", body));
        fields.push(("From", from));
        fields.push(("To", to));
        fields
    }
}

/// The shell command that posts one message with `curl`. The numbers are
/// given without the country code, which the command puts in front.
pub open spec fn curl_command(
    from: Seq<char>,
    to: Seq<char>,
    body: Seq<char>,
    account_id: Seq<char>,
    access_token: Seq<char>,
) -> Seq<char> {
    "\n        curl -X POST https://api.twilio.com/2010-04-01/Accounts/"@ + account_id
        + "/Messages.json --data-urlencode \"Body="@ + body + "\" --data-urlencode \"From=+1"@
        + from + "\" --data-urlencode \"To=+1"@ + to + "\" -u "@ + account_id + ":"@
        + access_token + "\n                    "@
}

/// Sends through the shell: `curl`, run as a command.
pub struct CommandExecutor;

impl CommandExecutor {
    /// The name the executor goes by.
    pub fn name(&self) -> (name: String)
        ensures
            name@ == "CommandExecutor"@,
    {
        "CommandExecutor".to_owned()
    }

    /// The command to run. Its arguments are put in as they are: a caller
    /// who takes them from strangers has to quote them first.
    pub fn command(
        &self,
        from: &str,
        to: &str,
        body: &str,
        account_id: &str,
        access_token: &str,
    ) -> (command: String)
        ensures
            command@ == curl_command(from@, to@, body@, account_id@, access_token@),
    {
        let mut command: String =
            "\n        curl -X POST https://api.twilio.com/2010-04-01/Accounts/".to_owned();
        command.append(account_id);
        command.append("/Messages.json --data-urlencode \"Body=");
        command.append(body);
        command.append("\" --data-urlencode \"From=+1");
        command.append(from);
        command.append("\" --data-urlencode \"To=+1");
        command.append(to);
        command.append("\" -u ");
        command.append(account_id);
        command.append(":");
        command.append(access_token);
        command.append("\n                    ");
        command
    }
}

} // verus!
