//! AWS credentials, and the two forms in which they are handed on.
use crate::expiry;
use crate::expiry::Moment;
use crate::text;
use vstd::prelude::*;
use vstd::string::*;

verus! {

/// The view of an optional string.
pub open spec fn opt_view(s: Option<String>) -> Option<Seq<char>> {
    match s {
        Some(s) => Some(s@),
        None => None,
    }
}

/// Credentials as a provider gives them.
pub struct Credentials {
    pub access_key_id: String,
    pub secret_access_key: String,
    pub session_token: Option<String>,
    pub expiry: Option<Moment>,
}

/// The view of `Credentials`.
pub struct CredentialsModel {
    pub access_key_id: Seq<char>,
    pub secret_access_key: Seq<char>,
    pub session_token: Option<Seq<char>>,
    pub expiry: Option<Moment>,
}

impl View for Credentials {
    type V = CredentialsModel;

    open spec fn view(&self) -> CredentialsModel {
        CredentialsModel {
            access_key_id: self.access_key_id@,
            secret_access_key: self.secret_access_key@,
            session_token: opt_view(self.session_token),
            expiry: self.expiry,
        }
    }
}

/// What a `credential_process` prints, in version 1 of that format.
pub struct CredentialProcessResponse {
    pub version: u32,
    pub access_key_id: String,
    pub secret_access_key: String,
    pub session_token: Option<String>,
    pub expiration: Option<String>,
}

/// The view of `CredentialProcessResponse`.
pub struct ResponseModel {
    pub version: u32,
    pub access_key_id: Seq<char>,
    pub secret_access_key: Seq<char>,
    pub session_token: Option<Seq<char>>,
    pub expiration: Option<Seq<char>>,
}

impl View for CredentialProcessResponse {
    type V = ResponseModel;

    open spec fn view(&self) -> ResponseModel {
        ResponseModel {
            version: self.version,
            access_key_id: self.access_key_id@,
            secret_access_key: self.secret_access_key@,
            session_token: opt_view(self.session_token),
            expiration: opt_view(self.expiration),
        }
    }
}

/// The response that hands credentials on.
pub open spec fn response(c: CredentialsModel) -> ResponseModel {
    ResponseModel {
        version: 1,
        access_key_id: c.access_key_id,
        secret_access_key: c.secret_access_key,
        session_token: c.session_token,
        expiration: match c.expiry {
            Some(moment) => Some(expiry::expiry_text(moment)),
            None => None,
        },
    }
}

/// A setting of a credentials file.
pub open spec fn entry(key: Seq<char>, value: Seq<char>) -> Seq<char> {
    text::terminated(key + " = "@ + value)
}

/// A credentials file that holds one profile.
pub open spec fn file_text(profile: Seq<char>, c: CredentialsModel) -> Seq<char> {
    let keys = text::terminated("["@ + profile + "]"@) + entry(
        "aws_access_key_id"@,
        c.access_key_id,
    ) + entry("aws_secret_access_key"@, c.secret_access_key);
    match c.session_token {
        Some(token) => keys + entry("aws_session_token"@, token),
        None => keys,
    }
}

/// The response that hands credentials on to a client of the proxy.
pub fn credential_response(c: Credentials) -> (r: CredentialProcessResponse)
    ensures
        r@ == response(c@),
        r.version == 1,
        r.access_key_id@ == c.access_key_id@,
        r.secret_access_key@ == c.secret_access_key@,
        c.session_token is Some <==> r.session_token is Some,
        c.session_token is Some ==> r.session_token->0@ == c.session_token->0@,
        c.expiry is Some <==> r.expiration is Some,
        c.expiry is Some ==> r.expiration->0@ == expiry::expiry_text(c.expiry->0),
{
    CredentialProcessResponse {
        version: 1,
        access_key_id: c.access_key_id,
        secret_access_key: c.secret_access_key,
        session_token: c.session_token,
        expiration: match c.expiry {
            Some(moment) => Some(expiry::format_expiry(moment)),
            None => None,
        },
    }
}

/// A setting of a credentials file.
fn entry_line(key: &str, value: &str) -> (line: String)
    ensures
        line@ == entry(key@, value@),
{
    let mut line = key.to_owned().concat(" = ").concat(value);
    line.push('\n');
    line
}

/// The credentials file that hands credentials on under the name of `profile`.
pub fn credentials_file(profile: &str, c: &Credentials) -> (file: String)
    ensures
        file@ == file_text(profile@, c@),
{
    let mut file = "[".to_owned().concat(profile).concat("]");
    file.push('\n');
    file.append(entry_line("aws_access_key_id", c.access_key_id.as_str()).as_str());
    file.append(entry_line("aws_secret_access_key", c.secret_access_key.as_str()).as_str());
    match &c.session_token {
        Some(token) => {
            file.append(entry_line("aws_session_token", token.as_str()).as_str());
        },
        None => {},
    }
    file
}

/// The lines of a text and of one more entry.
proof fn lemma_entry_lines(before: Seq<char>, key: Seq<char>, value: Seq<char>)
    requires
        text::whole(before),
        text::one_line(key),
        text::one_line(value),
    ensures
        text::whole(before + entry(key, value)),
        text::lines(before + entry(key, value)) == text::lines(before).push(entry(key, value)),
{
    reveal_strlit(" = ");
    let line = entry(key, value);
    assert(line.drop_last() == key + " = "@ + value);
    text::lemma_lines_one(line);
    text::lemma_lines_add(before, line);
    assert((before + line).last() == '\n');
}

/// The lines of a credentials file are its profile, and each part of the credentials behind the
/// key that the AWS SDKs know it by.
pub proof fn law_file_reads_back(profile: Seq<char>, c: CredentialsModel)
    requires
        text::one_line(profile),
        text::one_line(c.access_key_id),
        text::one_line(c.secret_access_key),
        c.session_token matches Some(token) ==> text::one_line(token),
    ensures
        ({
            let keys = seq![
                text::terminated("["@ + profile + "]"@),
                entry("aws_access_key_id"@, c.access_key_id),
                entry("aws_secret_access_key"@, c.secret_access_key),
            ];
            text::lines(file_text(profile, c)) == match c.session_token {
                Some(token) => keys.push(entry("aws_session_token"@, token)),
                None => keys,
            }
        }),
{
    reveal_strlit("[");
    reveal_strlit("]");
    reveal_strlit("aws_access_key_id");
    reveal_strlit("aws_secret_access_key");
    reveal_strlit("aws_session_token");
    let head = "["@ + profile + "]"@;
    let first = text::terminated(head);
    assert(first.drop_last() == head);
    text::lemma_lines_one(first);
    lemma_entry_lines(first, "aws_access_key_id"@, c.access_key_id);
    let second = first + entry("aws_access_key_id"@, c.access_key_id);
    lemma_entry_lines(second, "aws_secret_access_key"@, c.secret_access_key);
    let third = second + entry("aws_secret_access_key"@, c.secret_access_key);
    match c.session_token {
        Some(token) => {
            lemma_entry_lines(third, "aws_session_token"@, token);
        },
        None => {},
    }
}

/// A response hands each part of the credentials on as it is, under version 1 of the format. There
/// is a session token exactly where the credentials have one, whatever their expiry, and an
/// expiration exactly where they expire.
pub proof fn law_response_hands_all_parts_on(c: CredentialsModel)
    ensures
        response(c).version == 1,
        response(c).access_key_id == c.access_key_id,
        response(c).secret_access_key == c.secret_access_key,
        response(c).session_token == c.session_token,
        c.expiry is None <==> response(c).expiration is None,
        c.expiry matches Some(moment) ==> response(c).expiration == Some(
            expiry::expiry_text(moment),
        ),
{
}

/// Two responses are the same only where the credentials have the same keys and the same token.
pub proof fn law_responses_tell_credentials_apart(c: CredentialsModel, d: CredentialsModel)
    requires
        response(c) == response(d),
    ensures
        c.access_key_id == d.access_key_id,
        c.secret_access_key == d.secret_access_key,
        c.session_token == d.session_token,
        c.expiry is Some <==> d.expiry is Some,
{
}

/// A credentials file is the profile in brackets, and each part of the credentials behind its key,
/// each on a line of its own. The line of the session token is there exactly where there is one.
pub proof fn law_file_holds_the_credentials(profile: Seq<char>, c: CredentialsModel)
    ensures
        ({
            let keys = "["@ + profile + "]\naws_access_key_id = "@ + c.access_key_id
                + "\naws_secret_access_key = "@ + c.secret_access_key + "\n"@;
            &&& c.session_token is None ==> file_text(profile, c) == keys
            &&& c.session_token matches Some(token) ==> file_text(profile, c) == keys
                + "aws_session_token = "@ + token + "\n"@
        }),
{
    reveal_strlit("[");
    reveal_strlit("]");
    reveal_strlit("\n");
    reveal_strlit(" = ");
    reveal_strlit("aws_access_key_id");
    reveal_strlit("aws_secret_access_key");
    reveal_strlit("aws_session_token");
    reveal_strlit("]\naws_access_key_id = ");
    reveal_strlit("\naws_secret_access_key = ");
    reveal_strlit("aws_session_token = ");
    let keys = "["@ + profile + "]\naws_access_key_id = "@ + c.access_key_id
        + "\naws_secret_access_key = "@ + c.secret_access_key + "\n"@;
    let lines = text::terminated("["@ + profile + "]"@) + entry(
        "aws_access_key_id"@,
        c.access_key_id,
    ) + entry("aws_secret_access_key"@, c.secret_access_key);
    assert(lines == keys);
}

/// The views of credentials and of responses leave nothing out.
pub proof fn law_views(c: Credentials, r: CredentialProcessResponse)
    ensures
        c@.access_key_id == c.access_key_id@,
        c@.secret_access_key == c.secret_access_key@,
        c.session_token is None <==> c@.session_token is None,
        c.session_token is Some ==> c@.session_token == Some(c.session_token->0@),
        c@.expiry == c.expiry,
        r@.version == r.version,
        r@.access_key_id == r.access_key_id@,
        r@.secret_access_key == r.secret_access_key@,
        r.session_token is None <==> r@.session_token is None,
        r.session_token is Some ==> r@.session_token == Some(r.session_token->0@),
        r.expiration is None <==> r@.expiration is None,
        r.expiration is Some ==> r@.expiration == Some(r.expiration->0@),
{
}

/// The view of an optional string is that of the string, where there is one.
pub proof fn law_opt_view(s: Option<String>)
    ensures
        s is None ==> opt_view(s) is None,
        s matches Some(s) ==> opt_view(Some(s)) == Some(s@),
{
}

} // verus!
