//! A credential: its id, its provider and what the provider needs.
//!
//! The id of a credential joins the id of its row, which is made and read
//! elsewhere, and a secret, with a dash between them.

use vstd::prelude::*;
use vstd::string::*;

verus! {

#[derive(Clone, Copy, PartialEq, Eq, Structural, Debug)]
pub enum CredentialProvider {
    Snowflake,
}

/// A text that names no provider.
#[derive(Clone, Copy, PartialEq, Eq, Structural, Debug)]
pub struct UnknownProvider;

/// The text that a JSON document stands for, where the document is one
/// JSON string and nothing else.
pub uninterp spec fn json_string_value(document: Seq<char>) -> Option<Seq<char>>;

pub open spec fn option_text_view(text: Option<String>) -> Option<Seq<char>> {
    match text {
        Some(t) => Some(t@),
        None => None,
    }
}

/// Reads a document as one JSON string with `serde_json::from_str`; `None`
/// where the document is anything else. The contract only names the
/// outcome: it is the same for the same document.
#[verifier::external_body]
fn json_string(document: &str) -> (text: Option<String>)
    ensures
        option_text_view(text) == json_string_value(document@),
{
    serde_json::from_str::<String>(document).ok()
}

/// The text between quotes, as a JSON document.
pub open spec fn quoted(text: Seq<char>) -> Seq<char> {
    "\""@ + text + "\""@
}

/// The provider that a decoded name names.
pub open spec fn provider_named(name: Option<Seq<char>>) -> Result<
    CredentialProvider,
    UnknownProvider,
> {
    match name {
        Some(text) => if text == "snowflake"@ {
            Ok(CredentialProvider::Snowflake)
        } else {
            Err(UnknownProvider)
        },
        None => Err(UnknownProvider),
    }
}

impl CredentialProvider {
    pub fn to_string(&self) -> (name: String)
        ensures
            name@ == "snowflake"@,
    {
        match self {
            CredentialProvider::Snowflake => "snowflake".to_owned(),
        }
    }

    /// The provider that a decoded name names.
    pub fn from_name(name: Option<String>) -> (result: Result<CredentialProvider, UnknownProvider>)
        ensures
            result == provider_named(option_text_view(name)),
    {
        match name {
            Some(text) => if text == "snowflake".to_owned() {
                Ok(CredentialProvider::Snowflake)
            } else {
                Err(UnknownProvider)
            },
            None => Err(UnknownProvider),
        }
    }

    /// Reads a provider from its name, which is taken as the inside of a
    /// JSON string: escapes in it are decoded before it is compared.
    pub fn from_str(text: &str) -> (result: Result<CredentialProvider, UnknownProvider>)
        ensures
            result == provider_named(json_string_value(quoted(text@))),
    {
        let document = "\"".to_owned().concat(text).concat("\"");
        CredentialProvider::from_name(json_string(document.as_str()))
    }
}

#[verifier::external_type_specification]
#[verifier::external_body]
#[verifier::reject_recursive_types(K)]
#[verifier::reject_recursive_types(V)]
pub struct ExJsonMap<K, V>(serde_json::Map<K, V>);

pub struct Credential {
    credential_id: String,
    created: u64,
    provider: CredentialProvider,
    credentials: serde_json::Map<String, serde_json::Value>,
}

impl Credential {
    pub closed spec fn spec_credential_id(&self) -> Seq<char> {
        self.credential_id@
    }

    pub closed spec fn spec_created(&self) -> u64 {
        self.created
    }

    pub closed spec fn spec_provider(&self) -> CredentialProvider {
        self.provider
    }

    pub closed spec fn spec_credentials(&self) -> serde_json::Map<String, serde_json::Value> {
        self.credentials
    }

    pub fn new(
        credential_id: String,
        created: u64,
        provider: CredentialProvider,
        credentials: serde_json::Map<String, serde_json::Value>,
    ) -> (credential: Self)
        ensures
            credential.spec_credential_id() == credential_id@,
            credential.spec_created() == created,
            credential.spec_provider() == provider,
            credential.spec_credentials() == credentials,
    {
        Self { credential_id, created, provider, credentials }
    }

    /// The id of the credential whose row has the id `row_id` and whose
    /// secret is `secret`.
    pub fn credential_id_from_row_id_and_secret(row_id: &str, secret: &str) -> (id: String)
        ensures
            id@ == row_id@ + "-"@ + secret@,
    {
        row_id.to_owned().concat("-").concat(secret)
    }

    /// The row and the secret of a credential, from the prefix and the
    /// number that the id of its row was read as.
    pub fn row_id_and_secret_from_parsed_id(prefix: &str, row_id: u64, secret: String) -> (result:
        Result<(i64, String), CredentialError>)
        ensures
            prefix@ != "cred"@ ==> result == Err::<(i64, String), CredentialError>(
                CredentialError::InvalidPrefix,
            ),
            prefix@ == "cred"@ ==> result == Ok::<(i64, String), CredentialError>(
                (row_id as i64, secret),
            ),
    {
        if prefix.to_owned() != "cred".to_owned() {
            return Err(CredentialError::InvalidPrefix);
        }
        Ok((row_id as i64, secret))
    }

    pub fn credential_id(&self) -> (id: &str)
        ensures
            id@ == self.spec_credential_id(),
    {
        self.credential_id.as_str()
    }

    pub fn created(&self) -> (created: u64)
        ensures
            created == self.spec_created(),
    {
        self.created
    }

    pub fn provider(&self) -> (provider: CredentialProvider)
        ensures
            provider == self.spec_provider(),
    {
        self.provider
    }

    pub fn credentials(&self) -> (credentials: &serde_json::Map<String, serde_json::Value>)
        ensures
            *credentials == self.spec_credentials(),
    {
        &self.credentials
    }
}

/// Why an id is not the id of a credential.
#[derive(Clone, Copy, PartialEq, Eq, Structural, Debug)]
pub enum CredentialError {
    /// The id does not hold one dash.
    InvalidFormat,
    /// The id of the row is not that of a credential.
    InvalidPrefix,
}

/// The number of dashes in a text.
pub open spec fn dash_count(text: Seq<char>) -> nat
    decreases text.len(),
{
    if text.len() == 0 {
        0
    } else if text.last() == '-' {
        dash_count(text.drop_last()) + 1
    } else {
        dash_count(text.drop_last())
    }
}

/// Splits the id of a credential at its dash into the id of the row and the
/// secret. An id with no dash or with several is refused.
pub fn split_credential_id(credential_id: &str) -> (result: Result<
    (String, String),
    CredentialError,
>)
    ensures
        dash_count(credential_id@) != 1 ==> result == Err::<(String, String), CredentialError>(
            CredentialError::InvalidFormat,
        ),
        dash_count(credential_id@) == 1 ==> result is Ok && result->Ok_0.0@ + seq!['-']
            + result->Ok_0.1@ == credential_id@ && !result->Ok_0.0@.contains('-')
            && !result->Ok_0.1@.contains('-'),
{
    let n = credential_id.unicode_len();
    let ghost text = credential_id@;
    let mut count: usize = 0;
    let mut at: usize = 0;
    let mut k: usize = 0;
    assert(text.take(0) =~= Seq::<char>::empty());
    while k < n
        invariant
            k <= n,
            n == text.len(),
            text == credential_id@,
            count <= k,
            count == dash_count(text.take(k as int)),
            count == 0 ==> forall|j: int| 0 <= j < k ==> text[j] != '-',
            count >= 1 ==> at < k && text[at as int] == '-' && forall|j: int|
                0 <= j < at ==> text[j] != '-',
            count == 1 ==> forall|j: int| at < j < k ==> text[j] != '-',
        decreases n - k,
    {
        proof {
            assert(text.take(k + 1).drop_last() =~= text.take(k as int));
            assert(text.take(k + 1).last() == text[k as int]);
        }
        if credential_id.get_char(k) == '-' {
            if count == 0 {
                at = k;
            }
            count += 1;
        }
        k += 1;
    }
    assert(text.take(k as int) =~= text);
    if count != 1 {
        return Err(CredentialError::InvalidFormat);
    }
    let row_id = credential_id.substring_char(0, at).to_owned();
    let secret = credential_id.substring_char(at + 1, n).to_owned();
    proof {
        assert(row_id@ + seq!['-'] + secret@ =~= text);
        assert(!row_id@.contains('-')) by {
            if row_id@.contains('-') {
                let j = choose|j: int| 0 <= j < row_id@.len() && row_id@[j] == '-';
                assert(text[j] == '-');
            }
        }
        assert(!secret@.contains('-')) by {
            if secret@.contains('-') {
                let j = choose|j: int| 0 <= j < secret@.len() && secret@[j] == '-';
                assert(text[at + 1 + j] == '-');
            }
        }
    }
    Ok((row_id, secret))
}

} // verus!
