//! What the HTTP layer needs from the settings: URLs and the authorization header.

use vstd::prelude::*;
use crate::calendar::opt_text;
use crate::config::NxCliConfig;
use base64::Engine;

verus! {

/// What `strfmt` makes of `template` where the variable `key` holds `value`;
/// `None` where it reports an error.
pub uninterp spec fn strfmt_of(template: Seq<char>, key: Seq<char>, value: Seq<char>) -> Option<
    Seq<char>,
>;

/// Relies on `strfmt::strfmt`: `template` with each `{key}` replaced by
/// `value`, or an error for a malformed template or an unknown variable.
#[verifier::external_body]
fn fill_template(template: &str, key: &str, value: &str) -> (r: Option<String>)
    ensures
        opt_text(r) == strfmt_of(template@, key@, value@),
{
    let mut vars = std::collections::HashMap::new();
    vars.insert(key.to_string(), value.to_string());
    strfmt::strfmt(template, &vars).ok()
}

/// The standard base64 encoding, without padding, of the UTF-8 bytes of `text`.
pub uninterp spec fn base64_no_pad_of(text: Seq<char>) -> Seq<char>;

/// Relies on base64's `STANDARD_NO_PAD` engine: the encoding of `text`'s bytes.
#[verifier::external_body]
fn encode_base64_no_pad(text: &str) -> (r: String)
    ensures
        r@ == base64_no_pad_of(text@),
{
    base64::engine::general_purpose::STANDARD_NO_PAD.encode(text)
}

/// A client of one account.
pub struct ApiClient {
    config: NxCliConfig,
}

impl ApiClient {
    /// A client of the account that `nxconfig` describes.
    pub fn create(nxconfig: NxCliConfig) -> (r: ApiClient)
        ensures
            r.config() == nxconfig,
    {
        ApiClient { config: nxconfig }
    }

    /// The settings the client was made with.
    pub closed spec fn config(&self) -> NxCliConfig {
        self.config
    }

    /// A copy of the client's settings.
    pub fn get_config(&self) -> (r: NxCliConfig)
        ensures
            r.server@ == self.config().server@,
            r.user@ == self.config().user@,
            r.app_password@ == self.config().app_password@,
    {
        self.config.copy()
    }

    /// The server's base URL followed by `url`, in which `{user}` stands for
    /// the login name; `None` where `url` is not a valid template.
    pub fn build_url(&self, url: &str) -> (r: Option<String>)
        ensures
            opt_text(r) == match strfmt_of(url@, "user"@, self.config().user@) {
                Some(part) => Some(self.config().server@ + part),
                None => None,
            },
    {
        match fill_template(url, "user", self.config.user.as_str()) {
            Some(part) => Some(self.config.server.clone().concat(part.as_str())),
            None => None,
        }
    }

    /// The value of the basic authorization header:
    /// "Basic " and the unpadded base64 of "user:app_password".
    pub fn auth_header(&self) -> (r: String)
        ensures
            r@ == "Basic "@ + base64_no_pad_of(
                self.config().user@ + ":"@ + self.config().app_password@,
            ),
    {
        let credentials = self.config.user.clone().concat(":").concat(self.config.app_password.as_str());
        let encoded = encode_base64_no_pad(credentials.as_str());
        String::from_str("Basic ").concat(encoded.as_str())
    }
}

} // verus!
