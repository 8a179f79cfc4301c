//! Network addresses as URLs.

use vstd::prelude::*;

verus! {

/// The error of `url::Url::parse`, carried without a look inside.
#[verifier::external_type_specification]
#[verifier::external_body]
pub struct ExUrlParseError(url::ParseError);

/// The serialization of the URL that `url::Url::parse` reads from `input`, or `None` where it
/// reads none.
pub uninterp spec fn url_of(input: Seq<char>) -> Option<Seq<char>>;

/// Calls `url::Url::parse` and gives the serialization of the URL that it reads.
#[verifier::external_body]
fn parse_url(input: &str) -> (res: Result<String, url::ParseError>)
    ensures
        match res {
            Ok(text) => url_of(input@) == Some(text@),
            Err(_) => url_of(input@) is None,
        },
{
    Ok(url::Url::parse(input)?.into())
}

/// The text is not a URL.
#[derive(Clone, Copy, Debug, PartialEq, Eq, Structural)]
pub struct InvalidUrl;

/// A URL in serialized form.
#[derive(Debug, PartialEq, Eq)]
pub struct Url {
    serialization: String,
}

impl View for Url {
    type V = Seq<char>;

    closed spec fn view(&self) -> Seq<char> {
        self.serialization@
    }
}

impl Clone for Url {
    fn clone(&self) -> (copy: Self)
        ensures
            copy@ == self@,
    {
        proof {
            use_type_invariant(self);
        }
        Url { serialization: self.serialization.clone() }
    }
}

impl Url {
    /// A `Url` is always one that was read from some text.
    #[verifier::type_invariant]
    spec fn was_read(self) -> bool {
        exists|input: Seq<char>| #[trigger] url_of(input) == Some(self.serialization@)
    }

    /// Reads `input` as a URL.
    pub fn parse(input: &str) -> (res: Result<Url, InvalidUrl>)
        ensures
            match res {
                Ok(url) => url_of(input@) == Some(url@),
                Err(_) => url_of(input@) is None,
            },
    {
        match parse_url(input) {
            Ok(serialization) => Ok(Url { serialization }),
            Err(_) => Err(InvalidUrl),
        }
    }

    /// The URL as text.
    pub fn as_str(&self) -> (text: &str)
        ensures
            text@ == self@,
    {
        self.serialization.as_str()
    }
}

} // verus!
