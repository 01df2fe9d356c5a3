//! Document URIs.

use crate::path;
use crate::text;
use lsp_types::Url;
use vstd::prelude::*;

verus! {

/// What a URI says about where its document is.
pub enum UrlPath {
    /// It is no URL.
    Unparsable,
    /// It is a URL, but not that of a local file.
    NotLocal,
    /// It is the URL of the file at this path.
    Local(Vec<u8>),
}

/// Whether `lsp_types::Url::parse` takes `uri`.
pub uninterp spec fn url_parses(uri: Seq<char>) -> bool;

/// The bytes of the path that `lsp_types::Url::to_file_path` gives for the URL that `uri` is.
pub uninterp spec fn url_file_path(uri: Seq<char>) -> Option<Seq<u8>>;

/// `lsp_types::Url::parse`, and `to_file_path` on the URL that it gives. Both depend on the URI
/// alone, and a path is an absolute one, as Unix has them. Which URIs are URLs, and which path
/// belongs to one, is left to that crate.
#[verifier::external_body]
fn parse_file_url(uri: &str) -> (r: UrlPath)
    ensures
        match r {
            UrlPath::Unparsable => !url_parses(uri@),
            UrlPath::NotLocal => url_parses(uri@) && url_file_path(uri@) is None,
            UrlPath::Local(path) => url_parses(uri@) && url_file_path(uri@) == Some(path@)
                && path::absolute(path@),
        },
{
    match Url::parse(uri) {
        Ok(url) => match url.to_file_path() {
            Ok(path) => UrlPath::Local(path.into_os_string().into_encoded_bytes()),
            Err(()) => UrlPath::NotLocal,
        },
        Err(_) => UrlPath::Unparsable,
    }
}

/// Why a document has no path.
pub enum SourcePathError {
    /// Its URI is no URL.
    Unparsable,
    /// Its URI, which this holds, is not that of a local file.
    NotLocal(String),
}

impl SourcePathError {
    /// What the user is told.
    pub open spec fn text(self) -> Seq<char> {
        match self {
            SourcePathError::Unparsable => "parsing document uri"@,
            SourcePathError::NotLocal(uri) => "document is not a local file: "@ + uri@,
        }
    }

    /// What the user is told.
    pub fn message(&self) -> (r: String)
        ensures
            r@ == self.text(),
    {
        match self {
            SourcePathError::Unparsable => "parsing document uri".to_owned(),
            SourcePathError::NotLocal(uri) => "document is not a local file: ".to_owned().concat(
                uri.as_str(),
            ),
        }
    }
}

/// The path of a document, from what its URI says.
pub fn source_path_from(uri: &str, parsed: UrlPath) -> (r: Result<Vec<u8>, SourcePathError>)
    ensures
        match parsed {
            UrlPath::Unparsable => r == Err::<Vec<u8>, SourcePathError>(
                SourcePathError::Unparsable,
            ),
            UrlPath::NotLocal => r matches Err(SourcePathError::NotLocal(u)) && u@ == uri@,
            UrlPath::Local(path) => r == Ok::<Vec<u8>, SourcePathError>(path),
        },
{
    match parsed {
        UrlPath::Unparsable => Err(SourcePathError::Unparsable),
        UrlPath::NotLocal => Err(SourcePathError::NotLocal(uri.to_owned())),
        UrlPath::Local(path) => Ok(path),
    }
}

/// The path of the document with the given URI.
pub fn source_path(uri: &str) -> (r: Result<Vec<u8>, SourcePathError>)
    ensures
        match r {
            Ok(path) => url_parses(uri@) && url_file_path(uri@) == Some(path@) && path::absolute(
                path@,
            ),
            Err(SourcePathError::Unparsable) => !url_parses(uri@),
            Err(SourcePathError::NotLocal(u)) => u@ == uri@ && url_parses(uri@) && url_file_path(
                uri@,
            ) is None,
        },
{
    let parsed = parse_file_url(uri);
    source_path_from(uri, parsed)
}

/// A URI that ends like the file name of a Mermaid diagram.
pub open spec fn mermaid(uri: Seq<char>) -> bool {
    ".mmd"@.is_suffix_of(uri) || ".mermaid"@.is_suffix_of(uri)
}

/// Whether the document with the given URI is a Mermaid diagram.
pub fn is_mermaid_document(uri: &str) -> (r: bool)
    ensures
        r == mermaid(uri@),
{
    let chars = text::chars_of(uri);
    text::ends_with(&chars, ".mmd") || text::ends_with(&chars, ".mermaid")
}

/// A diagram is told by the last characters of its URI, `.mmd` or `.mermaid`, and by nothing else.
pub proof fn diagrams_are_told_by_their_ending(uri: Seq<char>, before: Seq<char>)
    ensures
        mermaid(before + ".mmd"@),
        mermaid(before + ".mermaid"@),
        mermaid(uri) ==> (exists|rest: Seq<char>| uri == #[trigger] (rest + ".mmd"@)) || (exists|
            rest: Seq<char>,
        | uri == #[trigger] (rest + ".mermaid"@)),
{
    assert(".mmd"@.is_suffix_of(before + ".mmd"@)) by {
        assert((before + ".mmd"@).subrange(
            before.len() as int,
            (before + ".mmd"@).len() as int,
        ) =~= ".mmd"@);
    }
    assert(".mermaid"@.is_suffix_of(before + ".mermaid"@)) by {
        assert((before + ".mermaid"@).subrange(
            before.len() as int,
            (before + ".mermaid"@).len() as int,
        ) =~= ".mermaid"@);
    }
    if mermaid(uri) {
        if ".mmd"@.is_suffix_of(uri) {
            let rest = uri.take(uri.len() - ".mmd"@.len());
            assert(uri =~= rest + ".mmd"@);
        } else {
            let rest = uri.take(uri.len() - ".mermaid"@.len());
            assert(uri =~= rest + ".mermaid"@);
        }
    }
}

/// What the user is told of a document without a path names the whole URI.
pub proof fn errors_are_told_whole(error: SourcePathError)
    ensures
        error is Unparsable ==> error.text() == "parsing document uri"@,
        error is NotLocal ==> error.text() == "document is not a local file: "@ + error->0@,
{
}

} // verus!
