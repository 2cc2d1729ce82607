use vstd::prelude::*;

use crate::text::{concat_str, string_from};

verus! {

/// Application error. Each variant carries the message that the error's
/// display form appends to its prefix.
#[derive(Debug, Clone, PartialEq, Eq)]
pub enum Error {
    /// A storage (SQLite) failure, with the store's own message.
    Database(String),
    /// A JSON (de)serialisation failure, with the codec's own message.
    Serialization(String),
    /// A cryptographic failure (encryption, decryption, signing, decoding).
    Crypto(String),
    /// An identity failure (no identity, wrong passphrase, bad mnemonic).
    Identity(String),
    /// A relay failure (not connected, send failed).
    Relay(String),
    /// A file or network I/O failure.
    Io(String),
    /// A missing resource.
    NotFound(String),
}

/// The mathematical content of an `Error`: its variant and message.
pub enum ErrorView {
    Database(Seq<char>),
    Serialization(Seq<char>),
    Crypto(Seq<char>),
    Identity(Seq<char>),
    Relay(Seq<char>),
    Io(Seq<char>),
    NotFound(Seq<char>),
}

impl View for Error {
    type V = ErrorView;

    open spec fn view(&self) -> ErrorView {
        match self {
            Error::Database(m) => ErrorView::Database(m@),
            Error::Serialization(m) => ErrorView::Serialization(m@),
            Error::Crypto(m) => ErrorView::Crypto(m@),
            Error::Identity(m) => ErrorView::Identity(m@),
            Error::Relay(m) => ErrorView::Relay(m@),
            Error::Io(m) => ErrorView::Io(m@),
            Error::NotFound(m) => ErrorView::NotFound(m@),
        }
    }
}

/// The view of a result holding bytes.
pub open spec fn bytes_result(r: Result<Vec<u8>, Error>) -> Result<Seq<u8>, ErrorView> {
    match r {
        Ok(v) => Ok(v@),
        Err(e) => Err(e@),
    }
}

/// The prefix that the display form of each variant puts before its message.
pub open spec fn error_prefix(e: ErrorView) -> Seq<char> {
    match e {
        ErrorView::Database(_) => "Database error: "@,
        ErrorView::Serialization(_) => "Serialization error: "@,
        ErrorView::Crypto(_) => "Crypto error: "@,
        ErrorView::Identity(_) => "Identity error: "@,
        ErrorView::Relay(_) => "Relay error: "@,
        ErrorView::Io(_) => "IO error: "@,
        ErrorView::NotFound(_) => "Not found: "@,
    }
}

/// The message that a variant carries.
pub open spec fn error_message(e: ErrorView) -> Seq<char> {
    match e {
        ErrorView::Database(m) => m,
        ErrorView::Serialization(m) => m,
        ErrorView::Crypto(m) => m,
        ErrorView::Identity(m) => m,
        ErrorView::Relay(m) => m,
        ErrorView::Io(m) => m,
        ErrorView::NotFound(m) => m,
    }
}

/// The display form of an error: its prefix followed by its message.
pub open spec fn error_text(e: ErrorView) -> Seq<char> {
    error_prefix(e) + error_message(e)
}

impl Error {
    /// The display form of the error, e.g. `"Crypto error: aead::Error"`.
    pub fn to_display_string(&self) -> (s: String)
        ensures
            s@ == error_text(self@),
    {
        let (prefix, message) = match self {
            Error::Database(m) => ("Database error: ", m),
            Error::Serialization(m) => ("Serialization error: ", m),
            Error::Crypto(m) => ("Crypto error: ", m),
            Error::Identity(m) => ("Identity error: ", m),
            Error::Relay(m) => ("Relay error: ", m),
            Error::Io(m) => ("IO error: ", m),
            Error::NotFound(m) => ("Not found: ", m),
        };
        concat_str(string_from(prefix), message.as_str())
    }
}

} // verus!
