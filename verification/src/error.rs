//! The error type shared by the whole library.

use vstd::prelude::*;

verus! {

/// Everything that an operation of the library can fail with.
#[derive(Debug)]
#[non_exhaustive]
pub enum Error {
    NotAvailable,
    KeyNotFound { label: String },
    DuplicateLabel { label: String },
    InvalidLabel { reason: String },
    SignFailed { detail: String },
    EncryptFailed { detail: String },
    DecryptFailed { detail: String },
    AuthDenied { label: String },
    AuthRequired { label: String },
    UserCancelled { label: String },
    KeyOperation { operation: String, detail: String },
    /// A tamper-evident file does not match its recorded tag.
    TamperDetected { path: String },
    /// The named option needs a code-signed binary.
    RequiresSigning { feature: String },
    /// The backend cannot enforce the named access policy.
    PolicyNotSupported { policy: String },
    /// The platform cannot ask for user presence.
    PresenceNotAvailable,
    Config(String),
    /// Protected memory could not be set up or used.
    Memory(String),
    Io(String),
}

/// The mathematical content of an [`Error`].
pub enum ErrorView {
    NotAvailable,
    KeyNotFound { label: Seq<char> },
    DuplicateLabel { label: Seq<char> },
    InvalidLabel { reason: Seq<char> },
    SignFailed { detail: Seq<char> },
    EncryptFailed { detail: Seq<char> },
    DecryptFailed { detail: Seq<char> },
    AuthDenied { label: Seq<char> },
    AuthRequired { label: Seq<char> },
    UserCancelled { label: Seq<char> },
    KeyOperation { operation: Seq<char>, detail: Seq<char> },
    TamperDetected { path: Seq<char> },
    RequiresSigning { feature: Seq<char> },
    PolicyNotSupported { policy: Seq<char> },
    PresenceNotAvailable,
    Config(Seq<char>),
    Memory(Seq<char>),
    Io(Seq<char>),
}

impl View for Error {
    type V = ErrorView;

    open spec fn view(&self) -> ErrorView {
        match self {
            Error::NotAvailable => ErrorView::NotAvailable,
            Error::KeyNotFound { label } => ErrorView::KeyNotFound { label: label@ },
            Error::DuplicateLabel { label } => ErrorView::DuplicateLabel { label: label@ },
            Error::InvalidLabel { reason } => ErrorView::InvalidLabel { reason: reason@ },
            Error::SignFailed { detail } => ErrorView::SignFailed { detail: detail@ },
            Error::EncryptFailed { detail } => ErrorView::EncryptFailed { detail: detail@ },
            Error::DecryptFailed { detail } => ErrorView::DecryptFailed { detail: detail@ },
            Error::AuthDenied { label } => ErrorView::AuthDenied { label: label@ },
            Error::AuthRequired { label } => ErrorView::AuthRequired { label: label@ },
            Error::UserCancelled { label } => ErrorView::UserCancelled { label: label@ },
            Error::KeyOperation { operation, detail } => ErrorView::KeyOperation {
                operation: operation@,
                detail: detail@,
            },
            Error::TamperDetected { path } => ErrorView::TamperDetected { path: path@ },
            Error::RequiresSigning { feature } => ErrorView::RequiresSigning { feature: feature@ },
            Error::PolicyNotSupported { policy } => ErrorView::PolicyNotSupported {
                policy: policy@,
            },
            Error::PresenceNotAvailable => ErrorView::PresenceNotAvailable,
            Error::Config(s) => ErrorView::Config(s@),
            Error::Memory(s) => ErrorView::Memory(s@),
            Error::Io(s) => ErrorView::Io(s@),
        }
    }
}

/// The view of an error keeps its kind and its texts, whatever they are.
pub proof fn law_errors_are_shown_as_they_are(e: Error)
    ensures
        e is NotAvailable <==> e@ is NotAvailable,
        e is PresenceNotAvailable <==> e@ is PresenceNotAvailable,
        e matches Error::KeyNotFound { label } ==> e@ == (ErrorView::KeyNotFound { label: label@ }),
        e matches Error::DuplicateLabel { label } ==> e@ == (ErrorView::DuplicateLabel {
            label: label@,
        }),
        e matches Error::InvalidLabel { reason } ==> e@ == (ErrorView::InvalidLabel {
            reason: reason@,
        }),
        e matches Error::SignFailed { detail } ==> e@ == (ErrorView::SignFailed {
            detail: detail@,
        }),
        e matches Error::EncryptFailed { detail } ==> e@ == (ErrorView::EncryptFailed {
            detail: detail@,
        }),
        e matches Error::DecryptFailed { detail } ==> e@ == (ErrorView::DecryptFailed {
            detail: detail@,
        }),
        e matches Error::AuthDenied { label } ==> e@ == (ErrorView::AuthDenied { label: label@ }),
        e matches Error::AuthRequired { label } ==> e@ == (ErrorView::AuthRequired {
            label: label@,
        }),
        e matches Error::UserCancelled { label } ==> e@ == (ErrorView::UserCancelled {
            label: label@,
        }),
        e matches Error::KeyOperation { operation, detail } ==> e@ == (ErrorView::KeyOperation {
            operation: operation@,
            detail: detail@,
        }),
        e matches Error::TamperDetected { path } ==> e@ == (ErrorView::TamperDetected {
            path: path@,
        }),
        e matches Error::RequiresSigning { feature } ==> e@ == (ErrorView::RequiresSigning {
            feature: feature@,
        }),
        e matches Error::PolicyNotSupported { policy } ==> e@ == (ErrorView::PolicyNotSupported {
            policy: policy@,
        }),
        e matches Error::Config(s) ==> e@ == ErrorView::Config(s@),
        e matches Error::Memory(s) ==> e@ == ErrorView::Memory(s@),
        e matches Error::Io(s) ==> e@ == ErrorView::Io(s@),
{
}

}
