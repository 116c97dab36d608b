use vstd::prelude::*;

verus! {

/// The required attribute of a record that was found missing.
#[derive(Debug, Clone, Copy, PartialEq, Eq, Structural)]
pub enum RequiredField {
    Uuid,
    Title,
    Password,
}

/// Every way in which opening a database can fail.
#[derive(Debug, PartialEq, Eq)]
pub enum Error {
    TooShort,
    NotAPws3Db,
    MisalignedEncryptedLen,
    NoEof,
    TruncatedField,
    UnterminatedHeader,
    UnterminatedRecord,
    SuspectIterations(u32),
    InvalidPassword,
    DecryptError,
    HmacMismatch,
    UnknownHeaderFieldType,
    UnknownRecordFieldType(u8),
    /// A field of the given type whose data has an unusable length.
    BadFieldLength(u8),
    /// A record lacks a required attribute; the title is empty when unknown.
    MissingRequiredField(RequiredField, String),
    MissingLastSave,
    /// A text field of the given type that is not UTF-8.
    InvalidUtf8(u8),
}

/// [`Error`] as a value of the specification: the title becomes its characters.
pub ghost enum ErrorView {
    TooShort,
    NotAPws3Db,
    MisalignedEncryptedLen,
    NoEof,
    TruncatedField,
    UnterminatedHeader,
    UnterminatedRecord,
    SuspectIterations(u32),
    InvalidPassword,
    DecryptError,
    HmacMismatch,
    UnknownHeaderFieldType,
    UnknownRecordFieldType(u8),
    BadFieldLength(u8),
    MissingRequiredField(RequiredField, Seq<char>),
    MissingLastSave,
    InvalidUtf8(u8),
}

impl View for Error {
    type V = ErrorView;

    open spec fn view(&self) -> ErrorView {
        match self {
            Error::TooShort => ErrorView::TooShort,
            Error::NotAPws3Db => ErrorView::NotAPws3Db,
            Error::MisalignedEncryptedLen => ErrorView::MisalignedEncryptedLen,
            Error::NoEof => ErrorView::NoEof,
            Error::TruncatedField => ErrorView::TruncatedField,
            Error::UnterminatedHeader => ErrorView::UnterminatedHeader,
            Error::UnterminatedRecord => ErrorView::UnterminatedRecord,
            Error::SuspectIterations(n) => ErrorView::SuspectIterations(*n),
            Error::InvalidPassword => ErrorView::InvalidPassword,
            Error::DecryptError => ErrorView::DecryptError,
            Error::HmacMismatch => ErrorView::HmacMismatch,
            Error::UnknownHeaderFieldType => ErrorView::UnknownHeaderFieldType,
            Error::UnknownRecordFieldType(t) => ErrorView::UnknownRecordFieldType(*t),
            Error::BadFieldLength(t) => ErrorView::BadFieldLength(*t),
            Error::MissingRequiredField(f, title) => ErrorView::MissingRequiredField(*f, title@),
            Error::MissingLastSave => ErrorView::MissingLastSave,
            Error::InvalidUtf8(t) => ErrorView::InvalidUtf8(*t),
        }
    }
}

/// The message shown for an error.
pub open spec fn message_of(e: ErrorView) -> Seq<char> {
    match e {
        ErrorView::TooShort => "DB data is less than minimum size"@,
        ErrorView::NotAPws3Db => "Data is not a Password Safe V3 DB"@,
        ErrorView::MisalignedEncryptedLen => "Data size does not match expected size for twofish blocks"@,
        ErrorView::NoEof => "No EOF found in DB"@,
        ErrorView::TruncatedField => "Data length of field is larger than the remaining data"@,
        ErrorView::UnterminatedHeader => "Final Header field is not expected end type"@,
        ErrorView::UnterminatedRecord => "Final record field is not expected end type"@,
        ErrorView::SuspectIterations(_) => "hash function iterations seems excessive"@,
        ErrorView::InvalidPassword => "Invalid Password"@,
        ErrorView::DecryptError => "Failed decrypting the DB data"@,
        ErrorView::HmacMismatch => "HMAC mismatch!"@,
        ErrorView::UnknownHeaderFieldType => "Unknown header field type"@,
        ErrorView::UnknownRecordFieldType(_) => "Unknown record field type"@,
        ErrorView::BadFieldLength(_) => "Unexpected field length"@,
        ErrorView::MissingRequiredField(RequiredField::Uuid, _) => "record is missing uuid"@,
        ErrorView::MissingRequiredField(RequiredField::Title, _) => "record is missing title"@,
        ErrorView::MissingRequiredField(RequiredField::Password, _) => "record is missing password"@,
        ErrorView::MissingLastSave => "missing last_save date"@,
        ErrorView::InvalidUtf8(_) => "Field data is not valid UTF-8"@,
    }
}

impl Error {
    /// The message shown for this error.
    pub fn message(&self) -> (r: String)
        ensures
            r@ == message_of(self@),
    {
        let text = match self {
            Error::TooShort => "DB data is less than minimum size",
            Error::NotAPws3Db => "Data is not a Password Safe V3 DB",
            Error::MisalignedEncryptedLen => "Data size does not match expected size for twofish blocks",
            Error::NoEof => "No EOF found in DB",
            Error::TruncatedField => "Data length of field is larger than the remaining data",
            Error::UnterminatedHeader => "Final Header field is not expected end type",
            Error::UnterminatedRecord => "Final record field is not expected end type",
            Error::SuspectIterations(_) => "hash function iterations seems excessive",
            Error::InvalidPassword => "Invalid Password",
            Error::DecryptError => "Failed decrypting the DB data",
            Error::HmacMismatch => "HMAC mismatch!",
            Error::UnknownHeaderFieldType => "Unknown header field type",
            Error::UnknownRecordFieldType(_) => "Unknown record field type",
            Error::BadFieldLength(_) => "Unexpected field length",
            Error::MissingRequiredField(RequiredField::Uuid, _) => "record is missing uuid",
            Error::MissingRequiredField(RequiredField::Title, _) => "record is missing title",
            Error::MissingRequiredField(RequiredField::Password, _) => "record is missing password",
            Error::MissingLastSave => "missing last_save date",
            Error::InvalidUtf8(_) => "Field data is not valid UTF-8",
        };
        text.to_string()
    }
}

} // verus!
