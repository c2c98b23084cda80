use vstd::prelude::*;

verus! {

/// Why a decode or an encode was refused.
#[derive(Debug, Clone, Copy, PartialEq, Eq, Structural)]
pub enum Error {
    /// A frame declares a total length below the size of the record header.
    Framing,
    /// The record-type tag is not known, or the frame is too short for the
    /// record type that its tag claims.
    Conversion,
    /// The input ends before the metadata or the symbol table is complete.
    Truncated,
    /// The schema tag of a metadata block is not known.
    InvalidSchema,
    /// A ticker is not valid UTF-8.
    InvalidUtf8,
    /// The serialized metadata does not fit the fixed-length metadata section.
    MetadataTooLong,
    /// A byte that stands for no member of an enumeration.
    InvalidValue,
}

impl Error {
    /// A short description of the error.
    pub open spec fn spec_message(self) -> Seq<char> {
        match self {
            Error::Framing => "record shorter than header"@,
            Error::Conversion => "record could not be converted to the target type"@,
            Error::Truncated => "input ended inside the metadata"@,
            Error::InvalidSchema => "unknown schema tag"@,
            Error::InvalidUtf8 => "ticker is not valid UTF-8"@,
            Error::MetadataTooLong => "metadata longer than the metadata section"@,
            Error::InvalidValue => "unknown enumeration value"@,
        }
    }

    /// A short description of the error.
    pub fn message(&self) -> (s: &'static str)
        ensures
            s@ == self.spec_message(),
    {
        proof {
            reveal_strlit("record shorter than header");
            reveal_strlit("record could not be converted to the target type");
            reveal_strlit("input ended inside the metadata");
            reveal_strlit("unknown schema tag");
            reveal_strlit("ticker is not valid UTF-8");
            reveal_strlit("metadata longer than the metadata section");
            reveal_strlit("unknown enumeration value");
        }
        match self {
            Error::Framing => "record shorter than header",
            Error::Conversion => "record could not be converted to the target type",
            Error::Truncated => "input ended inside the metadata",
            Error::InvalidSchema => "unknown schema tag",
            Error::InvalidUtf8 => "ticker is not valid UTF-8",
            Error::MetadataTooLong => "metadata longer than the metadata section",
            Error::InvalidValue => "unknown enumeration value",
        }
    }
}

} // verus!
