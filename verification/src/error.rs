//! The library's error type. Parsing, merging, and building report through
//! these variants; the strings carry the attribute, child, or value that
//! was at fault.

use vstd::prelude::*;

verus! {

#[derive(Debug, Clone, PartialEq, Eq)]
pub enum Error {
    /// A required attribute was absent; carries the attribute name.
    MissingAttribute(String),
    /// A required child element was absent; carries the child name.
    MissingChild(String),
    /// The root element had the wrong name; carries the expected and the
    /// found name.
    WrongRoot(String, String),
    /// A numeric attribute did not parse; carries the text.
    BadNumber(String),
    /// A value was outside its closed set; carries the text.
    BadValue(String),
    /// The document was not well-formed XML.
    Syntax,
    /// A package carried no release at all.
    NoReleases,
    /// A device reached the family level without a name.
    NoDeviceName,
    /// A device reached the family level without a family name.
    NoDeviceFamily,
    /// A device carries no processor at any level; carries the device name.
    NoProcessor(String),
    /// A processor specification resolved without a core.
    NoCore,
    /// A processor list cannot merge against a parent list of two or more.
    TwoProcessorParents,
    /// A memory entry carries neither an id nor a name attribute.
    NoMemoryName,
}

/// The mathematical image of an error.
pub enum ErrV {
    MissingAttribute(Seq<char>),
    MissingChild(Seq<char>),
    WrongRoot(Seq<char>, Seq<char>),
    BadNumber(Seq<char>),
    BadValue(Seq<char>),
    Syntax,
    NoReleases,
    NoDeviceName,
    NoDeviceFamily,
    NoProcessor(Seq<char>),
    NoCore,
    TwoProcessorParents,
    NoMemoryName,
}

impl View for Error {
    type V = ErrV;

    open spec fn view(&self) -> ErrV {
        match self {
            Error::MissingAttribute(s) => ErrV::MissingAttribute(s@),
            Error::MissingChild(s) => ErrV::MissingChild(s@),
            Error::WrongRoot(a, b) => ErrV::WrongRoot(a@, b@),
            Error::BadNumber(s) => ErrV::BadNumber(s@),
            Error::BadValue(s) => ErrV::BadValue(s@),
            Error::Syntax => ErrV::Syntax,
            Error::NoReleases => ErrV::NoReleases,
            Error::NoDeviceName => ErrV::NoDeviceName,
            Error::NoDeviceFamily => ErrV::NoDeviceFamily,
            Error::NoProcessor(s) => ErrV::NoProcessor(s@),
            Error::NoCore => ErrV::NoCore,
            Error::TwoProcessorParents => ErrV::TwoProcessorParents,
            Error::NoMemoryName => ErrV::NoMemoryName,
        }
    }
}

} // verus!
