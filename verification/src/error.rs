use vstd::prelude::*;

verus! {

/// One step of a location inside a document: an object key or an array
/// position.
#[derive(Debug, PartialEq)]
pub enum PathPart {
    Key(String),
    At(usize),
}

/// The model of a `PathPart`.
pub enum PathPartV {
    Key(Seq<char>),
    At(int),
}

impl View for PathPart {
    type V = PathPartV;

    open spec fn view(&self) -> PathPartV {
        match self {
            PathPart::Key(s) => PathPartV::Key(s@),
            PathPart::At(i) => PathPartV::At(*i as int),
        }
    }
}

pub open spec fn path_view(s: Seq<PathPart>) -> Seq<PathPartV> {
    s.map_values(|p: PathPart| p@)
}

/// Why a splitter document was rejected.  Every variant that points into the
/// document carries the path of the offending node, from the root downwards.
#[derive(Debug, PartialEq)]
pub enum ParseError {
    /// The input is not syntactically valid JSON; carries the reader's
    /// message.
    MalformedDocument(String),
    /// A required field is absent: the path of the object, and the field
    /// name.
    MissingField(Vec<PathPart>, String),
    /// A field holds a value of the wrong shape: the path of that value.
    TypeMismatch(Vec<PathPart>),
    /// A `type` tag outside the closed comparison set: the path of the tag,
    /// and the tag itself.
    UnrecognizedComparisonType(Vec<PathPart>, String),
    /// Address text that is not a hexadecimal numeral in 32-bit range;
    /// carries the text.
    InvalidAddress(String),
    /// A failure of the byte source that supplied the document; raised by
    /// callers that read from a file, never by the parser itself.
    IoFailure(String),
}

/// The model of a `ParseError`.
pub enum ErrV {
    MalformedDocument(Seq<char>),
    MissingField(Seq<PathPartV>, Seq<char>),
    TypeMismatch(Seq<PathPartV>),
    UnrecognizedComparisonType(Seq<PathPartV>, Seq<char>),
    InvalidAddress(Seq<char>),
    IoFailure(Seq<char>),
}

impl View for ParseError {
    type V = ErrV;

    open spec fn view(&self) -> ErrV {
        match self {
            ParseError::MalformedDocument(m) => ErrV::MalformedDocument(m@),
            ParseError::MissingField(p, f) => ErrV::MissingField(path_view(p@), f@),
            ParseError::TypeMismatch(p) => ErrV::TypeMismatch(path_view(p@)),
            ParseError::UnrecognizedComparisonType(p, t) => ErrV::UnrecognizedComparisonType(
                path_view(p@),
                t@,
            ),
            ParseError::InvalidAddress(t) => ErrV::InvalidAddress(t@),
            ParseError::IoFailure(m) => ErrV::IoFailure(m@),
        }
    }
}

/// The same error, located one level deeper: `part` is put in front of the
/// error's path.  Errors that carry no path are unchanged.
pub open spec fn err_prefixed(e: ErrV, part: PathPartV) -> ErrV {
    match e {
        ErrV::MissingField(p, f) => ErrV::MissingField(p.insert(0, part), f),
        ErrV::TypeMismatch(p) => ErrV::TypeMismatch(p.insert(0, part)),
        ErrV::UnrecognizedComparisonType(p, t) => ErrV::UnrecognizedComparisonType(
            p.insert(0, part),
            t,
        ),
        _ => e,
    }
}

impl ParseError {
    /// This error, located one level deeper in the document.
    pub fn prefixed(self, part: PathPart) -> (r: Self)
        ensures
            r@ == err_prefixed(self@, part@),
    {
        match self {
            ParseError::MissingField(mut p, f) => {
                let ghost p0 = p@;
                p.insert(0, part);
                proof {
                    assert(path_view(p@) =~= path_view(p0).insert(0, part@));
                }
                ParseError::MissingField(p, f)
            },
            ParseError::TypeMismatch(mut p) => {
                let ghost p0 = p@;
                p.insert(0, part);
                proof {
                    assert(path_view(p@) =~= path_view(p0).insert(0, part@));
                }
                ParseError::TypeMismatch(p)
            },
            ParseError::UnrecognizedComparisonType(mut p, t) => {
                let ghost p0 = p@;
                p.insert(0, part);
                proof {
                    assert(path_view(p@) =~= path_view(p0).insert(0, part@));
                }
                ParseError::UnrecognizedComparisonType(p, t)
            },
            other => other,
        }
    }
}

} // verus!
