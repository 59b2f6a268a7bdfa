use vstd::prelude::*;

verus! {

/// Why a post could not be read: a message, and the file it is about when one is known.
#[derive(Debug)]
pub struct InvalidPostError {
    context: Option<String>,
    details: String,
}

/// The text an error displays: `details in path`, or the details alone without a path.
pub open spec fn error_text(e: (Option<Seq<char>>, Seq<char>)) -> Seq<char> {
    match e.0 {
        Some(path) => e.1 + " in "@ + path,
        None => e.1,
    }
}

impl View for InvalidPostError {
    /// The path the error is about, if any, and its details.
    type V = (Option<Seq<char>>, Seq<char>);

    closed spec fn view(&self) -> (Option<Seq<char>>, Seq<char>) {
        (
            match self.context {
                Some(p) => Some(p@),
                None => None,
            },
            self.details@,
        )
    }
}

impl InvalidPostError {
    /// An error about the file at `path`.
    pub fn new_for_path(path: &String, msg: &str) -> (e: InvalidPostError)
        ensures
            e@ == (Some(path@), msg@),
    {
        let context = path.clone();
        InvalidPostError { context: Some(context), details: msg.to_owned() }
    }

    /// An error about no file in particular.
    pub fn new(msg: &str) -> (e: InvalidPostError)
        ensures
            e@ == (None::<Seq<char>>, msg@),
    {
        InvalidPostError { context: None, details: msg.to_owned() }
    }

    /// The details of the error, without its path.
    pub fn description(&self) -> (d: &str)
        ensures
            d@ == self@.1,
    {
        self.details.as_str()
    }

    /// The path the error is about, if any.
    pub fn path(&self) -> (p: Option<&String>)
        ensures
            match p {
                Some(s) => self@.0 == Some(s@),
                None => self@.0 is None,
            },
    {
        match &self.context {
            Some(c) => Some(c),
            None => None,
        }
    }

    /// The text the error displays.
    pub fn message(&self) -> (s: String)
        ensures
            s@ == error_text(self@),
    {
        match &self.context {
            Some(c) => write_context(c, &self.details),
            None => self.details.clone(),
        }
    }
}

#[verifier::external_type_specification]
#[verifier::external_body]
pub struct ExParseIntError(std::num::ParseIntError);

/// A number that could not be parsed is an error about no file in particular.
impl From<std::num::ParseIntError> for InvalidPostError {
    fn from(_e: std::num::ParseIntError) -> (e: InvalidPostError)
        ensures
            e@ == (None::<Seq<char>>, "Unable to parse integer"@),
    {
        InvalidPostError::new("Unable to parse integer")
    }
}

/// What `from` gives is pinned down by its view, above: the `String` that holds the message
/// is not, so the conversion is not stated as one fixed value.
impl vstd::std_specs::convert::FromSpecImpl<std::num::ParseIntError> for InvalidPostError {
    open spec fn obeys_from_spec() -> bool {
        false
    }

    open spec fn from_spec(v: std::num::ParseIntError) -> InvalidPostError {
        choose|e: InvalidPostError| #[trigger] e.view() == (None::<Seq<char>>, "Unable to parse integer"@)
    }
}

#[verifier::external_type_specification]
#[verifier::external_body]
pub struct ExIoError(std::io::Error);

/// A failed read or write is an error about no file in particular.
impl From<std::io::Error> for InvalidPostError {
    fn from(_e: std::io::Error) -> (e: InvalidPostError)
        ensures
            e@ == (None::<Seq<char>>, "TBD IO Error"@),
    {
        InvalidPostError::new("TBD IO Error")
    }
}

/// What `from` gives is pinned down by its view, above: the `String` that holds the message
/// is not, so the conversion is not stated as one fixed value.
impl vstd::std_specs::convert::FromSpecImpl<std::io::Error> for InvalidPostError {
    open spec fn obeys_from_spec() -> bool {
        false
    }

    open spec fn from_spec(v: std::io::Error) -> InvalidPostError {
        choose|e: InvalidPostError| #[trigger] e.view() == (None::<Seq<char>>, "TBD IO Error"@)
    }
}

/// `details in path`.
fn write_context(path: &String, details: &String) -> (s: String)
    ensures
        s@ == details@ + " in "@ + path@,
{
    let mut s = details.clone();
    s.append(" in ");
    s.append(path.as_str());
    s
}

} // verus!
