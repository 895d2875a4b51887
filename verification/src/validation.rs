//! Validation of configuration values, with the path of the value that was
//! found wrong.

use vstd::prelude::*;
use vstd::string::StringExecFns;

verus! {

/// An element of a validation path
#[derive(Debug)]
pub enum Element {
    /// The name of a field
    Field(&'static str),
    /// The id of an entry
    Id(String),
}

impl View for Element {
    type V = Seq<char>;

    /// The text of the element.
    open spec fn view(&self) -> Seq<char> {
        match self {
            Element::Field(name) => name@,
            Element::Id(id) => id@,
        }
    }
}

/// The elements as sequences of characters.
pub open spec fn texts(elements: Seq<Element>) -> Seq<Seq<char>> {
    elements.map_values(|element: Element| element@)
}

/// The text of a path: each element behind a slash.
pub open spec fn path_text(elements: Seq<Seq<char>>) -> Seq<char>
    decreases elements.len(),
{
    if elements.len() == 0 {
        Seq::empty()
    } else {
        path_text(elements.drop_last()) + seq!['/'] + elements.last()
    }
}

/// A validation path
#[derive(Debug)]
pub struct Path {
    /// Path elements
    elements: Vec<Element>,
}

impl View for Path {
    type V = Seq<Seq<char>>;

    /// The elements of the path, the outermost first.
    closed spec fn view(&self) -> Seq<Seq<char>> {
        texts(self.elements@)
    }
}

impl Path {
    /// Creates a new path
    pub fn new() -> (path: Path)
        ensures
            path@ == Seq::<Seq<char>>::empty(),
    {
        let path = Path { elements: Vec::new() };
        assert(path@ =~= Seq::<Seq<char>>::empty());
        path
    }

    /// Pushes a field
    pub fn push_field(&mut self, name: &'static str)
        ensures
            final(self)@ == old(self)@.push(name@),
    {
        self.elements.push(Element::Field(name));
        assert(self@ =~= old(self)@.push(name@));
    }

    /// Pushes the id of an entry
    pub fn push_id(&mut self, id: String)
        ensures
            final(self)@ == old(self)@.push(id@),
    {
        self.elements.push(Element::Id(id));
        assert(self@ =~= old(self)@.push(id@));
    }

    /// Pops an element off the path; an empty path stays empty
    pub fn pop(&mut self)
        ensures
            final(self)@ == (if old(self)@.len() > 0 {
                old(self)@.drop_last()
            } else {
                old(self)@
            }),
    {
        self.elements.pop();
        assert(self@ =~= (if old(self)@.len() > 0 {
            old(self)@.drop_last()
        } else {
            old(self)@
        }));
    }

    /// Creates a string representation of the path
    pub fn to_string(&self) -> (text: String)
        ensures
            text@ == path_text(self@),
    {
        let mut buffer = String::new();
        let mut i: usize = 0;
        proof {
            reveal_strlit("/");
            assert(self@.take(0) =~= Seq::<Seq<char>>::empty());
        }
        while i < self.elements.len()
            invariant
                i <= self.elements@.len(),
                "/"@ == seq!['/'],
                buffer@ == path_text(self@.take(i as int)),
            decreases self.elements@.len() - i,
        {
            buffer.append("/");
            match &self.elements[i] {
                Element::Field(name) => {
                    buffer.append(name);
                },
                Element::Id(id) => {
                    buffer.append(id.as_str());
                },
            }
            proof {
                assert(self@.take(i + 1).drop_last() =~= self@.take(i as int));
                assert(self@.take(i + 1).last() == self.elements@[i as int]@);
            }
            i += 1;
        }
        assert(self@.take(self@.len() as int) =~= self@);
        buffer
    }
}

/// A generic validation error
#[derive(Debug)]
pub struct Error {
    /// The message
    message: String,
    /// The path
    path: String,
}

/// What a validation error holds.
pub struct ErrorView {
    /// The message
    pub message: Seq<char>,
    /// The text of the path of the value that was found wrong
    pub path: Seq<char>,
}

impl View for Error {
    type V = ErrorView;

    closed spec fn view(&self) -> ErrorView {
        ErrorView { message: self.message@, path: self.path@ }
    }
}

impl Error {
    /// Creates a new error
    pub fn new(path: &Path, message: &str) -> (error: Error)
        ensures
            error@ == (ErrorView { message: message@, path: path_text(path@) }),
    {
        Error { message: message.to_owned(), path: path.to_string() }
    }

    /// Returns the message
    pub fn message(&self) -> (message: &String)
        ensures
            message@ == self@.message,
    {
        &self.message
    }

    /// Returns the text of the path of the value that was found wrong
    pub fn path(&self) -> (path: &String)
        ensures
            path@ == self@.path,
    {
        &self.path
    }
}

impl PartialEq for Error {
    /// Two errors are equal when their messages and their paths are
    fn eq(&self, other: &Error) -> (r: bool) {
        self.message == other.message && self.path == other.path
    }
}

impl vstd::std_specs::cmp::PartialEqSpecImpl for Error {
    open spec fn obeys_eq_spec() -> bool {
        true
    }

    open spec fn eq_spec(&self, other: &Error) -> bool {
        self@ == other@
    }
}

/// A value that can be turned into a validated value
pub trait ValidateInto<T> {
    /// Converts a type into a validated type
    fn validate_into(self, validator: &mut Validator) -> Result<T, Error>;
}

/// A generic validator
#[derive(Debug)]
pub struct Validator {
    /// The current path
    path: Path,
}

impl View for Validator {
    type V = Seq<Seq<char>>;

    /// The path of the value that is being validated.
    closed spec fn view(&self) -> Seq<Seq<char>> {
        self.path@
    }
}

impl Validator {
    /// Creates a new validator
    pub fn new() -> (validator: Validator)
        ensures
            validator@ == Seq::<Seq<char>>::empty(),
    {
        Validator { path: Path::new() }
    }

    /// Validates a field: the value is handed back where the predicate
    /// holds of it. Where it does not, the error has the message and the
    /// path of the field, and the validator stays at the field
    pub fn validate_field<T, F: Fn(&T) -> bool>(
        &mut self,
        name: &'static str,
        message: &str,
        value: T,
        predicate: F,
    ) -> (r: Result<T, Error>)
        requires
            predicate.requires((&value,)),
        ensures
            match r {
                Ok(validated) => {
                    &&& validated == value
                    &&& predicate.ensures((&value,), true)
                    &&& final(self)@ == old(self)@
                },
                Err(error) => {
                    &&& predicate.ensures((&value,), false)
                    &&& error@ == (ErrorView {
                        message: message@,
                        path: path_text(old(self)@.push(name@)),
                    })
                    &&& final(self)@ == old(self)@.push(name@)
                },
            },
    {
        self.path.push_field(name);
        if !predicate(&value) {
            Err(Error::new(&self.path, message))
        } else {
            self.path.pop();
            assert(old(self)@.push(name@).drop_last() =~= old(self)@);
            Ok(value)
        }
    }

    /// Ends the validation of a field with the outcome that it had: leaves
    /// the field where it was found valid, and stays at it where it was not
    pub fn leave_field<O>(&mut self, outcome: Result<O, Error>) -> (r: Result<O, Error>)
        ensures
            r == outcome,
            final(self)@ == (if outcome.is_ok() && old(self)@.len() > 0 {
                old(self)@.drop_last()
            } else {
                old(self)@
            }),
    {
        match outcome {
            Ok(output) => {
                self.path.pop();
                Ok(output)
            },
            Err(error) => Err(error),
        }
    }

    /// Validates a field whose value is validated by its own type. The
    /// value is handed the validator at the path of the field, and what it
    /// returns is returned. Where it was found valid the validator leaves
    /// the path element at which the value left it; where it was not, the
    /// validator stays where the value left it
    pub fn validate_field_into<O, I: ValidateInto<O>>(
        &mut self,
        name: &'static str,
        value: I,
    ) -> (r: Result<O, Error>)
        ensures
            exists|handed: &mut Validator|
                {
                    &&& handed@ == old(self)@.push(name@)
                    &&& #[trigger] call_ensures(I::validate_into, (value, handed), r)
                    &&& final(self)@ == (if r.is_ok() && final(handed)@.len() > 0 {
                        final(handed)@.drop_last()
                    } else {
                        final(handed)@
                    })
                },
    {
        self.path.push_field(name);
        let outcome = value.validate_into(self);
        self.leave_field(outcome)
    }

    /// Validates an input value: the value is handed the validator as it
    /// is, what it returns is returned, and the validator is left as the
    /// value left it
    pub fn validate_into<O, I: ValidateInto<O>>(&mut self, input: I) -> (r: Result<O, Error>)
        ensures
            exists|handed: &mut Validator|
                {
                    &&& *handed == *old(self)
                    &&& *final(handed) == *final(self)
                    &&& #[trigger] call_ensures(I::validate_into, (input, handed), r)
                },
    {
        input.validate_into(self)
    }
}

} // verus!
