//! Validation errors: an ordered list of messages.
use vstd::prelude::*;

verus! {

/// The messages of a failed validation, in the order they arose.
#[derive(Debug)]
pub struct ValidationError {
    causes: Vec<String>,
}

impl ValidationError {
    /// The messages.
    pub closed spec fn view(&self) -> Seq<Seq<char>> {
        self.causes@.map_values(|s: String| s@)
    }

    /// No message.
    pub fn empty() -> (e: Self)
        ensures
            e@ == Seq::<Seq<char>>::empty(),
    {
        let e = ValidationError { causes: Vec::new() };
        assert(e@ =~= Seq::<Seq<char>>::empty());
        e
    }

    /// One message.
    pub fn new(message: String) -> (e: Self)
        ensures
            e@ == seq![message@],
    {
        let mut e = Self::empty();
        e.append(message);
        assert(e@ =~= seq![message@]);
        e
    }

    /// The messages, one per cause, in order: how a list of server errors,
    /// each written out, becomes a validation error.
    pub fn from_messages(messages: Vec<String>) -> (e: Self)
        ensures
            e@ == messages@.map_values(|s: String| s@),
    {
        let e = ValidationError { causes: messages };
        e
    }

    /// Adds a message at the end.
    pub fn append(&mut self, message: String)
        ensures
            final(self)@ == old(self)@.push(message@),
    {
        self.causes.push(message);
        assert(self@ =~= old(self)@.push(message@));
    }

    /// Adds the messages of another error after these.
    pub fn combine(&mut self, other: ValidationError)
        ensures
            final(self)@ == old(self)@ + other@,
    {
        let mut o = other.causes;
        let ghost oc = o@;
        self.causes.append(&mut o);
        assert(self@ =~= old(self)@ + oc.map_values(|s: String| s@));
    }

    /// Whether there is no message.
    pub fn is_empty(&self) -> (r: bool)
        ensures
            r == (self@.len() == 0),
    {
        self.causes.len() == 0
    }

    /// The messages.
    pub fn causes(&self) -> (r: &Vec<String>)
        ensures
            r@.map_values(|s: String| s@) == self@,
    {
        &self.causes
    }
}

} // verus!
