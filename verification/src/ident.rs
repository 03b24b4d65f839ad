//! Names of stored objects.

use rand::Rng;
use vstd::prelude::*;

verus! {

/// Number of symbols in the name of a stored object.
pub const NAME_LENGTH: usize = 16;

/// The 62 symbols a name is drawn from: ASCII letters and digits.
pub open spec fn is_alphanumeric(c: char) -> bool {
    ||| 'A' <= c <= 'Z'
    ||| 'a' <= c <= 'z'
    ||| '0' <= c <= '9'
}

/// A sequence of symbols that can name a stored object.
pub open spec fn is_object_name(s: Seq<char>) -> bool {
    &&& s.len() == NAME_LENGTH
    &&& forall|i: int| 0 <= i < s.len() ==> is_alphanumeric(#[trigger] s[i])
}

/// `String::push` appends the given symbol at the end of the string.
pub assume_specification[ String::push ](s: &mut String, c: char)
    ensures
        final(s)@ == old(s)@.push(c),
;

/// Draws one symbol with `rand::Rng::sample` from the distribution
/// `rand::distributions::Alphanumeric`, on the generator that
/// `rand::thread_rng` hands out. Which symbol comes is left open; it is
/// one of the 62 of the alphabet. The generator takes its seed from the
/// operating system, which is taken to provide one.
#[verifier::external_body]
fn sample_symbol() -> (c: char)
    ensures
        is_alphanumeric(c),
{
    rand::thread_rng().sample(rand::distributions::Alphanumeric)
}

/// Tells whether a symbol belongs to the alphabet.
pub fn symbol_allowed(c: char) -> (b: bool)
    ensures
        b == is_alphanumeric(c),
{
    ('A' <= c && c <= 'Z') || ('a' <= c && c <= 'z') || ('0' <= c && c <= '9')
}

/// The public handle of a stored upload, which is also the name of its
/// entry in the storage directory.
#[derive(Debug, PartialEq, Eq)]
pub struct StoredObjectId {
    name: String,
}

impl View for StoredObjectId {
    type V = Seq<char>;

    closed spec fn view(&self) -> Seq<char> {
        self.name@
    }
}

impl StoredObjectId {
    #[verifier::type_invariant]
    spec fn well_formed(&self) -> bool {
        is_object_name(self.name@)
    }

    /// A fresh name: sixteen symbols, each drawn on its own.
    pub fn generate() -> (id: StoredObjectId)
        ensures
            is_object_name(id@),
    {
        let mut name = String::new();
        let mut n: usize = 0;
        while n < NAME_LENGTH
            invariant
                n <= NAME_LENGTH,
                name@.len() == n,
                forall|i: int| 0 <= i < name@.len() ==> is_alphanumeric(#[trigger] name@[i]),
            decreases NAME_LENGTH - n,
        {
            let c = sample_symbol();
            name.push(c);
            n = n + 1;
        }
        StoredObjectId { name }
    }

    /// Takes a name that came from outside, such as a segment of a
    /// request path, if it has the shape of a name.
    pub fn parse(text: &str) -> (parsed: Option<StoredObjectId>)
        ensures
            parsed is Some <==> is_object_name(text@),
            parsed matches Some(id) ==> id@ == text@,
    {
        if text.unicode_len() != NAME_LENGTH {
            return None;
        }
        let mut n: usize = 0;
        while n < NAME_LENGTH
            invariant
                n <= NAME_LENGTH,
                text@.len() == NAME_LENGTH,
                forall|i: int| 0 <= i < n ==> is_alphanumeric(#[trigger] text@[i]),
            decreases NAME_LENGTH - n,
        {
            if !symbol_allowed(text.get_char(n)) {
                return None;
            }
            n = n + 1;
        }
        Some(StoredObjectId { name: String::from_str(text) })
    }

    /// The name as text.
    pub fn as_str(&self) -> (text: &str)
        ensures
            text@ == self@,
            is_object_name(text@),
    {
        proof {
            use_type_invariant(self);
        }
        self.name.as_str()
    }
}

impl Clone for StoredObjectId {
    fn clone(&self) -> (copy: StoredObjectId)
        ensures
            copy == *self,
    {
        proof {
            use_type_invariant(self);
        }
        StoredObjectId { name: self.name.clone() }
    }
}

} // verus!
