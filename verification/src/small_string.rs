//! A string that remembers whether it is short enough to be kept inline.

use vstd::prelude::*;
use vstd::string::StringSliceAdditionalSpecFns;
use vstd::string::StringExecFns;

verus! {

/// The longest text, in bytes, that counts as short.
pub const INLINE_CAP: usize = 22;

/// An identifier-sized string. A text of more than `INLINE_CAP` bytes is
/// marked as living in the heap, a shorter one as inlined; the mark is a
/// function of the text, so two values are equal exactly when their texts
/// are.
#[derive(Debug, PartialEq, Eq, Hash)]
pub struct SmallString {
    text: String,
    in_heap: bool,
}

impl View for SmallString {
    type V = Seq<char>;

    closed spec fn view(&self) -> Seq<char> {
        self.text@
    }
}

/// The number of bytes that `text` takes when encoded as UTF-8.
pub open spec fn byte_len(text: Seq<char>) -> nat {
    vstd::utf8::encode_utf8(text).len()
}

impl SmallString {
    #[verifier::type_invariant]
    closed spec fn wf(&self) -> bool {
        self.in_heap == (byte_len(self.text@) > INLINE_CAP)
    }

    pub closed spec fn spec_is_in_heap(&self) -> bool {
        self.in_heap
    }

    /// Whether the text is too long to be inlined.
    #[verifier::when_used_as_spec(spec_is_in_heap)]
    pub fn is_in_heap(&self) -> (r: bool)
        ensures
            r == self.spec_is_in_heap(),
            r == (byte_len(self@) > INLINE_CAP),
    {
        proof {
            use_type_invariant(self);
        }
        self.in_heap
    }

    /// Stores `input`, marked as inlined when it fits in `INLINE_CAP` bytes.
    pub fn new(input: &str) -> (r: SmallString)
        ensures
            r@ == input@,
            r.is_in_heap() == (byte_len(input@) > INLINE_CAP),
    {
        let bytes = input.as_bytes();
        let n: usize = bytes.len();
        let text = String::from_str(input);
        assert(n == byte_len(text@)) by {
            assert(bytes@ == input.spec_bytes());
            assert(text@ == input@);
        }
        SmallString { text, in_heap: n > INLINE_CAP }
    }

    pub fn as_str(&self) -> (r: &str)
        ensures
            r@ == self@,
    {
        self.text.as_str()
    }

    /// Whether two strings hold the same text.
    pub fn same_text(&self, other: &SmallString) -> (r: bool)
        ensures
            r == (self@ == other@),
    {
        self.text == other.text
    }

    /// Whether this string holds `text`.
    pub fn has_text(&self, text: &str) -> (r: bool)
        ensures
            r == (self@ == text@),
    {
        self.text == String::from_str(text)
    }

    /// A copy with the same text.
    pub fn duplicate(&self) -> (r: SmallString)
        ensures
            r@ == self@,
            r.is_in_heap() == self.is_in_heap(),
    {
        proof {
            use_type_invariant(self);
        }
        SmallString { text: self.text.clone(), in_heap: self.in_heap }
    }
}

impl Clone for SmallString {
    fn clone(&self) -> (r: SmallString)
        ensures
            r@ == self@,
    {
        self.duplicate()
    }
}

} // verus!
