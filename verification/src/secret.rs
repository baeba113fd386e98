//! A string that doesn't print itself.
//!
//! API keys travel inside requests and configurations, which are printed for
//! debugging. Wrapping the key keeps it out of whatever prints them.

use vstd::prelude::*;

verus! {

/// `core::fmt::Formatter`, to which `Debug` and `Display` write.
#[verifier::external_type_specification]
#[verifier::external_body]
pub struct ExFormatter<'a>(core::fmt::Formatter<'a>);

/// `core::fmt::Error`, with which writing to a formatter can fail.
#[verifier::external_type_specification]
#[verifier::external_body]
pub struct ExFormatError(core::fmt::Error);

/// `Formatter::write_str` writes a text to the formatter. Nothing is claimed of
/// what it returns: that is up to what stands behind the formatter.
pub assume_specification<'a>[ core::fmt::Formatter::<'a>::write_str ](
    f: &mut core::fmt::Formatter<'a>,
    data: &str,
) -> core::fmt::Result;

/// `Zeroize::zeroize` for `String` overwrites the buffer and leaves the text
/// empty. The contract speaks of the text alone: what the memory behind it holds
/// is not part of a `String`'s value.
#[verifier::external_body]
fn wipe(s: &mut String)
    ensures
        final(s)@ == Seq::<char>::empty(),
    opens_invariants none
    no_unwind
{
    zeroize::Zeroize::zeroize(s)
}

/// A secret string. `Debug` and `Display` render `[redacted]`; the value comes
/// out only through [`SecretString::expose_secret`], which is deliberately ugly
/// to read and easy to search for.
#[derive(Clone, PartialEq, Eq)]
pub struct SecretString {
    text: String,
}

impl View for SecretString {
    type V = Seq<char>;

    closed spec fn view(&self) -> Seq<char> {
        self.text@
    }
}

/// What `Display` writes in place of a secret.
pub open spec fn redacted() -> Seq<char> {
    "[redacted]"@
}

/// What `Debug` writes in place of a secret.
pub open spec fn redacted_debug() -> Seq<char> {
    "SecretString([redacted])"@
}

impl SecretString {
    /// Wraps a text.
    pub fn new(s: &str) -> (secret: SecretString)
        ensures
            secret@ == s@,
    {
        SecretString { text: s.to_owned() }
    }

    /// The plaintext. Every call site is a place a credential can escape: keep
    /// them few, and never pass the result somewhere that formats it.
    pub fn expose_secret(&self) -> (s: &str)
        ensures
            s@ == self@,
    {
        self.text.as_str()
    }

    /// Whether there is no text.
    pub fn is_empty(&self) -> (b: bool)
        ensures
            b == (self@.len() == 0),
    {
        self.text.as_str().is_empty()
    }

    /// A second copy of the secret.
    pub fn duplicate(&self) -> (secret: SecretString)
        ensures
            secret@ == self@,
    {
        SecretString { text: self.text.clone() }
    }

    /// What stands in for the secret where it is displayed.
    pub fn display_text(&self) -> (s: &'static str)
        ensures
            s@ == redacted(),
    {
        "[redacted]"
    }

    /// What stands in for the secret where it is printed for debugging.
    pub fn debug_text(&self) -> (s: &'static str)
        ensures
            s@ == redacted_debug(),
    {
        "SecretString([redacted])"
    }
}

impl core::fmt::Debug for SecretString {
    /// Hands the formatter one text, the same whatever the secret is and however
    /// long. What the formatter makes of it is up to what stands behind it.
    fn fmt(&self, f: &mut core::fmt::Formatter<'_>) -> (r: core::fmt::Result)
        ensures
            exists|g: &mut core::fmt::Formatter<'_>, s: &str|
                *g == *old(f) && *final(g) == *final(f) && s@ == redacted_debug()
                    && #[trigger] call_ensures(core::fmt::Formatter::write_str, (g, s), r),
    {
        f.write_str(self.debug_text())
    }
}

impl core::fmt::Display for SecretString {
    /// Hands the formatter one text, the same whatever the secret is and however
    /// long. What the formatter makes of it is up to what stands behind it.
    fn fmt(&self, f: &mut core::fmt::Formatter<'_>) -> (r: core::fmt::Result)
        ensures
            exists|g: &mut core::fmt::Formatter<'_>, s: &str|
                *g == *old(f) && *final(g) == *final(f) && s@ == redacted()
                    && #[trigger] call_ensures(core::fmt::Formatter::write_str, (g, s), r),
    {
        f.write_str(self.display_text())
    }
}

impl Drop for SecretString {
    /// Clears the buffer that is still owned. Best effort: a text that was
    /// reallocated may have left copies of earlier contents elsewhere.
    fn drop(&mut self)
        ensures
            final(self)@ == Seq::<char>::empty(),
        opens_invariants none
        no_unwind
    {
        wipe(&mut self.text)
    }
}

impl vstd::std_specs::convert::FromSpecImpl<String> for SecretString {
    open spec fn obeys_from_spec() -> bool {
        true
    }

    closed spec fn from_spec(s: String) -> SecretString {
        SecretString { text: s }
    }
}

impl From<String> for SecretString {
    fn from(s: String) -> (secret: SecretString)
        ensures
            secret@ == s@,
    {
        SecretString { text: s }
    }
}

} // verus!
