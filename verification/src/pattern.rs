use vstd::prelude::*;

verus! {

/// Whether `pat` is valid regular-expression syntax, i.e. whether
/// compiling it as a pattern succeeds. Success depends on the pattern
/// text alone.
pub uninterp spec fn regex_valid(pat: Seq<char>) -> bool;

/// Whether the regular expression written `pat` matches anywhere within
/// `text` (substring semantics: no anchoring beyond what the pattern
/// itself supplies). The outcome depends on the pattern text and the
/// haystack alone.
pub uninterp spec fn re_match(pat: Seq<char>, text: Seq<char>) -> bool;

/// Declares regex::Regex so that a compiled pattern can be held in a
/// field; the value is opaque here.
#[verifier::external_type_specification]
#[verifier::external_body]
pub struct ExRegex(regex::Regex);

/// Relies on regex::Regex::new: compiling succeeds or fails depending
/// on the pattern text alone; a failure carries a descriptive message.
#[verifier::external_body]
fn regex_new(pat: &str) -> (r: Result<regex::Regex, String>)
    ensures
        r is Ok <==> regex_valid(pat@),
{
    regex::Regex::new(pat).map_err(|e| format!("{}", e))
}

/// A compiled match pattern, coupled with the source text it was
/// compiled from. `Pattern::new` is the only constructor, so the two
/// always agree.
pub struct Pattern {
    re: regex::Regex,
    text: Ghost<Seq<char>>,
}

impl View for Pattern {
    type V = Seq<char>;

    /// The source text this pattern was compiled from.
    closed spec fn view(&self) -> Seq<char> {
        self.text@
    }
}

impl Pattern {
    /// Compiles `pat`. Fails exactly when `pat` is not valid pattern
    /// syntax, returning a descriptive message.
    pub fn new(pat: &str) -> (r: Result<Pattern, String>)
        ensures
            r is Ok <==> regex_valid(pat@),
            r matches Ok(p) ==> p@ == pat@,
    {
        match regex_new(pat) {
            Ok(re) => Ok(Pattern { re, text: Ghost(pat@) }),
            Err(m) => Err(m),
        }
    }

    /// Whether this pattern matches anywhere within `text`.
    ///
    /// Relies on regex::Regex::is_match: the outcome is a function of
    /// the pattern's source text and the haystack, and `self.text` is
    /// the source `self.re` was compiled from.
    #[verifier::external_body]
    pub(crate) fn is_match(&self, text: &str) -> (r: bool)
        ensures
            r == re_match(self@, text@),
    {
        self.re.is_match(text)
    }
}

} // verus!
