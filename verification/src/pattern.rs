use vstd::prelude::*;

verus! {

/// `regex::Regex` is a compiled regular expression; a value of it is opaque
/// to the verifier and only carried through.
#[verifier::external_type_specification]
#[verifier::external_body]
pub struct ExRegex(regex::Regex);

/// Whether `regex::Regex::new` accepts the pattern: valid syntax within the
/// default size limits, a function of the pattern text alone.
pub uninterp spec fn regex_accepted(pat: Seq<char>) -> bool;

/// Whether the pattern matches somewhere in the document, a function of the
/// pattern and document texts alone.
pub uninterp spec fn regex_matches(pat: Seq<char>, doc: Seq<char>) -> bool;

/// Whether the pattern uses look-around assertions (anchors or word
/// boundaries), a function of the pattern text alone.
pub uninterp spec fn regex_lookaround(pat: Seq<char>) -> bool;

/// Relies on `regex::Regex::new`: it compiles the pattern or rejects it,
/// deterministically in the pattern text. The error is carried as its
/// message.
#[verifier::external_body]
fn regex_compile(text: &str) -> (r: Result<regex::Regex, String>)
    ensures
        (r is Ok) == regex_accepted(text@),
{
    match regex::Regex::new(text) {
        Ok(re) => Ok(re),
        Err(e) => Err(format!("{}", e)),
    }
}

/// Relies on `regex_syntax::parse` and `Properties::look_set`: whether the
/// pattern's intermediate representation uses look-around assertions. The
/// syntax parser accepts every pattern the compiler accepts.
#[verifier::external_body]
fn regex_uses_look(text: &str) -> (r: bool)
    requires
        regex_accepted(text@),
    ensures
        r == regex_lookaround(text@),
{
    match regex_syntax::parse(text) {
        Ok(hir) => !hir.properties().look_set().is_empty(),
        Err(_) => false,
    }
}

/// A compiled regular expression together with its pattern text and whether
/// the pattern uses look-around assertions.
pub struct Pattern {
    re: regex::Regex,
    text: String,
    look: bool,
}

impl Pattern {
    /// The pattern text.
    pub closed spec fn text_view(&self) -> Seq<char> {
        self.text@
    }

    /// Every `Pattern` holds an accepted pattern, and `look` records
    /// whether it uses look-around.
    pub closed spec fn wf(&self) -> bool {
        regex_accepted(self.text@) && self.look == regex_lookaround(self.text@)
    }

    /// Parse and compile a pattern; rejected patterns surface the parser's
    /// message.
    pub fn compile(text: &str) -> (r: Result<Pattern, String>)
        ensures
            (r is Ok) == regex_accepted(text@),
            r is Ok ==> r->Ok_0.wf() && r->Ok_0.text_view() == text@,
    {
        match regex_compile(text) {
            Ok(re) => {
                let look = regex_uses_look(text);
                Ok(Pattern { re, text: text.to_owned(), look })
            },
            Err(e) => Err(e),
        }
    }

    /// Whether the pattern uses look-around assertions.
    pub fn uses_look(&self) -> (r: bool)
        requires
            self.wf(),
        ensures
            r == regex_lookaround(self.text_view()),
    {
        self.look
    }

    /// Relies on `regex::Regex::is_match`; a `Pattern`'s compiled regex is
    /// always the compilation of its text, so the answer is determined by
    /// the pattern and document texts.
    #[verifier::external_body]
    pub(crate) fn matches(&self, doc: &str) -> (r: bool)
        requires
            self.wf(),
        ensures
            r == regex_matches(self.text_view(), doc@),
    {
        self.re.is_match(doc)
    }
}

} // verus!
