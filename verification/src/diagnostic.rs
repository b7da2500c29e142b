//! Diagnostics: what is reported when a task script cannot be run as written.
//!
//! A diagnostic names the source, shows the offending text, locates the fault
//! in it by a byte span, and carries a short label and a help text. How it is
//! rendered is the caller's business.

use crate::directive::{
    canonical_token, classification, denied, denotes, family_of, lemma_denylisted_token_is_classified,
    lemma_similar_directive_is_misspelled, lemma_supported_token_is_classified,
    lemma_unrelated_directive_is_unknown, rank, reject, reject_scored, rejection, selects,
    similarity_scores, supported, Classification, Family, Rejection, Runtime, Scores, Unsupported,
};
use crate::similarity::{exceeds_threshold, jaro_winkler_bits};
use vstd::prelude::*;

verus! {

/// The faults that a diagnostic reports.
#[derive(Clone, Copy, Debug, PartialEq, Eq, Structural)]
pub enum Fault {
    /// The task script has no line at all.
    EmptyInput,
    /// The directive is no supported token.
    UnrecognizedDirective(Rejection),
}

/// A stretch of a text, counted in bytes.
#[derive(Clone, Copy, Debug, PartialEq, Eq, Structural)]
pub struct Span {
    /// Where it starts.
    pub offset: usize,
    /// How long it is.
    pub len: usize,
}

/// A diagnostic.
#[derive(Debug, PartialEq, Eq)]
pub struct LanguageError {
    /// The fault reported.
    pub kind: Fault,
    /// The name of the source, as the caller gave it.
    pub name: String,
    /// The offending text.
    pub src: String,
    /// What to do about it.
    pub help: String,
    /// What is wrong, in a few words.
    pub label: String,
    /// Where in `src` the fault lies.
    pub bad_bit: Span,
}

/// A diagnostic as plain values.
pub struct Diagnostic {
    pub kind: Fault,
    pub name: Seq<char>,
    pub src: Seq<char>,
    pub help: Seq<char>,
    pub label: Seq<char>,
    pub bad_bit: Span,
}

impl View for LanguageError {
    type V = Diagnostic;

    open spec fn view(&self) -> Diagnostic {
        Diagnostic {
            kind: self.kind,
            name: self.name@,
            src: self.src@,
            help: self.help@,
            label: self.label@,
            bad_bit: self.bad_bit,
        }
    }
}

/// The length of a text in bytes, in UTF-8.
pub open spec fn byte_len(text: Seq<char>) -> usize {
    vstd::utf8::encode_utf8(text).len() as usize
}

/// A token between double quotes.
pub open spec fn quoted(token: Seq<char>) -> Seq<char> {
    "\""@ + token + "\""@
}

/// The canonical tokens, quoted, in table order, between square brackets.
pub open spec fn supported_listing() -> Seq<char> {
    "["@ + quoted(canonical_token(Family::Shell)) + ", "@ + quoted(
        canonical_token(Family::Container),
    ) + ", "@ + quoted(canonical_token(Family::Script(Runtime::Python))) + ", "@ + quoted(
        canonical_token(Family::Script(Runtime::Ruby)),
    ) + "]"@
}

/// The help text that lists what is supported.
pub open spec fn expected_help() -> Seq<char> {
    "Expected one of the following: "@ + supported_listing()
}

/// The help text that suggests a token.
pub open spec fn suggestion_help(token: Seq<char>) -> Seq<char> {
    "Did you mean `"@ + token + "`?"@
}

/// The label of a denylisted token: what it is that is not supported.
pub open spec fn reason(what: Unsupported) -> Seq<char> {
    match what {
        Unsupported::Javascript => "Javascript is not supported"@,
        Unsupported::Lua => "Lua is not supported"@,
        Unsupported::Cmake => "cmake is not supported"@,
    }
}

/// The label of a rejected directive.
pub open spec fn rejection_label(why: Rejection) -> Seq<char> {
    match why {
        Rejection::KnownUnsupported(what) => reason(what),
        Rejection::Misspelled(_) => "Unexpected identifier"@,
        Rejection::Unknown => "Unexpected identifier"@,
    }
}

/// The help text of a rejected directive.
pub open spec fn rejection_help(why: Rejection) -> Seq<char> {
    match why {
        Rejection::KnownUnsupported(_) => expected_help(),
        Rejection::Misspelled(family) => suggestion_help(canonical_token(family)),
        Rejection::Unknown => expected_help(),
    }
}

/// The diagnostic of a directive `first`, read from the source `name` and
/// turned down for the reason `why`. The span covers the whole directive.
pub open spec fn unrecognized(first: Seq<char>, name: Seq<char>, why: Rejection) -> Diagnostic {
    Diagnostic {
        kind: Fault::UnrecognizedDirective(why),
        name,
        src: first,
        help: rejection_help(why),
        label: rejection_label(why),
        bad_bit: Span { offset: 0, len: byte_len(first) },
    }
}

/// The diagnostic of a task script without lines, read from the source
/// `name`. There is no text to show: a single blank stands for it.
pub open spec fn empty_input(name: Seq<char>) -> Diagnostic {
    Diagnostic {
        kind: Fault::EmptyInput,
        name,
        src: " "@,
        help: "Add an identifier to the first line of the file"@,
        label: "Empty file"@,
        bad_bit: Span { offset: 0, len: 1 },
    }
}

/// What resolving `first`, read from the source `name`, comes to: the family
/// of a supported token, the diagnostic of anything else.
pub open spec fn resolution(first: Seq<char>, name: Seq<char>, scores: Scores) -> Result<
    Family,
    Diagnostic,
> {
    match classification(first, scores) {
        Classification::Supported(family) => Ok(family),
        Classification::Rejected(why) => Err(unrecognized(first, name, why)),
    }
}

/// Whether `got` is the result `expected`, a diagnostic taken by its view.
pub open spec fn resolves_to(
    got: Result<Family, LanguageError>,
    expected: Result<Family, Diagnostic>,
) -> bool {
    match expected {
        Ok(family) => got == Ok::<Family, LanguageError>(family),
        Err(diagnostic) => got is Err && got->Err_0@ == diagnostic,
    }
}

/// Appends `token` between double quotes.
fn append_quoted(text: &mut String, token: &str)
    ensures
        final(text)@ == old(text)@ + quoted(token@),
{
    text.append("\"");
    text.append(token);
    text.append("\"");
}

/// Writes the help text that lists what is supported.
fn write_expected_help() -> (help: String)
    ensures
        help@ == expected_help(),
{
    let mut help = String::from_str("Expected one of the following: ");
    help.append("[");
    append_quoted(&mut help, Family::Shell.token());
    help.append(", ");
    append_quoted(&mut help, Family::Container.token());
    help.append(", ");
    append_quoted(&mut help, Family::Script(Runtime::Python).token());
    help.append(", ");
    append_quoted(&mut help, Family::Script(Runtime::Ruby).token());
    help.append("]");
    help
}

/// Writes the help text that suggests the canonical token of `family`.
fn write_suggestion_help(family: Family) -> (help: String)
    ensures
        help@ == suggestion_help(canonical_token(family)),
{
    let mut help = String::from_str("Did you mean `");
    help.append(family.token());
    help.append("`?");
    help
}

/// Writes the label of a rejected directive.
fn write_rejection_label(why: Rejection) -> (label: String)
    ensures
        label@ == rejection_label(why),
{
    match why {
        Rejection::KnownUnsupported(Unsupported::Javascript) => String::from_str(
            "Javascript is not supported",
        ),
        Rejection::KnownUnsupported(Unsupported::Lua) => String::from_str("Lua is not supported"),
        Rejection::KnownUnsupported(Unsupported::Cmake) => String::from_str(
            "cmake is not supported",
        ),
        Rejection::Misspelled(_) => String::from_str("Unexpected identifier"),
        Rejection::Unknown => String::from_str("Unexpected identifier"),
    }
}

impl LanguageError {
    /// The diagnostic of the directive `first`, read from `name` and turned
    /// down for the reason `why`.
    pub fn unrecognized(first: &str, name: &str, why: Rejection) -> (error: LanguageError)
        ensures
            error@ == unrecognized(first@, name@, why),
    {
        let help = match why {
            Rejection::KnownUnsupported(_) => write_expected_help(),
            Rejection::Misspelled(family) => write_suggestion_help(family),
            Rejection::Unknown => write_expected_help(),
        };
        LanguageError {
            kind: Fault::UnrecognizedDirective(why),
            name: String::from_str(name),
            src: String::from_str(first),
            help,
            label: write_rejection_label(why),
            bad_bit: Span { offset: 0, len: first.len() },
        }
    }

    /// The diagnostic of the directive `first`, read from `name`, where the
    /// caller has found that it is no supported token: the denylist is asked,
    /// then the similarity to the canonical tokens.
    pub fn error(first: &str, name: &str) -> (error: LanguageError)
        ensures
            error@ == unrecognized(first@, name@, rejection(first@, similarity_scores(first@))),
    {
        let why = reject(first);
        LanguageError::unrecognized(first, name, why)
    }

    /// The diagnostic of a task script without lines, read from `name`.
    pub fn empty(name: &str) -> (error: LanguageError)
        ensures
            error@ == empty_input(name@),
    {
        LanguageError {
            kind: Fault::EmptyInput,
            name: String::from_str(name),
            src: String::from_str(" "),
            help: String::from_str("Add an identifier to the first line of the file"),
            label: String::from_str("Empty file"),
            bad_bit: Span { offset: 0, len: 1 },
        }
    }
}

/// Resolves a directive whose scores are already known.
pub fn resolve_scored(first: &str, name: &str, scores: &Scores) -> (family: Result<
    Family,
    LanguageError,
>)
    ensures
        resolves_to(family, resolution(first@, name@, *scores)),
{
    match family_of(first) {
        Some(family) => Ok(family),
        None => Err(LanguageError::unrecognized(first, name, reject_scored(first, scores))),
    }
}

/// Resolves the directive `first`, read from the source `name`, to the family
/// that runs the script, or to the diagnostic that says why none does.
pub fn resolve(first: &str, name: &str) -> (family: Result<Family, LanguageError>)
    ensures
        resolves_to(family, resolution(first@, name@, similarity_scores(first@))),
{
    match family_of(first) {
        Some(family) => Ok(family),
        None => Err(LanguageError::error(first, name)),
    }
}

/// The span of a diagnostic lies within the text that the diagnostic shows:
/// it covers the whole of a rejected directive, and the blank that stands for
/// an empty script.
pub proof fn lemma_span_lies_in_the_text(first: Seq<char>, name: Seq<char>, why: Rejection)
    requires
        vstd::utf8::encode_utf8(first).len() <= usize::MAX,
    ensures
        ({
            let rejected = unrecognized(first, name, why);
            &&& rejected.src == first
            &&& rejected.bad_bit.offset == 0
            &&& rejected.bad_bit.len == vstd::utf8::encode_utf8(rejected.src).len()
        }),
        ({
            let empty = empty_input(name);
            &&& empty.bad_bit.offset == 0
            &&& empty.bad_bit.len == vstd::utf8::encode_utf8(empty.src).len()
        }),
{
    reveal_strlit(" ");
    let blank = " "@;
    assert(blank.drop_first() =~= Seq::<char>::empty());
    assert(vstd::utf8::encode_utf8(blank.drop_first()).len() == 0);
    assert(vstd::utf8::encode_utf8(blank) == vstd::utf8::encode_scalar(blank[0] as u32)
        + vstd::utf8::encode_utf8(blank.drop_first()));
}

/// Whether the text `part` stands somewhere in the text `whole`.
pub open spec fn occurs(part: Seq<char>, whole: Seq<char>) -> bool {
    exists|at: int|
        0 <= at && at + part.len() <= whole.len() && #[trigger] whole.subrange(
            at,
            at + part.len(),
        ) == part
}

/// A text stands in whatever is written around it.
proof fn lemma_occurs_between(before: Seq<char>, part: Seq<char>, after: Seq<char>)
    ensures
        occurs(part, before + part + after),
{
    let whole = before + part + after;
    let at = before.len() as int;
    assert(whole.subrange(at, at + part.len()) =~= part);
}

/// What stands in a text stands in that text with more written behind it.
proof fn lemma_occurs_before(part: Seq<char>, whole: Seq<char>, after: Seq<char>)
    requires
        occurs(part, whole),
    ensures
        occurs(part, whole + after),
{
    let at = choose|at: int|
        0 <= at && at + part.len() <= whole.len() && #[trigger] whole.subrange(
            at,
            at + part.len(),
        ) == part;
    assert((whole + after).subrange(at, at + part.len()) =~= part);
}

/// What stands in a text stands in that text with more written in front of it.
proof fn lemma_occurs_after(part: Seq<char>, before: Seq<char>, whole: Seq<char>)
    requires
        occurs(part, whole),
    ensures
        occurs(part, before + whole),
{
    let at = choose|at: int|
        0 <= at && at + part.len() <= whole.len() && #[trigger] whole.subrange(
            at,
            at + part.len(),
        ) == part;
    let moved = before.len() + at;
    assert((before + whole).subrange(moved, moved + part.len()) =~= part);
}

/// Every supported token, canonical or alias, resolves to its family, and no
/// diagnostic is made, whatever the scores and whatever the source is called.
pub proof fn lemma_supported_token_resolves(
    directive: Seq<char>,
    family: Family,
    name: Seq<char>,
    scores: Scores,
)
    requires
        selects(directive, family),
    ensures
        resolution(directive, name, scores) == Ok::<Family, Diagnostic>(family),
{
    lemma_supported_token_is_classified(directive, family, scores);
}

/// Every token of the denylist is reported as known and unsupported. The
/// label is the reason that belongs to what the token asks for, and never
/// the label of an unknown directive.
pub proof fn lemma_denylisted_token_is_reported(
    directive: Seq<char>,
    what: Unsupported,
    name: Seq<char>,
    scores: Scores,
)
    requires
        denotes(directive, what),
    ensures
        resolution(directive, name, scores) == Err::<Family, Diagnostic>(
            unrecognized(directive, name, Rejection::KnownUnsupported(what)),
        ),
        unrecognized(directive, name, Rejection::KnownUnsupported(what)).label == reason(what),
        reason(what) != rejection_label(Rejection::Unknown),
{
    lemma_denylisted_token_is_classified(directive, what, scores);
    reveal_strlit("Javascript is not supported");
    reveal_strlit("Lua is not supported");
    reveal_strlit("cmake is not supported");
    reveal_strlit("Unexpected identifier");
    assert("Unexpected identifier"@.len() == 21);
    assert("Javascript is not supported"@.len() == 27);
    assert("Lua is not supported"@.len() == 20);
    assert("cmake is not supported"@.len() == 22);
}

/// A directive that neither table lists and that resembles the canonical
/// token of `family` is reported as misspelled, and the help text holds the
/// canonical token of the family suggested. That family is the first in table
/// order that the directive resembles: it is `family` unless the directive
/// resembles the token of an earlier family too.
pub proof fn lemma_similar_directive_is_reported(
    directive: Seq<char>,
    family: Family,
    name: Seq<char>,
)
    requires
        supported(directive) is None,
        denied(directive) is None,
        exceeds_threshold(jaro_winkler_bits(directive, canonical_token(family))),
    ensures
        resolution(directive, name, similarity_scores(directive)) matches Err(diagnostic)
            && diagnostic.kind matches Fault::UnrecognizedDirective(
            Rejection::Misspelled(suggested),
        ) && {
            &&& diagnostic == unrecognized(directive, name, Rejection::Misspelled(suggested))
            &&& diagnostic.help == suggestion_help(canonical_token(suggested))
            &&& occurs(canonical_token(suggested), diagnostic.help)
            &&& rank(suggested) <= rank(family)
            &&& (forall|earlier: Family|
                rank(earlier) < rank(family) ==> !exceeds_threshold(
                    #[trigger] jaro_winkler_bits(directive, canonical_token(earlier)),
                )) ==> suggested == family
        },
{
    lemma_similar_directive_is_misspelled(directive, family);
    let class = classification(directive, similarity_scores(directive));
    let suggested = class->Rejected_0->Misspelled_0;
    lemma_occurs_between("Did you mean `"@, canonical_token(suggested), "`?"@);
}

/// A directive that neither table lists and that resembles no canonical token
/// is reported as unknown, and the help text lists every canonical token.
pub proof fn lemma_unrelated_directive_is_reported(directive: Seq<char>, name: Seq<char>)
    requires
        supported(directive) is None,
        denied(directive) is None,
        forall|family: Family|
            !exceeds_threshold(#[trigger] jaro_winkler_bits(directive, canonical_token(family))),
    ensures
        resolution(directive, name, similarity_scores(directive)) == Err::<Family, Diagnostic>(
            unrecognized(directive, name, Rejection::Unknown),
        ),
        unrecognized(directive, name, Rejection::Unknown).help == expected_help(),
        forall|family: Family| occurs(#[trigger] canonical_token(family), expected_help()),
{
    lemma_unrelated_directive_is_unknown(directive);
    lemma_help_lists_every_token();
}

/// The help text that lists what is supported holds every canonical token.
pub proof fn lemma_help_lists_every_token()
    ensures
        forall|family: Family| occurs(#[trigger] canonical_token(family), expected_help()),
{
    let shell = quoted(canonical_token(Family::Shell));
    let container = quoted(canonical_token(Family::Container));
    let python = quoted(canonical_token(Family::Script(Runtime::Python)));
    let ruby = quoted(canonical_token(Family::Script(Runtime::Ruby)));
    let first = "["@ + shell;
    let second = first + ", "@ + container;
    let third = second + ", "@ + python;
    let fourth = third + ", "@ + ruby;
    assert forall|family: Family| occurs(#[trigger] canonical_token(family), expected_help()) by {
        let token = canonical_token(family);
        lemma_occurs_between("\""@, token, "\""@);
        match family {
            Family::Shell => {
                lemma_occurs_after(token, "["@, shell);
                lemma_occurs_before(token, first, ", "@);
                lemma_occurs_before(token, first + ", "@, container);
            },
            Family::Container => {
                lemma_occurs_after(token, first + ", "@, container);
            },
            Family::Script(Runtime::Python) => {
                lemma_occurs_after(token, second + ", "@, python);
            },
            Family::Script(Runtime::Ruby) => {
                lemma_occurs_after(token, third + ", "@, ruby);
            },
        }
        if rank(family) < 2 {
            lemma_occurs_before(token, second, ", "@);
            lemma_occurs_before(token, second + ", "@, python);
        }
        if rank(family) < 3 {
            lemma_occurs_before(token, third, ", "@);
            lemma_occurs_before(token, third + ", "@, ruby);
        }
        lemma_occurs_before(token, fourth, "]"@);
        lemma_occurs_after(token, "Expected one of the following: "@, fourth + "]"@);
    }
}

} // verus!
