//! Directives: the first line of a task script, and what it selects.
//!
//! A directive is classified in three steps. A supported token, canonical or
//! alias, selects its family. A token of the denylist is known and not
//! supported. Anything else is compared with the four canonical tokens: the
//! first one, in table order, that it resembles is suggested; where it
//! resembles none, the directive is unknown.

use crate::similarity::{exceeds_threshold, is_similar, jaro_winkler_bits, similarity_bits};
use crate::text::same_text;
use vstd::prelude::*;

verus! {

/// A scripting runtime that runs a script file handed to it by path.
#[derive(Clone, Copy, Debug, PartialEq, Eq, Structural)]
pub enum Runtime {
    Python,
    Ruby,
}

/// The families of execution environments, in table order: the shell, the
/// containerized build, and the scripting runtimes.
#[derive(Clone, Copy, Debug, PartialEq, Eq, Structural)]
pub enum Family {
    Shell,
    Container,
    Script(Runtime),
}

/// What the denylist knows a directive to ask for.
#[derive(Clone, Copy, Debug, PartialEq, Eq, Structural)]
pub enum Unsupported {
    Javascript,
    Lua,
    Cmake,
}

/// Why a directive that is no supported token is turned down.
#[derive(Clone, Copy, Debug, PartialEq, Eq, Structural)]
pub enum Rejection {
    /// A token of the denylist.
    KnownUnsupported(Unsupported),
    /// No token, but close to the canonical token of this family.
    Misspelled(Family),
    /// Nothing that the engine knows or can guess.
    Unknown,
}

/// What a directive is taken for.
#[derive(Clone, Copy, Debug, PartialEq, Eq, Structural)]
pub enum Classification {
    /// A supported token: the family it selects.
    Supported(Family),
    /// Anything else, with the reason.
    Rejected(Rejection),
}

/// The similarity of one directive to each canonical token, as bit patterns
/// of doubles, in table order.
#[derive(Clone, Copy, Debug, PartialEq, Eq, Structural)]
pub struct Scores {
    pub shell: u64,
    pub container: u64,
    pub python: u64,
    pub ruby: u64,
}

/// The canonical token of a family.
pub open spec fn canonical_token(family: Family) -> Seq<char> {
    match family {
        Family::Shell => "#!shell"@,
        Family::Container => "#!docker"@,
        Family::Script(Runtime::Python) => "#!python"@,
        Family::Script(Runtime::Ruby) => "#!ruby"@,
    }
}

/// Whether `directive` is another spelling that selects `family`.
pub open spec fn is_alias(directive: Seq<char>, family: Family) -> bool {
    match family {
        Family::Shell => directive == "#!sh"@ || directive == "#!bash"@ || directive == "#!bsh"@,
        Family::Container => directive == "#!container"@,
        Family::Script(Runtime::Python) => directive == "#!py"@,
        Family::Script(Runtime::Ruby) => directive == "#!rb"@,
    }
}

/// Whether `directive` is a token of `family`, canonical or alias. The match
/// is exact and case-sensitive.
pub open spec fn selects(directive: Seq<char>, family: Family) -> bool {
    directive == canonical_token(family) || is_alias(directive, family)
}

/// The family that a supported token selects; `None` for any other text.
pub open spec fn supported(directive: Seq<char>) -> Option<Family> {
    if selects(directive, Family::Shell) {
        Some(Family::Shell)
    } else if selects(directive, Family::Container) {
        Some(Family::Container)
    } else if selects(directive, Family::Script(Runtime::Python)) {
        Some(Family::Script(Runtime::Python))
    } else if selects(directive, Family::Script(Runtime::Ruby)) {
        Some(Family::Script(Runtime::Ruby))
    } else {
        None
    }
}

/// Whether `directive` is a token by which the denylist knows `what`.
pub open spec fn denotes(directive: Seq<char>, what: Unsupported) -> bool {
    match what {
        Unsupported::Javascript => {
            ||| directive == "#!node"@
            ||| directive == "#!bun"@
            ||| directive == "#!js"@
            ||| directive == "#!ts"@
            ||| directive == "#!javascript"@
            ||| directive == "#!typescript"@
        },
        Unsupported::Lua => directive == "#!lua"@,
        Unsupported::Cmake => directive == "#!cmake"@,
    }
}

/// What the denylist knows `directive` for; `None` where it is not listed.
pub open spec fn denied(directive: Seq<char>) -> Option<Unsupported> {
    if denotes(directive, Unsupported::Javascript) {
        Some(Unsupported::Javascript)
    } else if denotes(directive, Unsupported::Lua) {
        Some(Unsupported::Lua)
    } else if denotes(directive, Unsupported::Cmake) {
        Some(Unsupported::Cmake)
    } else {
        None
    }
}

/// The score of `scores` that belongs to `family`.
pub open spec fn score_of(scores: Scores, family: Family) -> u64 {
    match family {
        Family::Shell => scores.shell,
        Family::Container => scores.container,
        Family::Script(Runtime::Python) => scores.python,
        Family::Script(Runtime::Ruby) => scores.ruby,
    }
}

/// The scores of `directive`: its Jaro-Winkler similarity to each canonical token.
pub open spec fn similarity_scores(directive: Seq<char>) -> Scores {
    Scores {
        shell: jaro_winkler_bits(directive, canonical_token(Family::Shell)),
        container: jaro_winkler_bits(directive, canonical_token(Family::Container)),
        python: jaro_winkler_bits(directive, canonical_token(Family::Script(Runtime::Python))),
        ruby: jaro_winkler_bits(directive, canonical_token(Family::Script(Runtime::Ruby))),
    }
}

/// The family to suggest: the first, in table order, whose score exceeds the
/// threshold. A later family with a higher score does not displace it.
pub open spec fn suggestion(scores: Scores) -> Option<Family> {
    if exceeds_threshold(scores.shell) {
        Some(Family::Shell)
    } else if exceeds_threshold(scores.container) {
        Some(Family::Container)
    } else if exceeds_threshold(scores.python) {
        Some(Family::Script(Runtime::Python))
    } else if exceeds_threshold(scores.ruby) {
        Some(Family::Script(Runtime::Ruby))
    } else {
        None
    }
}

/// Why `directive` is turned down, given its scores, where it is no supported
/// token. The denylist is asked first; the scores are looked at only where it
/// does not list the directive.
pub open spec fn rejection(directive: Seq<char>, scores: Scores) -> Rejection {
    match denied(directive) {
        Some(what) => Rejection::KnownUnsupported(what),
        None => match suggestion(scores) {
            Some(family) => Rejection::Misspelled(family),
            None => Rejection::Unknown,
        },
    }
}

/// What `directive` is taken for, given its scores: an exact match with a
/// supported token comes before everything else.
pub open spec fn classification(directive: Seq<char>, scores: Scores) -> Classification {
    match supported(directive) {
        Some(family) => Classification::Supported(family),
        None => Classification::Rejected(rejection(directive, scores)),
    }
}

impl Family {
    /// The canonical token of this family.
    pub fn token(&self) -> (token: &'static str)
        ensures
            token@ == canonical_token(*self),
    {
        match self {
            Family::Shell => "#!shell",
            Family::Container => "#!docker",
            Family::Script(Runtime::Python) => "#!python",
            Family::Script(Runtime::Ruby) => "#!ruby",
        }
    }
}

/// Looks `directive` up in the table of supported tokens and their aliases.
pub fn family_of(directive: &str) -> (family: Option<Family>)
    ensures
        family == supported(directive@),
{
    if same_text(directive, "#!shell") || same_text(directive, "#!sh") || same_text(
        directive,
        "#!bash",
    ) || same_text(directive, "#!bsh") {
        Some(Family::Shell)
    } else if same_text(directive, "#!docker") || same_text(directive, "#!container") {
        Some(Family::Container)
    } else if same_text(directive, "#!python") || same_text(directive, "#!py") {
        Some(Family::Script(Runtime::Python))
    } else if same_text(directive, "#!ruby") || same_text(directive, "#!rb") {
        Some(Family::Script(Runtime::Ruby))
    } else {
        None
    }
}

/// Looks `directive` up in the denylist.
pub fn unsupported_of(directive: &str) -> (what: Option<Unsupported>)
    ensures
        what == denied(directive@),
{
    if same_text(directive, "#!node") || same_text(directive, "#!bun") || same_text(
        directive,
        "#!js",
    ) || same_text(directive, "#!ts") || same_text(directive, "#!javascript") || same_text(
        directive,
        "#!typescript",
    ) {
        Some(Unsupported::Javascript)
    } else if same_text(directive, "#!lua") {
        Some(Unsupported::Lua)
    } else if same_text(directive, "#!cmake") {
        Some(Unsupported::Cmake)
    } else {
        None
    }
}

/// Computes the similarity of `directive` to each canonical token.
pub fn scores(directive: &str) -> (scores: Scores)
    ensures
        scores == similarity_scores(directive@),
{
    Scores {
        shell: similarity_bits(directive, Family::Shell.token()),
        container: similarity_bits(directive, Family::Container.token()),
        python: similarity_bits(directive, Family::Script(Runtime::Python).token()),
        ruby: similarity_bits(directive, Family::Script(Runtime::Ruby).token()),
    }
}

/// Picks the family to suggest for a directive with these scores.
pub fn suggest(scores: &Scores) -> (family: Option<Family>)
    ensures
        family == suggestion(*scores),
{
    if is_similar(scores.shell) {
        Some(Family::Shell)
    } else if is_similar(scores.container) {
        Some(Family::Container)
    } else if is_similar(scores.python) {
        Some(Family::Script(Runtime::Python))
    } else if is_similar(scores.ruby) {
        Some(Family::Script(Runtime::Ruby))
    } else {
        None
    }
}

/// Says why a directive is turned down, from scores that are already known.
pub fn reject_scored(directive: &str, scores: &Scores) -> (why: Rejection)
    ensures
        why == rejection(directive@, *scores),
{
    match unsupported_of(directive) {
        Some(what) => Rejection::KnownUnsupported(what),
        None => match suggest(scores) {
            Some(family) => Rejection::Misspelled(family),
            None => Rejection::Unknown,
        },
    }
}

/// Says why a directive is turned down. Its similarity to the canonical
/// tokens is computed only where the denylist does not list it.
pub fn reject(directive: &str) -> (why: Rejection)
    ensures
        why == rejection(directive@, similarity_scores(directive@)),
{
    match unsupported_of(directive) {
        Some(what) => Rejection::KnownUnsupported(what),
        None => {
            let scores = scores(directive);
            reject_scored(directive, &scores)
        },
    }
}

/// Classifies a directive whose scores are already known.
pub fn classify_scored(directive: &str, scores: &Scores) -> (class: Classification)
    ensures
        class == classification(directive@, *scores),
{
    match family_of(directive) {
        Some(family) => Classification::Supported(family),
        None => Classification::Rejected(reject_scored(directive, scores)),
    }
}

/// Classifies a directive.
pub fn classify(directive: &str) -> (class: Classification)
    ensures
        class == classification(directive@, similarity_scores(directive@)),
{
    match family_of(directive) {
        Some(family) => Classification::Supported(family),
        None => Classification::Rejected(reject(directive)),
    }
}

/// The place of a family in the table: the order in which the canonical
/// tokens are listed and compared.
pub open spec fn rank(family: Family) -> nat {
    match family {
        Family::Shell => 0,
        Family::Container => 1,
        Family::Script(Runtime::Python) => 2,
        Family::Script(Runtime::Ruby) => 3,
    }
}

/// Makes the characters of every token of the two tables known.
proof fn lemma_tokens_spelled_out()
    ensures
        "#!shell"@ =~= seq!['#', '!', 's', 'h', 'e', 'l', 'l'],
        "#!sh"@ =~= seq!['#', '!', 's', 'h'],
        "#!bash"@ =~= seq!['#', '!', 'b', 'a', 's', 'h'],
        "#!bsh"@ =~= seq!['#', '!', 'b', 's', 'h'],
        "#!docker"@ =~= seq!['#', '!', 'd', 'o', 'c', 'k', 'e', 'r'],
        "#!container"@ =~= seq!['#', '!', 'c', 'o', 'n', 't', 'a', 'i', 'n', 'e', 'r'],
        "#!python"@ =~= seq!['#', '!', 'p', 'y', 't', 'h', 'o', 'n'],
        "#!py"@ =~= seq!['#', '!', 'p', 'y'],
        "#!ruby"@ =~= seq!['#', '!', 'r', 'u', 'b', 'y'],
        "#!rb"@ =~= seq!['#', '!', 'r', 'b'],
        "#!node"@ =~= seq!['#', '!', 'n', 'o', 'd', 'e'],
        "#!bun"@ =~= seq!['#', '!', 'b', 'u', 'n'],
        "#!js"@ =~= seq!['#', '!', 'j', 's'],
        "#!ts"@ =~= seq!['#', '!', 't', 's'],
        "#!javascript"@ =~= seq!['#', '!', 'j', 'a', 'v', 'a', 's', 'c', 'r', 'i', 'p', 't'],
        "#!typescript"@ =~= seq!['#', '!', 't', 'y', 'p', 'e', 's', 'c', 'r', 'i', 'p', 't'],
        "#!lua"@ =~= seq!['#', '!', 'l', 'u', 'a'],
        "#!cmake"@ =~= seq!['#', '!', 'c', 'm', 'a', 'k', 'e'],
{
    reveal_strlit("#!shell");
    reveal_strlit("#!sh");
    reveal_strlit("#!bash");
    reveal_strlit("#!bsh");
    reveal_strlit("#!docker");
    reveal_strlit("#!container");
    reveal_strlit("#!python");
    reveal_strlit("#!py");
    reveal_strlit("#!ruby");
    reveal_strlit("#!rb");
    reveal_strlit("#!node");
    reveal_strlit("#!bun");
    reveal_strlit("#!js");
    reveal_strlit("#!ts");
    reveal_strlit("#!javascript");
    reveal_strlit("#!typescript");
    reveal_strlit("#!lua");
    reveal_strlit("#!cmake");
}

/// No token belongs to two families.
pub proof fn lemma_token_selects_one_family(directive: Seq<char>, a: Family, b: Family)
    requires
        selects(directive, a),
        selects(directive, b),
    ensures
        a == b,
{
    lemma_tokens_spelled_out();
}

/// No token of the denylist is a supported token.
pub proof fn lemma_denylist_is_unsupported(directive: Seq<char>, what: Unsupported)
    requires
        denotes(directive, what),
    ensures
        supported(directive) is None,
        denied(directive) == Some(what),
{
    lemma_tokens_spelled_out();
}

/// Every token of a family, the canonical one and each alias, is classified
/// as supported and selects that family, whatever its scores.
pub proof fn lemma_supported_token_is_classified(
    directive: Seq<char>,
    family: Family,
    scores: Scores,
)
    requires
        selects(directive, family),
    ensures
        supported(directive) == Some(family),
        classification(directive, scores) == Classification::Supported(family),
{
    if selects(directive, Family::Shell) {
        lemma_token_selects_one_family(directive, family, Family::Shell);
    } else if selects(directive, Family::Container) {
        lemma_token_selects_one_family(directive, family, Family::Container);
    } else if selects(directive, Family::Script(Runtime::Python)) {
        lemma_token_selects_one_family(directive, family, Family::Script(Runtime::Python));
    }
}

/// Every token of the denylist is classified as known and unsupported, with
/// what the denylist knows it for, whatever its scores.
pub proof fn lemma_denylisted_token_is_classified(
    directive: Seq<char>,
    what: Unsupported,
    scores: Scores,
)
    requires
        denotes(directive, what),
    ensures
        classification(directive, scores) == Classification::Rejected(
            Rejection::KnownUnsupported(what),
        ),
{
    lemma_denylist_is_unsupported(directive, what);
}

/// A directive that neither table lists and that resembles the canonical
/// token of `family` is classified as misspelled. The family suggested is the
/// first in table order that the directive resembles: it is `family` unless
/// the directive resembles the token of an earlier family too.
pub proof fn lemma_similar_directive_is_misspelled(directive: Seq<char>, family: Family)
    requires
        supported(directive) is None,
        denied(directive) is None,
        exceeds_threshold(jaro_winkler_bits(directive, canonical_token(family))),
    ensures
        classification(directive, similarity_scores(directive)) matches Classification::Rejected(
            Rejection::Misspelled(suggested),
        ) && {
            &&& rank(suggested) <= rank(family)
            &&& exceeds_threshold(jaro_winkler_bits(directive, canonical_token(suggested)))
            &&& forall|earlier: Family|
                rank(earlier) < rank(suggested) ==> !exceeds_threshold(
                    #[trigger] jaro_winkler_bits(directive, canonical_token(earlier)),
                )
            &&& (forall|earlier: Family|
                rank(earlier) < rank(family) ==> !exceeds_threshold(
                    #[trigger] jaro_winkler_bits(directive, canonical_token(earlier)),
                )) ==> suggested == family
        },
{
    let scores = similarity_scores(directive);
    assert(score_of(scores, family) == jaro_winkler_bits(directive, canonical_token(family)));
    let suggested = suggestion(scores)->0;
    assert(suggestion(scores) is Some);
    assert forall|earlier: Family| rank(earlier) < rank(suggested) implies !exceeds_threshold(
        #[trigger] jaro_winkler_bits(directive, canonical_token(earlier)),
    ) by {
        assert(score_of(scores, earlier) == jaro_winkler_bits(
            directive,
            canonical_token(earlier),
        ));
    }
    if forall|earlier: Family|
        rank(earlier) < rank(family) ==> !exceeds_threshold(
            #[trigger] jaro_winkler_bits(directive, canonical_token(earlier)),
        ) {
        if rank(suggested) < rank(family) {
            assert(exceeds_threshold(jaro_winkler_bits(directive, canonical_token(suggested))));
        }
    }
}

/// A directive that neither table lists and that resembles no canonical token
/// is classified as unknown.
pub proof fn lemma_unrelated_directive_is_unknown(directive: Seq<char>)
    requires
        supported(directive) is None,
        denied(directive) is None,
        forall|family: Family|
            !exceeds_threshold(#[trigger] jaro_winkler_bits(directive, canonical_token(family))),
    ensures
        classification(directive, similarity_scores(directive)) == Classification::Rejected(
            Rejection::Unknown,
        ),
{
    let scores = similarity_scores(directive);
    assert(scores.shell == jaro_winkler_bits(directive, canonical_token(Family::Shell)));
    assert(scores.container == jaro_winkler_bits(directive, canonical_token(Family::Container)));
    assert(scores.python == jaro_winkler_bits(
        directive,
        canonical_token(Family::Script(Runtime::Python)),
    ));
    assert(scores.ruby == jaro_winkler_bits(
        directive,
        canonical_token(Family::Script(Runtime::Ruby)),
    ));
}

} // verus!
