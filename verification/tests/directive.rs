use runit::directive::{
    classify, classify_scored, family_of, reject, reject_scored, scores, suggest, unsupported_of,
    Classification, Family, Rejection, Runtime, Scores, Unsupported,
};

const LOW: u64 = 0x3fe0_0000_0000_0000; // 0.5
const HIGH: u64 = 0x3fee_6666_6666_6666; // 0.95

fn scored(shell: u64, container: u64, python: u64, ruby: u64) -> Scores {
    Scores { shell, container, python, ruby }
}

#[test]
fn canonical_tokens_select_their_families() {
    assert_eq!(family_of("#!shell"), Some(Family::Shell));
    assert_eq!(family_of("#!docker"), Some(Family::Container));
    assert_eq!(family_of("#!python"), Some(Family::Script(Runtime::Python)));
    assert_eq!(family_of("#!ruby"), Some(Family::Script(Runtime::Ruby)));
}

#[test]
fn aliases_select_the_same_families() {
    assert_eq!(family_of("#!sh"), Some(Family::Shell));
    assert_eq!(family_of("#!bash"), Some(Family::Shell));
    assert_eq!(family_of("#!bsh"), Some(Family::Shell));
    assert_eq!(family_of("#!container"), Some(Family::Container));
    assert_eq!(family_of("#!py"), Some(Family::Script(Runtime::Python)));
    assert_eq!(family_of("#!rb"), Some(Family::Script(Runtime::Ruby)));
}

#[test]
fn every_supported_token_is_classified_as_supported() {
    let table = [
        ("#!shell", Family::Shell),
        ("#!sh", Family::Shell),
        ("#!bash", Family::Shell),
        ("#!bsh", Family::Shell),
        ("#!docker", Family::Container),
        ("#!container", Family::Container),
        ("#!python", Family::Script(Runtime::Python)),
        ("#!py", Family::Script(Runtime::Python)),
        ("#!ruby", Family::Script(Runtime::Ruby)),
        ("#!rb", Family::Script(Runtime::Ruby)),
    ];
    for (token, family) in table {
        assert_eq!(classify(token), Classification::Supported(family), "{token}");
    }
}

#[test]
fn tokens_are_case_sensitive_and_exact() {
    assert_eq!(family_of("#!Shell"), None);
    assert_eq!(family_of("#!shell "), None);
    assert_eq!(family_of(" #!shell"), None);
    assert_eq!(family_of("shell"), None);
    assert_eq!(family_of(""), None);
    assert_eq!(family_of("#!PYTHON"), None);
}

#[test]
fn canonical_token_of_each_family() {
    assert_eq!(Family::Shell.token(), "#!shell");
    assert_eq!(Family::Container.token(), "#!docker");
    assert_eq!(Family::Script(Runtime::Python).token(), "#!python");
    assert_eq!(Family::Script(Runtime::Ruby).token(), "#!ruby");
}

#[test]
fn denylist_knows_its_tokens() {
    for token in ["#!node", "#!bun", "#!js", "#!ts", "#!javascript", "#!typescript"] {
        assert_eq!(unsupported_of(token), Some(Unsupported::Javascript), "{token}");
    }
    assert_eq!(unsupported_of("#!lua"), Some(Unsupported::Lua));
    assert_eq!(unsupported_of("#!cmake"), Some(Unsupported::Cmake));
    assert_eq!(unsupported_of("#!shell"), None);
    assert_eq!(unsupported_of("#!Lua"), None);
    assert_eq!(unsupported_of("#!make"), None);
}

#[test]
fn denylisted_tokens_are_known_whatever_they_resemble() {
    for token in ["#!node", "#!bun", "#!js", "#!ts", "#!javascript", "#!typescript"] {
        assert_eq!(
            classify(token),
            Classification::Rejected(Rejection::KnownUnsupported(Unsupported::Javascript))
        );
    }
    assert_eq!(
        classify("#!lua"),
        Classification::Rejected(Rejection::KnownUnsupported(Unsupported::Lua))
    );
    assert_eq!(
        classify("#!cmake"),
        Classification::Rejected(Rejection::KnownUnsupported(Unsupported::Cmake))
    );
    let all_high = scored(HIGH, HIGH, HIGH, HIGH);
    assert_eq!(
        reject_scored("#!lua", &all_high),
        Rejection::KnownUnsupported(Unsupported::Lua)
    );
}

#[test]
fn scores_are_those_of_jaro_winkler() {
    for directive in ["#!shel", "#!pyhton", "hello world", "", "#!", "#!rubyshell", "#!d\u{f6}cker"] {
        let got = scores(directive);
        assert_eq!(got.shell, strsim::jaro_winkler(directive, "#!shell").to_bits());
        assert_eq!(got.container, strsim::jaro_winkler(directive, "#!docker").to_bits());
        assert_eq!(got.python, strsim::jaro_winkler(directive, "#!python").to_bits());
        assert_eq!(got.ruby, strsim::jaro_winkler(directive, "#!ruby").to_bits());
    }
}

#[test]
fn score_of_a_token_against_itself_is_one() {
    assert_eq!(scores("#!shell").shell, 1.0f64.to_bits());
    assert_eq!(scores("#!ruby").ruby, 1.0f64.to_bits());
    assert_eq!(scores("").shell, 0.0f64.to_bits());
}

#[test]
fn near_misses_are_misspelled() {
    assert_eq!(classify("#!shel"), Classification::Rejected(Rejection::Misspelled(Family::Shell)));
    assert_eq!(
        classify("#!dokcer"),
        Classification::Rejected(Rejection::Misspelled(Family::Container))
    );
    assert_eq!(
        classify("#!pyhton"),
        Classification::Rejected(Rejection::Misspelled(Family::Script(Runtime::Python)))
    );
    assert_eq!(
        classify("#!rubi"),
        Classification::Rejected(Rejection::Misspelled(Family::Script(Runtime::Ruby)))
    );
    assert_eq!(classify("#!Shell"), Classification::Rejected(Rejection::Misspelled(Family::Shell)));
}

#[test]
fn first_similar_token_in_table_order_is_suggested() {
    // Closer to "#!ruby" than to "#!shell", and over the threshold for both.
    let shell = strsim::jaro_winkler("#!rubyshell", "#!shell");
    let ruby = strsim::jaro_winkler("#!rubyshell", "#!ruby");
    assert!(shell > 0.8 && ruby > shell);
    assert_eq!(reject("#!rubyshell"), Rejection::Misspelled(Family::Shell));
    assert_eq!(suggest(&scored(LOW, HIGH, LOW, HIGH)), Some(Family::Container));
    assert_eq!(suggest(&scored(LOW, LOW, HIGH, HIGH)), Some(Family::Script(Runtime::Python)));
    assert_eq!(suggest(&scored(LOW, LOW, LOW, HIGH)), Some(Family::Script(Runtime::Ruby)));
    assert_eq!(suggest(&scored(HIGH, HIGH, HIGH, HIGH)), Some(Family::Shell));
}

#[test]
fn a_score_of_exactly_the_threshold_suggests_nothing() {
    let at = 0.8f64.to_bits();
    assert_eq!(suggest(&scored(at, at, at, at)), None);
    assert_eq!(suggest(&scored(at, at + 1, at, at)), Some(Family::Container));
    assert_eq!(suggest(&scored(LOW, LOW, LOW, LOW)), None);
}

#[test]
fn negative_scores_count_by_their_magnitude() {
    let minus = (-0.9f64).to_bits();
    assert_eq!(suggest(&scored(LOW, LOW, minus, LOW)), Some(Family::Script(Runtime::Python)));
}

#[test]
fn unrelated_text_is_unknown() {
    assert_eq!(classify("hello world"), Classification::Rejected(Rejection::Unknown));
    assert_eq!(classify(""), Classification::Rejected(Rejection::Unknown));
    assert_eq!(classify("echo hi"), Classification::Rejected(Rejection::Unknown));
    assert_eq!(classify("#!go"), Classification::Rejected(Rejection::Unknown));
}

#[test]
fn text_close_to_an_alias_only_is_unknown() {
    assert!(strsim::jaro_winkler("#!bashh", "#!bash") > 0.8);
    assert_eq!(classify("#!bashh"), Classification::Rejected(Rejection::Unknown));
}

#[test]
fn classification_with_given_scores() {
    let low = scored(LOW, LOW, LOW, LOW);
    let high = scored(HIGH, HIGH, HIGH, HIGH);
    assert_eq!(classify_scored("#!sh", &low), Classification::Supported(Family::Shell));
    assert_eq!(classify_scored("#!sh", &high), Classification::Supported(Family::Shell));
    assert_eq!(
        classify_scored("#!ts", &high),
        Classification::Rejected(Rejection::KnownUnsupported(Unsupported::Javascript))
    );
    assert_eq!(
        classify_scored("whatever", &high),
        Classification::Rejected(Rejection::Misspelled(Family::Shell))
    );
    assert_eq!(classify_scored("whatever", &low), Classification::Rejected(Rejection::Unknown));
}
