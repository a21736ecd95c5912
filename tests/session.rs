use forne::{
    draw, Card, CardSet, CardType, ContractFault, Driver, DrawError, Error, Forne, MethodScript,
    BundledScripts, Phase, RawMethod, ResponsesConstant, ScriptHost, SlimCard,
};

/// A method whose metadata is "1" (pending) or "0" (learnt).
struct TableScript {
    text: String,
}

impl MethodScript for TableScript {
    fn weight(&self, method_data: &String, difficult: bool) -> Result<u64, String> {
        match method_data.as_str() {
            "1" => Ok(if difficult { 4 } else { 1 }),
            "0" => Ok(0),
            _ => Err("unreadable metadata".to_string()),
        }
    }

    fn adjust(&self, response: &String, method_data: &String, difficult: bool) -> Result<(String, bool), String> {
        let _ = method_data;
        match response.as_str() {
            "good" => Ok(("0".to_string(), difficult)),
            "again" => Ok(("1".to_string(), true)),
            _ => Err("adjustment failed".to_string()),
        }
    }

    fn default_metadata(&self) -> Result<String, String> {
        if self.text.contains("nodefault") {
            Err("no default".to_string())
        } else {
            Ok("1".to_string())
        }
    }
}

struct TableHost;

impl ScriptHost for TableHost {
    type Script = TableScript;

    fn compile(&self, text: &String) -> Result<TableScript, String> {
        if text.contains("syntax error") {
            Err("unexpected token".to_string())
        } else {
            Ok(TableScript { text: text.clone() })
        }
    }

    fn responses(&self, script: &TableScript) -> ResponsesConstant {
        for line in script.text.lines() {
            if let Some(rest) = line.strip_prefix("RESPONSES=") {
                if rest == "42" {
                    return ResponsesConstant::NotStrings;
                }
                if rest.is_empty() {
                    return ResponsesConstant::Strings(Vec::new());
                }
                return ResponsesConstant::Strings(rest.split(',').map(|t| t.to_string()).collect());
            }
        }
        ResponsesConstant::Missing
    }

    fn run_adapter(&self, script: &String, source: String) -> Result<Vec<Option<Vec<String>>>, String> {
        if script == "fail" {
            return Err("adapter failed".to_string());
        }
        if script == "odd" {
            return Ok(vec![None]);
        }
        Ok(source
            .lines()
            .map(|l| Some(l.split('=').map(|p| p.to_string()).collect()))
            .collect())
    }
}

const LEARN_SCRIPT: &str = "RESPONSES=good,again";

fn card(id: u128, question: &str, data: &str) -> Card {
    Card {
        id,
        question: question.to_string(),
        answer: format!("answer to {question}"),
        seen_in_test: false,
        difficult: false,
        starred: false,
        method_data: data.to_string(),
    }
}

fn set_of(method: &str, cards: Vec<Card>) -> CardSet {
    CardSet { method: method.to_string(), cards, run_state: None, test_in_progress: false }
}

fn custom(name: &str, body: &str) -> RawMethod {
    RawMethod::Custom { name: name.to_string(), body: body.to_string() }
}

fn learn_driver(set: CardSet) -> Driver<TableScript> {
    let method = custom("table", LEARN_SCRIPT)
        .into_method(&BundledScripts { entries: Vec::new() }, &TableHost)
        .ok()
        .unwrap();
    Driver::new_learn(set, method).ok().unwrap()
}

fn find<'a>(set: &'a CardSet, question: &str) -> &'a Card {
    set.cards.iter().find(|c| c.question == question).unwrap()
}

#[test]
fn draw_never_picks_a_zero_weight() {
    let weights = vec![0, 0, 5, 0];
    for _ in 0..200 {
        assert_eq!(draw(&weights).unwrap(), Some(2));
    }
}

#[test]
fn draw_picks_only_positive_weights() {
    let weights = vec![3, 0, 1, 0];
    for _ in 0..200 {
        let i = draw(&weights).unwrap().unwrap();
        assert!(i == 0 || i == 2);
    }
}

#[test]
fn draw_reports_exhaustion_on_zero_weights() {
    assert_eq!(draw(&vec![0, 0, 0]).unwrap(), None);
}

#[test]
fn draw_reports_exhaustion_on_no_weights() {
    assert_eq!(draw(&Vec::new()).unwrap(), None);
}

#[test]
fn draw_rejects_weights_that_overflow() {
    assert_eq!(draw(&vec![u64::MAX, 1]), Err(DrawError::TotalTooLarge));
}

#[test]
fn test_scenario_two_cards() {
    let set = set_of("test", vec![card(1, "a", "1"), card(2, "b", "1")]);
    let mut driver: Driver<TableScript> = Driver::new_test(set);
    let first: SlimCard = driver.first().unwrap().unwrap();
    assert!(first.question == "a" || first.question == "b");
    assert!(driver.set().test_in_progress);
    let second = driver.next("y".to_string()).unwrap().unwrap();
    assert_ne!(second.question, first.question);
    let answered = find(driver.set(), &first.question);
    assert!(!answered.starred);
    assert!(answered.seen_in_test);
    let done = driver.next("n".to_string()).unwrap();
    assert!(done.is_none());
    let set = driver.into_set();
    assert!(!find(&set, &first.question).starred);
    assert!(find(&set, &second.question).starred);
    assert!(set.cards.iter().all(|c| !c.seen_in_test));
    assert!(!set.test_in_progress);
}

#[test]
fn next_before_first_is_a_protocol_violation() {
    let set = set_of("test", vec![card(1, "a", "1")]);
    let mut driver: Driver<TableScript> = Driver::new_test(set);
    assert!(matches!(driver.next("y".to_string()), Err(Error::ProtocolViolation)));
    assert_eq!(driver.get_count(), 0);
}

#[test]
fn invalid_response_changes_nothing() {
    let set = set_of("test", vec![card(1, "a", "1"), card(2, "b", "1")]);
    let mut driver: Driver<TableScript> = Driver::new_test(set);
    driver.first().unwrap().unwrap();
    assert!(matches!(driver.next("maybe".to_string()), Err(Error::InvalidResponse)));
    assert!(driver.set().cards.iter().all(|c| !c.seen_in_test && !c.starred));
    assert_eq!(driver.get_count(), 1);
    assert!(driver.next("y".to_string()).unwrap().is_some());
}

#[test]
fn allowed_test_responses_are_y_and_n() {
    let driver: Driver<TableScript> = Driver::new_test(set_of("test", Vec::new()));
    assert_eq!(driver.allowed_responses(), vec!["y".to_string(), "n".to_string()]);
}

#[test]
fn max_count_stops_with_weight_left() {
    let set = set_of("test", vec![card(1, "a", "1"), card(2, "b", "1"), card(3, "c", "1")]);
    let mut driver: Driver<TableScript> = Driver::new_test(set);
    driver.set_max_count(2);
    assert!(driver.first().unwrap().is_some());
    assert!(driver.next("y".to_string()).unwrap().is_some());
    assert!(driver.next("y".to_string()).unwrap().is_none());
    assert_eq!(driver.get_count(), 2);
    let set = driver.into_set();
    assert_eq!(set.cards.iter().filter(|c| c.seen_in_test).count(), 2);
    assert!(set.test_in_progress);
}

#[test]
fn max_count_zero_hands_out_nothing() {
    let set = set_of("test", vec![card(1, "a", "1")]);
    let mut driver: Driver<TableScript> = Driver::new_test(set);
    driver.set_max_count(0);
    assert!(driver.first().unwrap().is_none());
    assert_eq!(driver.get_count(), 0);
}

#[test]
fn test_negative_stars_and_positive_unstars() {
    let mut starred = card(1, "a", "1");
    starred.starred = true;
    let set = set_of("test", vec![starred]);
    let mut driver: Driver<TableScript> = Driver::new_test(set);
    driver.first().unwrap().unwrap();
    assert!(driver.next("y".to_string()).unwrap().is_none());
    assert!(!driver.set().cards[0].starred);

    let mut driver: Driver<TableScript> = Driver::new_test(set_of("test", vec![card(1, "a", "1")]));
    driver.first().unwrap().unwrap();
    driver.set_max_count(1);
    assert!(driver.next("n".to_string()).unwrap().is_none());
    assert!(driver.set().cards[0].starred);
    assert!(driver.set().cards[0].seen_in_test);
}

#[test]
fn static_test_keeps_stars() {
    let mut starred = card(2, "b", "1");
    starred.starred = true;
    let set = set_of("test", vec![card(1, "a", "1"), starred]);
    let mut driver: Driver<TableScript> = Driver::new_test(set);
    driver.no_mark_starred().no_mark_unstarred().set_max_count(2);
    driver.first().unwrap().unwrap();
    let second = driver.next("n".to_string()).unwrap().unwrap();
    assert!(driver.next("y".to_string()).unwrap().is_none());
    let _ = second;
    assert!(!find(driver.set(), "a").starred);
    assert!(find(driver.set(), "b").starred);
}

#[test]
fn test_target_starred_draws_only_starred_cards() {
    let mut starred = card(2, "b", "1");
    starred.starred = true;
    let set = set_of("test", vec![card(1, "a", "1"), starred, card(3, "c", "1")]);
    let mut driver: Driver<TableScript> = Driver::new_test(set);
    driver.set_target(CardType::Starred);
    let c = driver.first().unwrap().unwrap();
    assert_eq!(c.question, "b");
    assert!(c.starred);
    assert!(driver.next("y".to_string()).unwrap().is_none());
}

#[test]
fn seen_cards_are_not_drawn_in_a_test() {
    let mut seen = card(1, "a", "1");
    seen.seen_in_test = true;
    let set = set_of("test", vec![seen, card(2, "b", "1")]);
    let mut driver: Driver<TableScript> = Driver::new_test(set);
    for _ in 0..20 {
        let mut d: Driver<TableScript> = Driver::new_test(driver.into_set());
        assert_eq!(d.first().unwrap().unwrap().question, "b");
        driver = d;
    }
}

#[test]
fn learn_mismatch_fails_before_drawing() {
    let mut set = set_of("other", vec![card(1, "a", "1")]);
    set.run_state = Some("other".to_string());
    let method = custom("table", LEARN_SCRIPT)
        .into_method(&BundledScripts { entries: Vec::new() }, &TableHost)
        .ok()
        .unwrap();
    match Driver::new_learn(set, method) {
        Err((Error::MethodMismatch { recorded, requested }, set)) => {
            assert_eq!(recorded, "other");
            assert_eq!(requested, "table");
            assert_eq!(set.cards.len(), 1);
        },
        _ => panic!("expected a mismatch"),
    }
}

#[test]
fn learn_same_run_state_is_accepted() {
    let mut set = set_of("table", vec![card(1, "a", "1")]);
    set.run_state = Some("table".to_string());
    let driver = learn_driver(set);
    assert_eq!(driver.get_count(), 0);
}

#[test]
fn learn_pass_finishes_and_resets_metadata() {
    let set = set_of("table", vec![card(1, "a", "1"), card(2, "b", "1")]);
    let mut driver = learn_driver(set);
    assert_eq!(driver.allowed_responses(), vec!["good".to_string(), "again".to_string()]);
    assert!(driver.first().unwrap().is_some());
    assert_eq!(driver.set().run_state, Some("table".to_string()));
    assert!(driver.next("good".to_string()).unwrap().is_some());
    assert!(driver.next("good".to_string()).unwrap().is_none());
    assert_eq!(driver.get_count(), 2);
    let set = driver.into_set();
    assert_eq!(set.run_state, None);
    assert!(set.cards.iter().all(|c| c.method_data == "1"));
}

#[test]
fn learn_adjustment_marks_difficulty() {
    let set = set_of("table", vec![card(1, "a", "1")]);
    let mut driver = learn_driver(set);
    driver.set_max_count(1);
    driver.first().unwrap().unwrap();
    assert!(driver.next("again".to_string()).unwrap().is_none());
    assert!(driver.set().cards[0].difficult);
    assert_eq!(driver.set().cards[0].method_data, "1");
}

#[test]
fn learn_without_difficulty_mutation_keeps_flag() {
    let set = set_of("table", vec![card(1, "a", "1")]);
    let mut driver = learn_driver(set);
    driver.no_mutate_difficulty().set_max_count(1);
    driver.first().unwrap().unwrap();
    assert!(driver.next("again".to_string()).unwrap().is_none());
    assert!(!driver.set().cards[0].difficult);
}

#[test]
fn learn_weight_failure_is_reported() {
    let set = set_of("table", vec![card(1, "a", "garbage")]);
    let mut driver = learn_driver(set);
    match driver.first() {
        Err(Error::ScriptRuntime { phase, .. }) => assert_eq!(phase, Phase::Weighting),
        _ => panic!("expected a weighting failure"),
    }
}

#[test]
fn learn_adjust_failure_changes_nothing() {
    let set = set_of("table", vec![card(1, "a", "1")]);
    let method = custom("table", "RESPONSES=good,boom")
        .into_method(&BundledScripts { entries: Vec::new() }, &TableHost)
        .ok()
        .unwrap();
    let mut driver = Driver::new_learn(set, method).ok().unwrap();
    driver.first().unwrap().unwrap();
    match driver.next("boom".to_string()) {
        Err(Error::ScriptRuntime { phase, .. }) => assert_eq!(phase, Phase::Adjustment),
        _ => panic!("expected an adjustment failure"),
    }
    assert_eq!(driver.set().cards[0].method_data, "1");
    assert!(driver.next("good".to_string()).unwrap().is_none());
}

#[test]
fn learn_target_difficult_skips_others() {
    let mut hard = card(2, "b", "1");
    hard.difficult = true;
    let set = set_of("table", vec![card(1, "a", "1"), hard]);
    let mut driver = learn_driver(set);
    driver.set_target(CardType::Difficult);
    assert_eq!(driver.first().unwrap().unwrap().question, "b");
    assert!(driver.next("good".to_string()).unwrap().is_none());
}

#[test]
fn reset_test_changes_only_seen() {
    let mut c = card(1, "a", "x");
    c.seen_in_test = true;
    c.starred = true;
    c.difficult = true;
    let mut set = set_of("m", vec![c]);
    set.reset_test();
    let c = &set.cards[0];
    assert!(!c.seen_in_test && c.starred && c.difficult);
    assert_eq!(c.method_data, "x");
}

#[test]
fn reset_stars_changes_only_starred() {
    let mut c = card(1, "a", "x");
    c.seen_in_test = true;
    c.starred = true;
    c.difficult = true;
    let mut set = set_of("m", vec![c]);
    set.reset_stars();
    let c = &set.cards[0];
    assert!(c.seen_in_test && !c.starred && c.difficult);
    assert_eq!(c.method_data, "x");
}

#[test]
fn reset_learn_sets_default_and_clears_run() {
    let mut c = card(1, "a", "x");
    c.starred = true;
    let mut set = set_of("m", vec![c, card(2, "b", "y")]);
    set.run_state = Some("m".to_string());
    set.reset_learn("d".to_string());
    assert_eq!(set.run_state, None);
    assert!(set.cards.iter().all(|c| c.method_data == "d"));
    assert!(set.cards[0].starred);
}

#[test]
fn list_filters_by_type() {
    let mut s = card(2, "b", "1");
    s.starred = true;
    let mut d = card(3, "c", "1");
    d.difficult = true;
    let set = set_of("m", vec![card(1, "a", "1"), s, d]);
    assert_eq!(set.list(CardType::All).len(), 3);
    let starred = set.list(CardType::Starred);
    assert_eq!(starred.len(), 1);
    assert_eq!(starred[0].question, "b");
    let difficult = set.list(CardType::Difficult);
    assert_eq!(difficult.len(), 1);
    assert_eq!(difficult[0].answer, "answer to c");
}

#[test]
fn missing_responses_is_a_contract_violation() {
    let r = custom("x", "fn get_weight() {}").into_method(&BundledScripts { entries: Vec::new() }, &TableHost);
    assert!(matches!(r, Err(Error::ContractViolation(ContractFault::MissingResponses))));
}

#[test]
fn malformed_responses_are_contract_violations() {
    let none = BundledScripts { entries: Vec::new() };
    assert!(matches!(
        custom("x", "RESPONSES=42").into_method(&none, &TableHost),
        Err(Error::ContractViolation(ContractFault::ResponsesNotStrings))
    ));
    assert!(matches!(
        custom("x", "RESPONSES=").into_method(&none, &TableHost),
        Err(Error::ContractViolation(ContractFault::NoResponses))
    ));
    assert!(matches!(
        custom("x", "RESPONSES=a,b,a").into_method(&none, &TableHost),
        Err(Error::ContractViolation(ContractFault::DuplicateResponse))
    ));
}

#[test]
fn custom_compile_failure_is_reported() {
    let r = custom("x", "syntax error").into_method(&BundledScripts { entries: Vec::new() }, &TableHost);
    assert!(matches!(r, Err(Error::CompileFailed(_))));
}

#[test]
fn bundled_methods_resolve_from_the_table() {
    let bundled = BundledScripts {
        entries: vec![
            ("easy".to_string(), "RESPONSES=y,n".to_string()),
            ("broken".to_string(), "syntax error".to_string()),
        ],
    };
    assert!(RawMethod::is_inbuilt("easy", &bundled));
    assert!(!RawMethod::is_inbuilt("hard", &bundled));
    let m = RawMethod::Inbuilt("easy".to_string()).into_method(&bundled, &TableHost).ok().unwrap();
    assert_eq!(m.name, "easy");
    assert_eq!(m.responses, vec!["y".to_string(), "n".to_string()]);
    assert!(matches!(
        RawMethod::Inbuilt("hard".to_string()).into_method(&bundled, &TableHost),
        Err(Error::UnknownBundledMethod(_))
    ));
    assert!(matches!(
        RawMethod::Inbuilt("broken".to_string()).into_method(&bundled, &TableHost),
        Err(Error::BundledScriptBroken(_))
    ));
}

#[test]
fn new_set_imports_pairs_with_default_metadata() {
    let forne = Forne::new_set(
        "q1=a1\nq2=a2".to_string(),
        &"pairs".to_string(),
        custom("table", LEARN_SCRIPT),
        TableHost,
        BundledScripts { entries: Vec::new() },
    )
    .ok()
    .unwrap();
    let set = &forne.set;
    assert_eq!(set.method, "table");
    assert_eq!(set.cards.len(), 2);
    assert_ne!(set.cards[0].id, set.cards[1].id);
    assert_eq!(find(set, "q2").answer, "a2");
    assert!(set.cards.iter().all(|c| c.method_data == "1" && !c.starred && !c.difficult && !c.seen_in_test));
}

#[test]
fn reimport_replaces_matching_cards_wholesale() {
    let mut old = card(7, "q1", "0");
    old.starred = true;
    let set = set_of("table", vec![old]);
    let mut forne = Forne::from_set(set, TableHost, BundledScripts { entries: Vec::new() });
    forne.update_set("q1=new\nq3=a3".to_string(), &"pairs".to_string(), custom("table", LEARN_SCRIPT)).unwrap();
    assert_eq!(forne.set.cards.len(), 2);
    let replaced = find(&forne.set, "q1");
    assert_eq!(replaced.id, 7);
    assert_eq!(replaced.answer, "new");
    assert!(!replaced.starred);
    assert_eq!(replaced.method_data, "1");
    assert_eq!(find(&forne.set, "q3").answer, "a3");
}

#[test]
fn adapter_failures_leave_the_set_alone() {
    let set = set_of("table", vec![card(1, "a", "0")]);
    let mut forne = Forne::from_set(set, TableHost, BundledScripts { entries: Vec::new() });
    assert!(matches!(
        forne.update_set("x=y".to_string(), &"fail".to_string(), custom("table", LEARN_SCRIPT)),
        Err(Error::AdapterFailed(_))
    ));
    assert!(matches!(
        forne.update_set("x=y".to_string(), &"odd".to_string(), custom("table", LEARN_SCRIPT)),
        Err(Error::MalformedAdapterOutput)
    ));
    assert!(matches!(
        forne.update_set("just a question".to_string(), &"pairs".to_string(), custom("table", LEARN_SCRIPT)),
        Err(Error::MalformedAdapterOutput)
    ));
    assert_eq!(forne.set.cards.len(), 1);
}

#[test]
fn forne_learn_rejects_other_method_with_progress() {
    let mut set = set_of("table", vec![card(1, "a", "1")]);
    set.run_state = Some("someone/else".to_string());
    let forne = Forne::from_set(set, TableHost, BundledScripts { entries: Vec::new() });
    match forne.learn(custom("table", LEARN_SCRIPT)) {
        Err((Error::MethodMismatch { .. }, forne)) => {
            let mut forne = forne;
            forne.reset_learn(custom("table", LEARN_SCRIPT)).unwrap();
            assert_eq!(forne.set.run_state, None);
            assert!(forne.learn(custom("table", LEARN_SCRIPT)).is_ok());
        },
        _ => panic!("expected a mismatch"),
    }
}

#[test]
fn forne_reset_learn_failure_changes_nothing() {
    let set = set_of("table", vec![card(1, "a", "0")]);
    let mut forne = Forne::from_set(set, TableHost, BundledScripts { entries: Vec::new() });
    let r = forne.reset_learn(custom("table", "RESPONSES=good\nnodefault"));
    assert!(matches!(r, Err(Error::ScriptRuntime { phase: Phase::DefaultMetadata, .. })));
    assert_eq!(forne.set.cards[0].method_data, "0");
}

#[test]
fn forne_test_runs_and_reset_test_clears() {
    let set = set_of("table", vec![card(1, "a", "1")]);
    let forne = Forne::from_set(set, TableHost, BundledScripts { entries: Vec::new() });
    let mut driver = forne.test();
    driver.set_max_count(1);
    driver.first().unwrap().unwrap();
    assert!(driver.next("n".to_string()).unwrap().is_none());
    let mut forne = Forne::from_set(driver.into_set(), TableHost, BundledScripts { entries: Vec::new() });
    assert!(forne.set.cards[0].seen_in_test);
    forne.reset_test();
    assert!(!forne.set.cards[0].seen_in_test);
    assert!(forne.set.cards[0].starred);
}

#[test]
fn starred_unseen_cards_weigh_more_in_tests() {
    assert_eq!(forne::TEST_WEIGHT_UNSEEN, 2);
    assert_eq!(forne::TEST_WEIGHT_STARRED, 3);
}

#[test]
fn repeated_question_in_one_import_keeps_the_last_answer() {
    let forne = Forne::new_set(
        "q=first\nq=second".to_string(),
        &"pairs".to_string(),
        custom("table", LEARN_SCRIPT),
        TableHost,
        BundledScripts { entries: Vec::new() },
    )
    .ok()
    .unwrap();
    assert_eq!(forne.set.cards.len(), 1);
    assert_eq!(forne.set.cards[0].answer, "second");
}

#[test]
fn new_set_with_unknown_bundled_method_fails() {
    let r = Forne::new_set(
        "q=a".to_string(),
        &"pairs".to_string(),
        RawMethod::Inbuilt("nowhere".to_string()),
        TableHost,
        BundledScripts { entries: Vec::new() },
    );
    assert!(matches!(r, Err(Error::UnknownBundledMethod(_))));
}

#[test]
fn parse_adapter_finds_bundled_adapters_only() {
    let bundled = BundledScripts { entries: vec![("org".to_string(), "org script".to_string())] };
    assert_eq!(forne::parse_adapter("org", &bundled), Some("org script".to_string()));
    assert_eq!(forne::parse_adapter("./my-adapter.rhai", &bundled), None);
}

#[test]
fn pairs_from_output_takes_first_two_strings() {
    let raw = vec![Some(vec!["q".to_string(), "a".to_string(), "extra".to_string()])];
    let pairs = forne::pairs_from_output(raw).unwrap();
    assert_eq!(pairs, vec![("q".to_string(), "a".to_string())]);
    assert!(matches!(forne::pairs_from_output(vec![Some(vec!["q".to_string()])]), Err(Error::MalformedAdapterOutput)));
}

#[test]
fn merge_pair_appends_new_questions_with_fresh_ids() {
    let mut set = set_of("m", vec![card(5, "a", "0")]);
    set.merge_pair("b".to_string(), "bb".to_string(), &"d".to_string()).unwrap();
    set.merge_pair("c".to_string(), "cc".to_string(), &"d".to_string()).unwrap();
    assert_eq!(set.cards.len(), 3);
    assert_eq!(set.cards[0].question, "a");
    assert_eq!(set.cards[0].method_data, "0");
    assert_ne!(set.cards[1].id, set.cards[2].id);
    assert_eq!(find(&set, "c").method_data, "d");
}

#[test]
fn learn_draws_by_weight_and_sets_run_state() {
    let mut hard = card(2, "b", "1");
    hard.difficult = true;
    let set = set_of("table", vec![card(1, "a", "0"), hard]);
    let mut driver = learn_driver(set);
    for _ in 0..10 {
        let c = driver.first().unwrap().unwrap();
        assert_eq!(c.question, "b");
        assert!(c.difficult);
    }
    assert_eq!(driver.get_count(), 10);
}

#[test]
fn apply_adjustment_writes_back_what_the_method_returned() {
    let mut c = card(1, "a", "old");
    c.starred = true;
    forne::apply_adjustment(&mut c, ("new".to_string(), true), true);
    assert_eq!(c.method_data, "new");
    assert!(c.difficult);
    assert!(c.starred);
    forne::apply_adjustment(&mut c, ("newer".to_string(), false), false);
    assert_eq!(c.method_data, "newer");
    assert!(c.difficult);
}

#[test]
fn import_output_merges_in_order_and_keeps_other_cards() {
    let mut kept = card(1, "kept", "x");
    kept.starred = true;
    let mut replaced = card(2, "q", "x");
    replaced.difficult = true;
    let mut set = set_of("m", vec![kept, replaced]);
    let raw = vec![
        Some(vec!["q".to_string(), "first".to_string()]),
        Some(vec!["new".to_string(), "n".to_string()]),
        Some(vec!["q".to_string(), "second".to_string()]),
    ];
    set.import_output(raw, &"d".to_string()).unwrap();
    assert_eq!(set.cards.len(), 3);
    assert_eq!(set.cards[0].id, 1);
    assert!(set.cards[0].starred);
    assert_eq!(set.cards[0].method_data, "x");
    assert_eq!(set.cards[1].id, 2);
    assert_eq!(set.cards[1].answer, "second");
    assert!(!set.cards[1].difficult);
    assert_eq!(set.cards[1].method_data, "d");
    assert_eq!(set.cards[2].question, "new");
    assert!(set.cards[2].id != 1 && set.cards[2].id != 2);
}

#[test]
fn import_output_rejects_malformed_output_without_change() {
    let mut set = set_of("m", vec![card(1, "a", "x")]);
    let raw = vec![Some(vec!["b".to_string(), "bb".to_string()]), None];
    assert!(matches!(set.import_output(raw, &"d".to_string()), Err(Error::MalformedAdapterOutput)));
    assert_eq!(set.cards.len(), 1);
}

#[test]
fn learn_with_unknown_bundled_method_reports_it() {
    let set = set_of("table", vec![card(1, "a", "1")]);
    let forne = Forne::from_set(set, TableHost, BundledScripts { entries: Vec::new() });
    match forne.learn(RawMethod::Inbuilt("nowhere".to_string())) {
        Err((Error::UnknownBundledMethod(n), _)) => assert_eq!(n, "nowhere"),
        _ => panic!("expected an unknown bundled method"),
    }
}
