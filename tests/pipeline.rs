use mailextract::api::{execute_script, seed_elements};
use mailextract::cache::Cache;
use mailextract::engine::{run_script, Env, Need, Step, REDIRECT_CACHE_SIZE};
use mailextract::shaper::{project_elements, to_rows};
use mailextract::{Action, Element, Email, EmailAttribute, Error, Macro, Script, SerdeElement, Url};

fn email(id: &str, subject: &str, from: &str) -> Email {
    Email {
        id: id.to_string(),
        html: format!("{}.html", id),
        user: "alice".to_string(),
        registered: 1_700_000_000_000,
        from_addr: from.to_string(),
        to_addr: "alice@x.test".to_string(),
        subject: subject.to_string(),
    }
}

fn text(s: &str) -> Element {
    Element::Text(s.to_string())
}

fn html(s: &str) -> Element {
    Element::Html(s.to_string())
}

/// Runs the script over the emails, answering file reads from `files` and
/// every fetch with a failure.
fn drive(actions: Vec<Action>, emails: &[Email], macros: &Vec<Macro>, files: &[(&str, &str)]) -> Step {
    let cache: Cache<REDIRECT_CACHE_SIZE> = Cache::new();
    let mut env = Env::new();
    let script = Script { actions };
    loop {
        match execute_script(&script, emails.to_vec(), macros, &cache, &env) {
            Step::Needs(Need::ReadFile(path)) => {
                let contents = files
                    .iter()
                    .find(|(p, _)| *p == path)
                    .map(|(_, c)| c.to_string())
                    .expect("file requested that the test does not hold");
                env.add_file(path, contents);
            }
            Step::Needs(Need::Fetch(url)) => env.add_redirect(&url, None),
            other => return other,
        }
    }
}

fn run_on(actions: Vec<Action>, elements: Vec<Element>) -> Step {
    let cache: Cache<REDIRECT_CACHE_SIZE> = Cache::new();
    run_script(&actions, elements, &Vec::new(), &cache, &Env::new())
}

fn done(step: Step) -> Vec<Element> {
    match step {
        Step::Done(v) => v,
        other => panic!("expected a finished run, got {:?}", other),
    }
}

#[test]
fn subject_extract() {
    let emails = [email("e1", "Order #4271 confirmed", "shop@x.test")];
    let out = drive(
        vec![
            Action::EmailGetAttr(EmailAttribute::Subject),
            Action::TextMatchRegex("#(\\d+)".to_string(), "$1".to_string()),
        ],
        &emails,
        &Vec::new(),
        &[],
    );
    assert_eq!(done(out), vec![text("4271")]);
}

#[test]
fn css_select_and_attribute() {
    let emails = [email("e1", "links", "a@x.test")];
    let out = drive(
        vec![
            Action::EmailToHtml,
            Action::HtmlSelectCss("a".to_string()),
            Action::HtmlGetAttr("href".to_string()),
        ],
        &emails,
        &Vec::new(),
        &[("e1.html", "<a href=\"https://x.test/a\"><a href=\"https://x.test/b\">")],
    );
    let mut got = done(out);
    got.sort_by_key(|e| format!("{:?}", e));
    assert_eq!(got, vec![text("https://x.test/a"), text("https://x.test/b")]);
}

#[test]
fn filter_then_project() {
    let emails = [email("e1", "promo", "ads@x.test"), email("e2", "invoice", "billing@x.test")];
    let out = drive(
        vec![
            Action::EmailFilterRegex(EmailAttribute::Subject, "^invoice$".to_string()),
            Action::EmailGetAttr(EmailAttribute::FromAddress),
        ],
        &emails,
        &Vec::new(),
        &[],
    );
    assert_eq!(done(out), vec![text("billing@x.test")]);
}

#[test]
fn pair_and_rows() {
    let emails = [email("e1", "hello", "bob@x.test")];
    let out = drive(
        vec![Action::Pair(
            vec![Action::EmailGetAttr(EmailAttribute::Subject)],
            vec![Action::EmailGetAttr(EmailAttribute::FromAddress)],
        )],
        &emails,
        &Vec::new(),
        &[],
    );
    let got = done(out);
    assert_eq!(got, vec![Element::Pair(vec![text("hello")], vec![text("bob@x.test")])]);
    let projected = project_elements(&got);
    assert_eq!(
        projected,
        vec![SerdeElement::Pair(
            vec![SerdeElement::Text("hello".to_string())],
            vec![SerdeElement::Text("bob@x.test".to_string())]
        )]
    );
    let rows = to_rows(projected);
    assert_eq!(
        rows,
        vec![vec![SerdeElement::Text("hello".to_string()), SerdeElement::Text("bob@x.test".to_string())]]
    );
}

#[test]
fn or_fallback() {
    let emails = [email("e1", "hi", "c@x.test")];
    let out = drive(
        vec![
            Action::EmailToHtml,
            Action::Or(vec![Action::HtmlSelectCss("a".to_string())], vec![Action::HtmlInnerText]),
        ],
        &emails,
        &Vec::new(),
        &[("e1.html", "<p>hello</p>")],
    );
    assert_eq!(done(out), vec![text("hello")]);
}

#[test]
fn url_query_first_match() {
    let out = run_on(
        vec![Action::TextToUrl, Action::UrlGetQuery("id".to_string())],
        vec![text("https://x.test/p?id=7&id=9")],
    );
    assert_eq!(done(out), vec![text("7")]);
}

#[test]
fn invalid_regex_is_reported() {
    let out = run_on(vec![Action::TextFilterRegex("(".to_string())], vec![text("anything")]);
    assert_eq!(out, Step::Failed(Error::InvalidInput("(".to_string())));
}

#[test]
fn invalid_selector_is_reported() {
    let out = run_on(vec![Action::HtmlSelectCss("a[".to_string())], vec![html("<a></a>")]);
    assert_eq!(out, Step::Failed(Error::InvalidInput("a[".to_string())));
}

#[test]
fn unknown_macro_fails_before_any_action() {
    let out = run_on(
        vec![Action::TextToUrl, Action::Macro("unknown".to_string())],
        vec![text("not a url")],
    );
    assert_eq!(out, Step::Failed(Error::InvalidInput("unknown".to_string())));
    let empty = run_on(vec![Action::Macro("unknown".to_string())], vec![]);
    assert_eq!(empty, Step::Failed(Error::InvalidInput("unknown".to_string())));
}

#[test]
fn type_mismatch_is_silent() {
    assert_eq!(done(run_on(vec![Action::HtmlOuterHtml], vec![text("t")])), vec![]);
    assert_eq!(done(run_on(vec![Action::TextToUrl], vec![html("<p></p>")])), vec![]);
    assert_eq!(done(run_on(vec![Action::PairGetLeft], vec![text("t")])), vec![]);
    assert_eq!(done(run_on(vec![Action::EmailToHtml], vec![text("t")])), vec![]);
    assert_eq!(done(run_on(vec![Action::TextFilterRegex("(".to_string())], vec![html("h")])), vec![]);
}

#[test]
fn empty_short_circuit() {
    let out = run_on(
        vec![Action::TextFilterRegex("zzz".to_string()), Action::TextToHtml, Action::HtmlSelectCss("a[".to_string())],
        vec![text("abc")],
    );
    assert_eq!(done(out), vec![]);
}

#[test]
fn macro_expands_in_place() {
    let macros = vec![Macro {
        name: "roundtrip".to_string(),
        actions: vec![Action::TextToHtml, Action::HtmlOuterHtml],
    }];
    let cache: Cache<REDIRECT_CACHE_SIZE> = Cache::new();
    let env = Env::new();
    let with_macro = run_script(
        &vec![Action::Macro("roundtrip".to_string()), Action::TextToHtml],
        vec![text("x")],
        &macros,
        &cache,
        &env,
    );
    let inlined = run_script(
        &vec![Action::TextToHtml, Action::HtmlOuterHtml, Action::TextToHtml],
        vec![text("x")],
        &macros,
        &cache,
        &env,
    );
    assert_eq!(with_macro, inlined);
    assert_eq!(done(with_macro), vec![html("x")]);
}

#[test]
fn nested_macro_fails_when_run() {
    let macros = vec![Macro { name: "outer".to_string(), actions: vec![Action::Macro("inner".to_string())] }];
    let cache: Cache<REDIRECT_CACHE_SIZE> = Cache::new();
    let out = run_script(&vec![Action::Macro("outer".to_string())], vec![text("x")], &macros, &cache, &Env::new());
    assert_eq!(out, Step::Failed(Error::InvalidInput("inner".to_string())));
}

#[test]
fn self_reaching_macro_fails() {
    let macros = vec![Macro {
        name: "loop".to_string(),
        actions: vec![Action::Filter(vec![Action::Macro("loop".to_string())])],
    }];
    let cache: Cache<REDIRECT_CACHE_SIZE> = Cache::new();
    let out = run_script(&vec![Action::Macro("loop".to_string())], vec![text("x")], &macros, &cache, &Env::new());
    assert_eq!(out, Step::Failed(Error::InvalidInput("loop".to_string())));
}

#[test]
fn text_html_round_trip() {
    let t = "<b>not parsed</b> & kept";
    assert_eq!(done(run_on(vec![Action::TextToHtml, Action::HtmlOuterHtml], vec![text(t)])), vec![text(t)]);
}

#[test]
fn swap_twice_restores_pair() {
    let p = Element::Pair(vec![text("l1"), text("l2")], vec![html("r")]);
    let q = Element::Pair(vec![text("l1"), text("l2")], vec![html("r")]);
    assert_eq!(done(run_on(vec![Action::PairRightLeft, Action::PairRightLeft], vec![p])), vec![q]);
    let once = run_on(vec![Action::PairRightLeft], vec![Element::Pair(vec![text("a")], vec![text("b")])]);
    assert_eq!(done(once), vec![Element::Pair(vec![text("b")], vec![text("a")])]);
}

#[test]
fn select_nth_partition() {
    let elements = || vec![text("a"), html("b"), Element::Pair(vec![], vec![])];
    assert_eq!(done(run_on(vec![Action::ArraySelectNth(1)], elements())), vec![html("b")]);
    assert_eq!(done(run_on(vec![Action::ArraySelectNth(2)], elements())), vec![Element::Pair(vec![], vec![])]);
    assert_eq!(done(run_on(vec![Action::ArraySelectNth(3)], elements())), vec![]);
}

#[test]
fn pair_actions() {
    let p = || Element::Pair(vec![text("a"), text("b"), text("c")], vec![text("1"), text("2")]);
    assert_eq!(done(run_on(vec![Action::PairGetLeft], vec![p()])), vec![text("a"), text("b"), text("c")]);
    assert_eq!(done(run_on(vec![Action::PairGetRight], vec![p()])), vec![text("1"), text("2")]);
    assert_eq!(
        done(run_on(vec![Action::PairZipTogether], vec![p()])),
        vec![
            Element::Pair(vec![text("a")], vec![text("1")]),
            Element::Pair(vec![text("b")], vec![text("2")])
        ]
    );
    assert_eq!(
        done(run_on(vec![Action::PairDistributeLeft], vec![p()])),
        vec![
            Element::Pair(vec![text("a"), text("b"), text("c")], vec![text("1")]),
            Element::Pair(vec![text("a"), text("b"), text("c")], vec![text("2")])
        ]
    );
}

#[test]
fn filter_combinator() {
    let out = run_on(
        vec![Action::Filter(vec![Action::TextFilterRegex("b".to_string())])],
        vec![text("abc"), text("xyz")],
    );
    assert_eq!(done(out), vec![text("abc")]);
}

#[test]
fn html_root_actions() {
    let frag = "<div class=\"c\">one <span>two</span></div>";
    assert_eq!(done(run_on(vec![Action::HtmlInnerText], vec![html(frag)])), vec![text("one  two")]);
    assert_eq!(
        done(run_on(vec![Action::HtmlInnerHtml], vec![html(frag)])),
        vec![text("one <span>two</span>")]
    );
    assert_eq!(done(run_on(vec![Action::HtmlGetAttr("class".to_string())], vec![html(frag)])), vec![text("c")]);
    assert_eq!(done(run_on(vec![Action::HtmlGetAttr("id".to_string())], vec![html(frag)])), vec![]);
    assert_eq!(done(run_on(vec![Action::HtmlInnerText], vec![html("just text")])), vec![]);
    assert_eq!(
        done(run_on(vec![Action::HtmlFilterCss("span".to_string())], vec![html(frag), html("<p>no</p>")])),
        vec![html(frag)]
    );
}

#[test]
fn url_actions() {
    let u = || vec![text("https://x.test/a/b/c?q=1")];
    assert_eq!(done(run_on(vec![Action::TextToUrl, Action::UrlToText], vec![text("https://x.test")])), vec![text("https://x.test/")]);
    assert_eq!(done(run_on(vec![Action::TextToUrl, Action::UrlGetSegment(0)], u())), vec![text("a")]);
    assert_eq!(done(run_on(vec![Action::TextToUrl, Action::UrlGetSegment(-1)], u())), vec![text("c")]);
    assert_eq!(done(run_on(vec![Action::TextToUrl, Action::UrlGetSegment(-3)], u())), vec![text("a")]);
    assert_eq!(done(run_on(vec![Action::TextToUrl, Action::UrlGetSegment(-4)], u())), vec![]);
    assert_eq!(done(run_on(vec![Action::TextToUrl, Action::UrlGetSegment(3)], u())), vec![]);
    assert_eq!(done(run_on(vec![Action::TextToUrl, Action::UrlGetSegment(0)], vec![text("mailto:a@x.test")])), vec![]);
    assert_eq!(done(run_on(vec![Action::TextToUrl, Action::UrlGetQuery("z".to_string())], u())), vec![]);
    assert_eq!(
        run_on(vec![Action::TextToUrl], vec![text("not a url")]),
        Step::Failed(Error::InvalidInput("not a url".to_string()))
    );
}

#[test]
fn regex_expansion_per_match() {
    let out = run_on(
        vec![Action::TextMatchRegex("(?P<k>\\w)=(\\d)".to_string(), "$k:$2".to_string())],
        vec![text("a=1 b=2")],
    );
    assert_eq!(done(out), vec![text("a:1"), text("b:2")]);
}

#[test]
fn follow_redirect_uses_cache_then_env() {
    let from = Url::parse("https://short.test/x").unwrap();
    let to = Url::parse("https://long.test/target").unwrap();
    let mut cache: Cache<REDIRECT_CACHE_SIZE> = Cache::new();
    let mut env = Env::new();
    let actions = vec![Action::UrlFollowRedirect];
    let first = run_script(&actions, vec![Element::Url(from.clone())], &Vec::new(), &cache, &env);
    assert_eq!(first, Step::Needs(Need::Fetch(from.clone())));
    env.add_redirect(&from, Some(to.clone()));
    let second = run_script(&actions, vec![Element::Url(from.clone())], &Vec::new(), &cache, &env);
    assert_eq!(done(second), vec![Element::Url(to.clone())]);
    cache.insert(from.clone(), to.clone());
    let third = run_script(&actions, vec![Element::Url(from.clone())], &Vec::new(), &cache, &Env::new());
    assert_eq!(done(third), vec![Element::Url(to.clone())]);
    let mut failed = Env::new();
    failed.add_redirect(&from, None);
    let fourth = run_script(&actions, vec![Element::Url(from)], &Vec::new(), &Cache::new(), &failed);
    assert_eq!(done(fourth), vec![]);
}

#[test]
fn cache_stays_bounded() {
    let mut cache: Cache<3> = Cache::new();
    for i in 0..10 {
        let k = Url::parse(&format!("https://x.test/{}", i)).unwrap();
        let v = Url::parse("https://y.test/").unwrap();
        cache.insert(k, v);
        assert!(cache.len() <= 3);
    }
    assert!(cache.get(&Url::parse("https://x.test/9").unwrap()).is_some());
    assert!(cache.get(&Url::parse("https://x.test/0").unwrap()).is_none());
}

#[test]
fn seeds_and_projection() {
    let seeds = seed_elements(vec![email("e1", "s", "f@x.test")]);
    assert_eq!(seeds, vec![Element::Email(email("e1", "s", "f@x.test"))]);
    assert_eq!(project_elements(&seeds), vec![SerdeElement::Email("e1".to_string())]);
}
