//! The executor of single actions and the driver of whole scripts.
//!
//! Running a script is a pure function of the script, the seed elements, the
//! configured macros, the redirect cache and an [`Env`] of outside results that
//! the caller has gathered. Where a file's contents or a redirect are needed and
//! the environment does not hold them yet, the run stops with [`Step::Needs`]; the
//! caller performs that I/O, records its result in the environment and runs
//! again.
use vstd::prelude::*;
use crate::action::{Action, Macro, action_size, script_size, find_macro, lookup_macro};
use crate::cache::Cache;
use crate::element::{Element, Elem, Email, Url, elem_of, elems_of, attribute_of, duplicate_all,
    lemma_elems_push, lemma_elems_single, lemma_elems_concat, lemma_elems_of_len};
use crate::error::{Error, Fault, invalid_input};
use crate::markup::{Css, selector_valid, css_select, root_text_nodes, root_inner_html, root_attr,
    text_nodes, inner_html, root_attribute};
use crate::patterns::{Pattern, regex_valid, regex_matches, regex_expansions};
use vstd::string::StringExecFns;
use crate::weburl::{url_parse, url_query, url_segments, query_pairs, path_segments};

verus! {

/// The capacity of the redirect cache.
pub const REDIRECT_CACHE_SIZE: usize = 1000;

/// Outside work that a run waits for.
#[derive(Debug, Clone, PartialEq, Eq)]
pub enum Need {
    /// The contents of the file at this path, relative to the file root.
    ReadFile(String),
    /// The final URL after following the redirects of this URL.
    Fetch(Url),
}

/// The mathematical value of a [`Need`].
pub enum Wait {
    ReadFile(Seq<char>),
    Fetch(Seq<char>),
}

impl View for Need {
    type V = Wait;

    open spec fn view(&self) -> Wait {
        match self {
            Need::ReadFile(p) => Wait::ReadFile(p@),
            Need::Fetch(u) => Wait::Fetch(u@),
        }
    }
}

/// How a run ends.
#[derive(Debug, PartialEq, Eq)]
pub enum Step {
    Done(Vec<Element>),
    Failed(Error),
    Needs(Need),
}

/// The mathematical value of a [`Step`].
pub enum Outcome {
    Done(Seq<Elem>),
    Failed(Fault),
    Needs(Wait),
}

impl View for Step {
    type V = Outcome;

    open spec fn view(&self) -> Outcome {
        match self {
            Step::Done(v) => Outcome::Done(elems_of(v@)),
            Step::Failed(e) => Outcome::Failed(e@),
            Step::Needs(n) => Outcome::Needs(n@),
        }
    }
}

/// Outside results gathered for a run: file contents by path, and the final URL
/// of each followed URL (`None` where the fetch failed).
#[derive(Debug)]
pub struct Env {
    files: Vec<(String, String)>,
    redirects: Vec<(String, Option<Url>)>,
}

/// The contents recorded first for the path.
pub open spec fn file_lookup(files: Seq<(String, String)>, path: Seq<char>) -> Option<Seq<char>>
    decreases files.len(),
{
    if files.len() == 0 {
        None
    } else if files[0].0@ == path {
        Some(files[0].1@)
    } else {
        file_lookup(files.drop_first(), path)
    }
}

/// The fetch result recorded first for the URL.
pub open spec fn redirect_lookup(
    redirects: Seq<(String, Option<Url>)>,
    url: Seq<char>,
) -> Option<Option<Seq<char>>>
    decreases redirects.len(),
{
    if redirects.len() == 0 {
        None
    } else if redirects[0].0@ == url {
        Some(
            match redirects[0].1 {
                Some(u) => Some(u@),
                None => None,
            },
        )
    } else {
        redirect_lookup(redirects.drop_first(), url)
    }
}

impl Env {
    pub closed spec fn files(&self) -> Seq<(String, String)> {
        self.files@
    }

    pub closed spec fn redirects(&self) -> Seq<(String, Option<Url>)> {
        self.redirects@
    }

    pub fn new() -> (r: Env)
        ensures
            r.files().len() == 0,
            r.redirects().len() == 0,
    {
        Env { files: Vec::new(), redirects: Vec::new() }
    }

    /// Records the contents of the file at `path`.
    pub fn add_file(&mut self, path: String, contents: String)
        ensures
            final(self).files() == old(self).files().push((path, contents)),
            final(self).redirects() == old(self).redirects(),
    {
        self.files.push((path, contents));
    }

    /// Records the outcome of following `url`: its final URL, or `None` where the
    /// fetch failed.
    pub fn add_redirect(&mut self, url: &Url, target: Option<Url>)
        ensures
            final(self).files() == old(self).files(),
            final(self).redirects().len() == old(self).redirects().len() + 1,
            final(self).redirects().drop_last() == old(self).redirects(),
            final(self).redirects().last().0@ == url@,
            final(self).redirects().last().1 == target,
    {
        self.redirects.push((url.as_str().to_owned(), target));
        assert(self.redirects@.drop_last() =~= old(self).redirects@);
    }

    pub fn file(&self, path: &String) -> (r: Option<&String>)
        ensures
            match r {
                Some(c) => file_lookup(self.files(), path@) == Some(c@),
                None => file_lookup(self.files(), path@) is None,
            },
    {
        let mut i: usize = 0;
        assert(self.files@.subrange(0, self.files@.len() as int) =~= self.files@);
        while i < self.files.len()
            invariant
                i <= self.files@.len(),
                file_lookup(self.files@, path@) == file_lookup(
                    self.files@.subrange(i as int, self.files@.len() as int),
                    path@,
                ),
            decreases self.files.len() - i,
        {
            assert(self.files@.subrange(i as int, self.files@.len() as int).drop_first()
                =~= self.files@.subrange(i + 1, self.files@.len() as int));
            if self.files[i].0 == *path {
                return Some(&self.files[i].1);
            }
            i += 1;
        }
        None
    }

    pub fn redirect(&self, url: &Url) -> (r: Option<Option<Url>>)
        ensures
            match r {
                Some(Some(u)) => redirect_lookup(self.redirects(), url@) == Some(Some(u@)),
                Some(None) => redirect_lookup(self.redirects(), url@) == Some(None::<Seq<char>>),
                None => redirect_lookup(self.redirects(), url@) is None,
            },
    {
        let key = url.as_str().to_owned();
        let mut i: usize = 0;
        assert(self.redirects@.subrange(0, self.redirects@.len() as int) =~= self.redirects@);
        while i < self.redirects.len()
            invariant
                i <= self.redirects@.len(),
                key@ == url@,
                redirect_lookup(self.redirects@, url@) == redirect_lookup(
                    self.redirects@.subrange(i as int, self.redirects@.len() as int),
                    url@,
                ),
            decreases self.redirects.len() - i,
        {
            assert(self.redirects@.subrange(i as int, self.redirects@.len() as int).drop_first()
                =~= self.redirects@.subrange(i + 1, self.redirects@.len() as int));
            if self.redirects[i].0 == key {
                return match &self.redirects[i].1 {
                    Some(u) => Some(Some(u.duplicate())),
                    None => Some(None),
                };
            }
            i += 1;
        }
        None
    }
}

/// Everything besides the script and the elements that a run reads.
pub struct World {
    pub macros: Seq<Macro>,
    pub cached: Map<Seq<char>, (Seq<char>, usize)>,
    pub files: Seq<(String, String)>,
    pub redirects: Seq<(String, Option<Url>)>,
}

pub open spec fn world(macros: Seq<Macro>, cache: Cache<REDIRECT_CACHE_SIZE>, env: Env) -> World {
    World { macros, cached: cache.entries(), files: env.files(), redirects: env.redirects() }
}

/// Each string as a text element.
pub open spec fn texts(s: Seq<Seq<char>>) -> Seq<Elem> {
    s.map_values(|t: Seq<char>| Elem::Text(t))
}

/// Each string as an HTML element.
pub open spec fn htmls(s: Seq<Seq<char>>) -> Seq<Elem> {
    s.map_values(|t: Seq<char>| Elem::Html(t))
}

/// The strings joined by single spaces.
pub open spec fn join_spaced(s: Seq<Seq<char>>) -> Seq<char>
    decreases s.len(),
{
    if s.len() == 0 {
        Seq::empty()
    } else if s.len() == 1 {
        s[0]
    } else {
        join_spaced(s.drop_last()) + seq![' '] + s.last()
    }
}

/// The value of the first pair whose key is `key`.
pub open spec fn first_value(pairs: Seq<(Seq<char>, Seq<char>)>, key: Seq<char>) -> Option<Seq<char>>
    decreases pairs.len(),
{
    if pairs.len() == 0 {
        None
    } else if pairs[0].0 == key {
        Some(pairs[0].1)
    } else {
        first_value(pairs.drop_first(), key)
    }
}

/// The segment at `index`, counted from the end when negative (-1 is the last).
pub open spec fn segment_at(segments: Seq<Seq<char>>, index: i8) -> Option<Seq<char>> {
    let j: int = if index < 0 { segments.len() + index } else { index as int };
    if 0 <= j < segments.len() {
        Some(segments[j])
    } else {
        None
    }
}

/// One pair of singletons per position that both sides have.
pub open spec fn zip_pairs(l: Seq<Elem>, r: Seq<Elem>) -> Seq<Elem> {
    Seq::new(
        if l.len() <= r.len() { l.len() } else { r.len() },
        |i: int| Elem::Pair(seq![l[i]], seq![r[i]]),
    )
}

/// One pair of the whole left side with each right element.
pub open spec fn distribute(l: Seq<Elem>, r: Seq<Elem>) -> Seq<Elem> {
    r.map_values(|x: Elem| Elem::Pair(l, seq![x]))
}

pub open spec fn emit(e: Elem) -> Outcome {
    Outcome::Done(seq![e])
}

pub open spec fn nothing() -> Outcome {
    Outcome::Done(Seq::empty())
}

/// Whether the action reads elements of this variant; on any other it emits
/// nothing.
pub open spec fn accepts(a: Action, e: Elem) -> bool {
    match a {
        Action::EmailToHtml | Action::EmailFilterRegex(_, _) | Action::EmailGetAttr(_) => e is Email,
        Action::HtmlInnerText | Action::HtmlOuterHtml | Action::HtmlInnerHtml | Action::HtmlGetAttr(_)
        | Action::HtmlSelectCss(_) | Action::HtmlFilterCss(_) => e is Html,
        Action::TextMatchRegex(_, _) | Action::TextFilterRegex(_) | Action::TextToHtml
        | Action::TextToUrl => e is Text,
        Action::UrlToText | Action::UrlFollowRedirect | Action::UrlGetQuery(_)
        | Action::UrlGetSegment(_) => e is Url,
        Action::PairGetLeft | Action::PairGetRight | Action::PairZipTogether
        | Action::PairDistributeLeft | Action::PairRightLeft => e is Pair,
        _ => true,
    }
}

/// What an action that runs no sub-script does to one element.
pub open spec fn run_leaf(a: Action, e: Elem, w: World) -> Outcome {
    if !accepts(a, e) {
        nothing()
    } else {
        match (a, e) {
            (Action::EmailToHtml, Elem::Email(m)) => match file_lookup(w.files, m.html@) {
                Some(c) => emit(Elem::Html(c)),
                None => Outcome::Needs(Wait::ReadFile(m.html@)),
            },
            (Action::EmailGetAttr(at), Elem::Email(m)) => emit(Elem::Text(attribute_of(m, at))),
            (Action::EmailFilterRegex(at, re), Elem::Email(m)) => if !regex_valid(re@) {
                Outcome::Failed(Fault::InvalidInput(re@))
            } else if regex_matches(re@, attribute_of(m, at)) {
                emit(e)
            } else {
                nothing()
            },
            (Action::HtmlInnerText, Elem::Html(h)) => match root_text_nodes(h) {
                Some(ts) => emit(Elem::Text(join_spaced(ts))),
                None => nothing(),
            },
            (Action::HtmlOuterHtml, Elem::Html(h)) => emit(Elem::Text(h)),
            (Action::HtmlInnerHtml, Elem::Html(h)) => match root_inner_html(h) {
                Some(t) => emit(Elem::Text(t)),
                None => nothing(),
            },
            (Action::HtmlGetAttr(k), Elem::Html(h)) => match root_attr(h, k@) {
                Some(t) => emit(Elem::Text(t)),
                None => nothing(),
            },
            (Action::HtmlSelectCss(sel), Elem::Html(h)) => if !selector_valid(sel@) {
                Outcome::Failed(Fault::InvalidInput(sel@))
            } else {
                Outcome::Done(htmls(css_select(sel@, h)))
            },
            (Action::HtmlFilterCss(sel), Elem::Html(h)) => if !selector_valid(sel@) {
                Outcome::Failed(Fault::InvalidInput(sel@))
            } else if css_select(sel@, h).len() > 0 {
                emit(e)
            } else {
                nothing()
            },
            (Action::TextMatchRegex(re, tmpl), Elem::Text(t)) => if !regex_valid(re@) {
                Outcome::Failed(Fault::InvalidInput(re@))
            } else {
                Outcome::Done(texts(regex_expansions(re@, t, tmpl@)))
            },
            (Action::TextFilterRegex(re), Elem::Text(t)) => if !regex_valid(re@) {
                Outcome::Failed(Fault::InvalidInput(re@))
            } else if regex_matches(re@, t) {
                emit(e)
            } else {
                nothing()
            },
            (Action::TextToHtml, Elem::Text(t)) => emit(Elem::Html(t)),
            (Action::TextToUrl, Elem::Text(t)) => match url_parse(t) {
                Some(u) => emit(Elem::Url(u)),
                None => Outcome::Failed(Fault::InvalidInput(t)),
            },
            (Action::UrlToText, Elem::Url(u)) => emit(Elem::Text(u)),
            (Action::UrlFollowRedirect, Elem::Url(u)) => if w.cached.contains_key(u) {
                emit(Elem::Url(w.cached[u].0))
            } else {
                match redirect_lookup(w.redirects, u) {
                    Some(Some(v)) => emit(Elem::Url(v)),
                    Some(None) => nothing(),
                    None => Outcome::Needs(Wait::Fetch(u)),
                }
            },
            (Action::UrlGetQuery(k), Elem::Url(u)) => match first_value(url_query(u), k@) {
                Some(v) => emit(Elem::Text(v)),
                None => nothing(),
            },
            (Action::UrlGetSegment(i), Elem::Url(u)) => match url_segments(u) {
                Some(segs) => match segment_at(segs, i) {
                    Some(v) => emit(Elem::Text(v)),
                    None => nothing(),
                },
                None => nothing(),
            },
            (Action::PairGetLeft, Elem::Pair(l, _)) => Outcome::Done(l),
            (Action::PairGetRight, Elem::Pair(_, r)) => Outcome::Done(r),
            (Action::PairZipTogether, Elem::Pair(l, r)) => Outcome::Done(zip_pairs(l, r)),
            (Action::PairDistributeLeft, Elem::Pair(l, r)) => Outcome::Done(distribute(l, r)),
            (Action::PairRightLeft, Elem::Pair(l, r)) => emit(Elem::Pair(r, l)),
            _ => nothing(),
        }
    }
}

/// What an action does to the element at position `index` of its stage.
pub open spec fn run_action(a: Action, index: nat, e: Elem, fuel: nat, w: World) -> Outcome
    decreases fuel, action_size(a), 0nat, 0nat,
{
    match a {
        Action::ArraySelectNth(n) => if n == index {
            emit(e)
        } else {
            nothing()
        },
        Action::Macro(name) => Outcome::Failed(Fault::InvalidInput(name@)),
        Action::Or(x, y) => match run_pipeline(x@, seq![e], fuel, w) {
            Outcome::Done(first) => if first.len() > 0 {
                Outcome::Done(first)
            } else {
                run_pipeline(y@, seq![e], fuel, w)
            },
            other => other,
        },
        Action::Pair(x, y) => match run_pipeline(x@, seq![e], fuel, w) {
            Outcome::Done(left) => match run_pipeline(y@, seq![e], fuel, w) {
                Outcome::Done(right) => emit(Elem::Pair(left, right)),
                other => other,
            },
            other => other,
        },
        Action::Filter(x) => match run_pipeline(x@, seq![e], fuel, w) {
            Outcome::Done(kept) => if kept.len() > 0 {
                emit(e)
            } else {
                nothing()
            },
            other => other,
        },
        _ => run_leaf(a, e, w),
    }
}

/// The action run over the first `k` elements of a stage, outputs concatenated in
/// input order; the first failure or need ends the stage.
pub open spec fn run_stage(a: Action, elems: Seq<Elem>, k: nat, fuel: nat, w: World) -> Outcome
    decreases fuel, action_size(a), 1nat, k,
{
    if k == 0 || k > elems.len() {
        nothing()
    } else {
        match run_stage(a, elems, (k - 1) as nat, fuel, w) {
            Outcome::Done(acc) => match run_action(a, (k - 1) as nat, elems[k - 1], fuel, w) {
                Outcome::Done(out) => Outcome::Done(acc + out),
                other => other,
            },
            other => other,
        }
    }
}

/// The script run stage by stage. A `Macro` action stands for the actions of
/// the macro with its name, which run with one less unit of `fuel` for their
/// sub-scripts; inside a macro's actions (`inlined`) a `Macro` action fails.
/// An empty element vector ends the run.
pub open spec fn run_seq(script: Seq<Action>, elems: Seq<Elem>, fuel: nat, inlined: bool, w: World) -> Outcome
    decreases fuel, script_size(script), 2nat, 0nat,
{
    if script.len() == 0 || elems.len() == 0 {
        Outcome::Done(elems)
    } else {
        let next = match script[0] {
            Action::Macro(name) if !inlined => match find_macro(w.macros, name@) {
                Some(m) if fuel > 0 => run_seq(m.actions@, elems, (fuel - 1) as nat, true, w),
                _ => Outcome::Failed(Fault::InvalidInput(name@)),
            },
            _ => run_stage(script[0], elems, elems.len(), fuel, w),
        };
        match next {
            Outcome::Done(es) => run_seq(script.drop_first(), es, fuel, inlined, w),
            other => other,
        }
    }
}

/// The first `Macro` action of the script whose name no macro has, or that
/// cannot be expanded for want of `fuel`.
pub open spec fn first_bad_macro(script: Seq<Action>, macros: Seq<Macro>, fuel: nat) -> Option<Seq<char>>
    decreases script.len(),
{
    if script.len() == 0 {
        None
    } else {
        match script[0] {
            Action::Macro(name) => if find_macro(macros, name@) is Some && fuel > 0 {
                first_bad_macro(script.drop_first(), macros, fuel)
            } else {
                Some(name@)
            },
            _ => first_bad_macro(script.drop_first(), macros, fuel),
        }
    }
}

/// A script run on elements: the macros are checked before any action runs.
pub open spec fn run_pipeline(script: Seq<Action>, elems: Seq<Elem>, fuel: nat, w: World) -> Outcome
    decreases fuel, script_size(script), 3nat, 0nat,
{
    match first_bad_macro(script, w.macros, fuel) {
        Some(name) => Outcome::Failed(Fault::InvalidInput(name)),
        None => run_seq(script, elems, fuel, false, w),
    }
}

/// A top-level run. Macro expansion nests at most as deep as there are macros:
/// deeper nesting can only come from a macro that reaches itself, and fails.
pub open spec fn run(script: Seq<Action>, elems: Seq<Elem>, w: World) -> Outcome {
    run_pipeline(script, elems, w.macros.len(), w)
}

pub open spec fn views(s: Seq<String>) -> Seq<Seq<char>> {
    s.map_values(|t: String| t@)
}

/// Each string as a text element (`as_text`) or as an HTML element.
fn wrap_strings(strs: Vec<String>, as_text: bool) -> (r: Vec<Element>)
    ensures
        elems_of(r@) == (if as_text { texts(views(strs@)) } else { htmls(views(strs@)) }),
{
    let mut out: Vec<Element> = Vec::new();
    let mut i: usize = 0;
    while i < strs.len()
        invariant
            i <= strs@.len(),
            elems_of(out@) == (if as_text { texts(views(strs@.take(i as int))) } else {
                htmls(views(strs@.take(i as int)))
            }),
        decreases strs.len() - i,
    {
        let s = strs[i].clone();
        let x = if as_text { Element::Text(s) } else { Element::Html(s) };
        proof {
            lemma_elems_push(out@, x);
            assert(views(strs@.take(i + 1)) =~= views(strs@.take(i as int)).push(strs@[i as int]@));
            assert(texts(views(strs@.take(i + 1))) =~= texts(views(strs@.take(i as int))).push(
                Elem::Text(strs@[i as int]@)));
            assert(htmls(views(strs@.take(i + 1))) =~= htmls(views(strs@.take(i as int))).push(
                Elem::Html(strs@[i as int]@)));
        }
        out.push(x);
        i += 1;
    }
    assert(strs@.take(strs@.len() as int) =~= strs@);
    out
}

/// The strings joined by single spaces.
fn join_with_spaces(parts: &Vec<String>) -> (r: String)
    ensures
        r@ == join_spaced(views(parts@)),
{
    let mut out = String::new();
    let mut i: usize = 0;
    proof {
        reveal_strlit(" ");
        assert(views(parts@.take(0)) =~= Seq::<Seq<char>>::empty());
    }
    while i < parts.len()
        invariant
            i <= parts@.len(),
            out@ == join_spaced(views(parts@.take(i as int))),
        decreases parts.len() - i,
    {
        proof {
            reveal_strlit(" ");
            let before = views(parts@.take(i as int));
            let after = views(parts@.take(i + 1));
            assert(after.drop_last() =~= before);
            assert(after.last() == parts@[i as int]@);
            if i == 0 {
                assert(after =~= seq![parts@[0]@]);
            }
        }
        if i > 0 {
            out.append(" ");
        }
        out.append(parts[i].as_str());
        i += 1;
    }
    assert(parts@.take(parts@.len() as int) =~= parts@);
    out
}

/// The value of the first pair whose key is `key`.
fn first_query_value(pairs: &Vec<(String, String)>, key: &String) -> (r: Option<String>)
    ensures
        match r {
            Some(v) => first_value(pairs@.map_values(|p: (String, String)| (p.0@, p.1@)), key@) == Some(v@),
            None => first_value(pairs@.map_values(|p: (String, String)| (p.0@, p.1@)), key@) is None,
        },
{
    let ghost all = pairs@.map_values(|p: (String, String)| (p.0@, p.1@));
    let mut i: usize = 0;
    assert(all.subrange(0, all.len() as int) =~= all);
    while i < pairs.len()
        invariant
            i <= pairs@.len(),
            all == pairs@.map_values(|p: (String, String)| (p.0@, p.1@)),
            first_value(all, key@) == first_value(all.subrange(i as int, all.len() as int), key@),
        decreases pairs.len() - i,
    {
        assert(all.subrange(i as int, all.len() as int).drop_first() =~= all.subrange(i + 1, all.len() as int));
        if pairs[i].0 == *key {
            return Some(pairs[i].1.clone());
        }
        i += 1;
    }
    None
}

/// The segment at `index`, counted from the end when negative.
fn pick_segment(segments: &Vec<String>, index: i8) -> (r: Option<String>)
    ensures
        match r {
            Some(v) => segment_at(views(segments@), index) == Some(v@),
            None => segment_at(views(segments@), index) is None,
        },
{
    let n = segments.len();
    if index < 0 {
        let back: usize = (-(index as i16)) as usize;
        if back <= n {
            Some(segments[n - back].clone())
        } else {
            None
        }
    } else {
        let j: usize = index as usize;
        if j < n {
            Some(segments[j].clone())
        } else {
            None
        }
    }
}

/// One pair of singletons per position that both sides have.
fn zip_elements(l: &Vec<Element>, r: &Vec<Element>) -> (out: Vec<Element>)
    ensures
        elems_of(out@) == zip_pairs(elems_of(l@), elems_of(r@)),
{
    proof {
        lemma_elems_of_len(l@);
        lemma_elems_of_len(r@);
    }
    let n = if l.len() <= r.len() { l.len() } else { r.len() };
    let mut out: Vec<Element> = Vec::new();
    let mut i: usize = 0;
    while i < n
        invariant
            i <= n,
            n <= l@.len(),
            n <= r@.len(),
            n == (if l@.len() <= r@.len() { l@.len() } else { r@.len() }),
            elems_of(l@).len() == l@.len(),
            elems_of(r@).len() == r@.len(),
            forall|j: int| 0 <= j < l@.len() ==> #[trigger] elems_of(l@)[j] == elem_of(l@[j]),
            forall|j: int| 0 <= j < r@.len() ==> #[trigger] elems_of(r@)[j] == elem_of(r@[j]),
            elems_of(out@) == zip_pairs(elems_of(l@), elems_of(r@)).take(i as int),
        decreases n - i,
    {
        let a = vec![l[i].duplicate()];
        let b = vec![r[i].duplicate()];
        proof {
            lemma_elems_single(a@[0]);
            lemma_elems_single(b@[0]);
            assert(a@ =~= seq![a@[0]]);
            assert(b@ =~= seq![b@[0]]);
        }
        let x = Element::Pair(a, b);
        proof {
            lemma_elems_push(out@, x);
            assert(zip_pairs(elems_of(l@), elems_of(r@)).take(i + 1) =~= zip_pairs(
                elems_of(l@),
                elems_of(r@),
            ).take(i as int).push(elem_of(x)));
        }
        out.push(x);
        i += 1;
    }
    assert(zip_pairs(elems_of(l@), elems_of(r@)).take(n as int) =~= zip_pairs(elems_of(l@), elems_of(r@)));
    out
}

/// One pair of the whole left side with each right element.
fn distribute_elements(l: &Vec<Element>, r: &Vec<Element>) -> (out: Vec<Element>)
    ensures
        elems_of(out@) == distribute(elems_of(l@), elems_of(r@)),
{
    proof {
        lemma_elems_of_len(r@);
    }
    let mut out: Vec<Element> = Vec::new();
    let mut i: usize = 0;
    while i < r.len()
        invariant
            i <= r@.len(),
            elems_of(r@).len() == r@.len(),
            forall|j: int| 0 <= j < r@.len() ==> #[trigger] elems_of(r@)[j] == elem_of(r@[j]),
            elems_of(out@) == distribute(elems_of(l@), elems_of(r@)).take(i as int),
        decreases r.len() - i,
    {
        let b = vec![r[i].duplicate()];
        proof {
            lemma_elems_single(b@[0]);
            assert(b@ =~= seq![b@[0]]);
        }
        let x = Element::Pair(duplicate_all(l), b);
        proof {
            lemma_elems_push(out@, x);
            assert(distribute(elems_of(l@), elems_of(r@)).take(i + 1) =~= distribute(
                elems_of(l@),
                elems_of(r@),
            ).take(i as int).push(elem_of(x)));
        }
        out.push(x);
        i += 1;
    }
    assert(distribute(elems_of(l@), elems_of(r@)).take(r@.len() as int) =~= distribute(
        elems_of(l@),
        elems_of(r@),
    ));
    out
}

fn emit_one(x: Element) -> (r: Step)
    ensures
        r@ == emit(x@),
{
    let v = vec![x];
    proof {
        lemma_elems_single(v@[0]);
        assert(v@ =~= seq![v@[0]]);
    }
    Step::Done(v)
}

fn emit_none() -> (r: Step)
    ensures
        r@ == nothing(),
{
    let v: Vec<Element> = Vec::new();
    assert(elems_of(v@) =~= Seq::<Elem>::empty());
    Step::Done(v)
}

/// Runs an action that holds no sub-script on one element.
fn exec_leaf(
    action: &Action,
    element: &Element,
    macros: &Vec<Macro>,
    cache: &Cache<REDIRECT_CACHE_SIZE>,
    env: &Env,
) -> (r: Step)
    ensures
        r@ == run_leaf(*action, element@, world(macros@, *cache, *env)),
{
    let ghost w = world(macros@, *cache, *env);
    match (action, element) {
        (Action::EmailToHtml, Element::Email(email)) => match env.file(&email.html) {
            Some(contents) => emit_one(Element::Html(contents.clone())),
            None => Step::Needs(Need::ReadFile(email.html.clone())),
        },
        (Action::EmailGetAttr(attr), Element::Email(email)) => {
            emit_one(Element::Text(email.get_attribute(*attr).to_owned()))
        },
        (Action::EmailFilterRegex(attr, re), Element::Email(email)) => match Pattern::compile(re) {
            Some(pattern) => if pattern.is_match(email.get_attribute(*attr)) {
                emit_one(Element::Email(email.duplicate()))
            } else {
                emit_none()
            },
            None => Step::Failed(invalid_input(re.as_str())),
        },
        (Action::HtmlInnerText, Element::Html(html)) => match text_nodes(html.as_str()) {
            Some(nodes) => emit_one(Element::Text(join_with_spaces(&nodes))),
            None => emit_none(),
        },
        (Action::HtmlOuterHtml, Element::Html(html)) => emit_one(Element::Text(html.clone())),
        (Action::HtmlInnerHtml, Element::Html(html)) => match inner_html(html.as_str()) {
            Some(inner) => emit_one(Element::Text(inner)),
            None => emit_none(),
        },
        (Action::HtmlGetAttr(name), Element::Html(html)) => match root_attribute(
            html.as_str(),
            name.as_str(),
        ) {
            Some(value) => emit_one(Element::Text(value)),
            None => emit_none(),
        },
        (Action::HtmlSelectCss(sel), Element::Html(html)) => match Css::parse(sel) {
            Some(css) => Step::Done(wrap_strings(css.select_outer(html.as_str()), false)),
            None => Step::Failed(invalid_input(sel.as_str())),
        },
        (Action::HtmlFilterCss(sel), Element::Html(html)) => match Css::parse(sel) {
            Some(css) => {
                let found = css.select_outer(html.as_str());
                if found.len() > 0 {
                    emit_one(Element::Html(html.clone()))
                } else {
                    emit_none()
                }
            },
            None => Step::Failed(invalid_input(sel.as_str())),
        },
        (Action::TextMatchRegex(re, template), Element::Text(text)) => match Pattern::compile(re) {
            Some(pattern) => Step::Done(
                wrap_strings(pattern.expand_all(text.as_str(), template.as_str()), true),
            ),
            None => Step::Failed(invalid_input(re.as_str())),
        },
        (Action::TextFilterRegex(re), Element::Text(text)) => match Pattern::compile(re) {
            Some(pattern) => if pattern.is_match(text.as_str()) {
                emit_one(Element::Text(text.clone()))
            } else {
                emit_none()
            },
            None => Step::Failed(invalid_input(re.as_str())),
        },
        (Action::TextToHtml, Element::Text(text)) => emit_one(Element::Html(text.clone())),
        (Action::TextToUrl, Element::Text(text)) => match Url::parse(text.as_str()) {
            Some(url) => emit_one(Element::Url(url)),
            None => Step::Failed(invalid_input(text.as_str())),
        },
        (Action::UrlToText, Element::Url(url)) => emit_one(Element::Text(url.as_str().to_owned())),
        (Action::UrlFollowRedirect, Element::Url(url)) => match cache.get(url) {
            Some(target) => emit_one(Element::Url(target)),
            None => match env.redirect(url) {
                Some(Some(target)) => emit_one(Element::Url(target)),
                Some(None) => emit_none(),
                None => Step::Needs(Need::Fetch(url.duplicate())),
            },
        },
        (Action::UrlGetQuery(key), Element::Url(url)) => {
            let pairs = query_pairs(url.as_str());
            match first_query_value(&pairs, key) {
                Some(value) => emit_one(Element::Text(value)),
                None => emit_none(),
            }
        },
        (Action::UrlGetSegment(index), Element::Url(url)) => match path_segments(url.as_str()) {
            Some(segments) => match pick_segment(&segments, *index) {
                Some(value) => emit_one(Element::Text(value)),
                None => emit_none(),
            },
            None => emit_none(),
        },
        (Action::PairGetLeft, Element::Pair(left, _)) => Step::Done(duplicate_all(left)),
        (Action::PairGetRight, Element::Pair(_, right)) => Step::Done(duplicate_all(right)),
        (Action::PairZipTogether, Element::Pair(left, right)) => Step::Done(zip_elements(left, right)),
        (Action::PairDistributeLeft, Element::Pair(left, right)) => {
            Step::Done(distribute_elements(left, right))
        },
        (Action::PairRightLeft, Element::Pair(left, right)) => {
            emit_one(Element::Pair(duplicate_all(right), duplicate_all(left)))
        },
        _ => emit_none(),
    }
}

proof fn lemma_member_size(s: Seq<Action>, i: int)
    requires
        0 <= i < s.len(),
    ensures
        action_size(s[i]) <= script_size(s),
    decreases s.len(),
{
    if i > 0 {
        lemma_member_size(s.drop_first(), i - 1);
    }
}

proof fn lemma_stage_stops(a: Action, elems: Seq<Elem>, i: nat, k: nat, fuel: nat, w: World)
    requires
        1 <= i <= k <= elems.len(),
        !(run_stage(a, elems, i, fuel, w) is Done),
    ensures
        run_stage(a, elems, k, fuel, w) == run_stage(a, elems, i, fuel, w),
    decreases k - i,
{
    if k > i {
        lemma_stage_stops(a, elems, i, (k - 1) as nat, fuel, w);
    }
}

/// Runs one action on the element at position `index` of its stage.
fn exec_action(
    action: &Action,
    index: usize,
    element: &Element,
    fuel: usize,
    macros: &Vec<Macro>,
    cache: &Cache<REDIRECT_CACHE_SIZE>,
    env: &Env,
) -> (r: Step)
    ensures
        r@ == run_action(*action, index as nat, element@, fuel as nat, world(macros@, *cache, *env)),
    decreases fuel, action_size(*action), 0nat, 0nat,
{
    let ghost w = world(macros@, *cache, *env);
    match action {
        Action::ArraySelectNth(n) => if *n == index {
            emit_one(element.duplicate())
        } else {
            emit_none()
        },
        Action::Macro(name) => Step::Failed(invalid_input(name.as_str())),
        Action::Or(first, second) => {
            let seed = vec![element.duplicate()];
            proof {
                lemma_elems_single(seed@[0]);
                assert(seed@ =~= seq![seed@[0]]);
            }
            match exec_pipeline(first, seed, fuel, macros, cache, env) {
                Step::Done(found) => if found.len() > 0 {
                    Step::Done(found)
                } else {
                    proof {
                        lemma_elems_of_len(found@);
                    }
                    let seed2 = vec![element.duplicate()];
                    proof {
                        lemma_elems_single(seed2@[0]);
                        assert(seed2@ =~= seq![seed2@[0]]);
                    }
                    exec_pipeline(second, seed2, fuel, macros, cache, env)
                },
                other => other,
            }
        },
        Action::Pair(first, second) => {
            let seed = vec![element.duplicate()];
            proof {
                lemma_elems_single(seed@[0]);
                assert(seed@ =~= seq![seed@[0]]);
            }
            match exec_pipeline(first, seed, fuel, macros, cache, env) {
                Step::Done(left) => {
                    let seed2 = vec![element.duplicate()];
                    proof {
                        lemma_elems_single(seed2@[0]);
                        assert(seed2@ =~= seq![seed2@[0]]);
                    }
                    match exec_pipeline(second, seed2, fuel, macros, cache, env) {
                        Step::Done(right) => emit_one(Element::Pair(left, right)),
                        other => other,
                    }
                },
                other => other,
            }
        },
        Action::Filter(inner) => {
            let seed = vec![element.duplicate()];
            proof {
                lemma_elems_single(seed@[0]);
                assert(seed@ =~= seq![seed@[0]]);
            }
            match exec_pipeline(inner, seed, fuel, macros, cache, env) {
                Step::Done(kept) => {
                    proof {
                        lemma_elems_of_len(kept@);
                    }
                    if kept.len() > 0 {
                        emit_one(element.duplicate())
                    } else {
                        emit_none()
                    }
                },
                other => other,
            }
        },
        _ => exec_leaf(action, element, macros, cache, env),
    }
}

/// Runs one action over every element of a stage, outputs in input order.
fn exec_stage(
    action: &Action,
    elements: &Vec<Element>,
    fuel: usize,
    macros: &Vec<Macro>,
    cache: &Cache<REDIRECT_CACHE_SIZE>,
    env: &Env,
) -> (r: Step)
    ensures
        r@ == run_stage(*action, elems_of(elements@), elements@.len(), fuel as nat, world(macros@, *cache, *env)),
    decreases fuel, action_size(*action), 1nat, elements@.len(),
{
    let ghost w = world(macros@, *cache, *env);
    let ghost all = elems_of(elements@);
    proof {
        lemma_elems_of_len(elements@);
        assert(elems_of(Seq::<Element>::empty()) =~= Seq::<Elem>::empty());
    }
    let mut out: Vec<Element> = Vec::new();
    let mut i: usize = 0;
    while i < elements.len()
        invariant
            i <= elements@.len(),
            all == elems_of(elements@),
            all.len() == elements@.len(),
            forall|j: int| 0 <= j < elements@.len() ==> #[trigger] all[j] == elem_of(elements@[j]),
            w == world(macros@, *cache, *env),
            run_stage(*action, all, i as nat, fuel as nat, w) == Outcome::Done(elems_of(out@)),
        decreases elements.len() - i,
    {
        match exec_action(action, i, &elements[i], fuel, macros, cache, env) {
            Step::Done(mut produced) => {
                proof {
                    lemma_elems_concat(out@, produced@);
                }
                out.append(&mut produced);
            },
            other => {
                proof {
                    lemma_stage_stops(*action, all, (i + 1) as nat, all.len(), fuel as nat, w);
                }
                return other;
            },
        }
        i += 1;
    }
    Step::Done(out)
}

/// Runs the script's actions in order from the stage input `elements`.
fn exec_seq(
    actions: &Vec<Action>,
    elements: Vec<Element>,
    fuel: usize,
    inlined: bool,
    macros: &Vec<Macro>,
    cache: &Cache<REDIRECT_CACHE_SIZE>,
    env: &Env,
) -> (r: Step)
    ensures
        r@ == run_seq(actions@, elems_of(elements@), fuel as nat, inlined, world(macros@, *cache, *env)),
    decreases fuel, script_size(actions@), 2nat, 0nat,
{
    let ghost w = world(macros@, *cache, *env);
    let ghost start = elems_of(elements@);
    let mut current = elements;
    let mut i: usize = 0;
    assert(actions@.subrange(0, actions@.len() as int) =~= actions@);
    while i < actions.len()
        invariant
            i <= actions@.len(),
            w == world(macros@, *cache, *env),
            start == elems_of(elements@),
            run_seq(actions@, start, fuel as nat, inlined, w) == run_seq(
                actions@.subrange(i as int, actions@.len() as int),
                elems_of(current@),
                fuel as nat,
                inlined,
                w,
            ),
        decreases actions.len() - i,
    {
        let ghost rest = actions@.subrange(i as int, actions@.len() as int);
        proof {
            lemma_elems_of_len(current@);
            assert(rest.drop_first() =~= actions@.subrange(i + 1, actions@.len() as int));
            assert(rest[0] == actions@[i as int]);
            lemma_member_size(actions@, i as int);
        }
        if current.len() == 0 {
            return Step::Done(current);
        }
        let next = match &actions[i] {
            Action::Macro(name) if !inlined => match lookup_macro(macros, name) {
                Some(mac) => if fuel > 0 {
                    exec_seq(&mac.actions, current, fuel - 1, true, macros, cache, env)
                } else {
                    Step::Failed(invalid_input(name.as_str()))
                },
                None => Step::Failed(invalid_input(name.as_str())),
            },
            action => exec_stage(action, &current, fuel, macros, cache, env),
        };
        match next {
            Step::Done(produced) => {
                current = produced;
            },
            other => {
                return other;
            },
        }
        i += 1;
    }
    proof {
        assert(actions@.subrange(i as int, actions@.len() as int) =~= Seq::<Action>::empty());
    }
    Step::Done(current)
}

/// The first `Macro` action that names no macro or cannot be expanded.
fn find_bad_macro<'a>(actions: &'a Vec<Action>, macros: &Vec<Macro>, fuel: usize) -> (r: Option<&'a String>)
    ensures
        match r {
            Some(name) => first_bad_macro(actions@, macros@, fuel as nat) == Some(name@),
            None => first_bad_macro(actions@, macros@, fuel as nat) is None,
        },
{
    let mut i: usize = 0;
    assert(actions@.subrange(0, actions@.len() as int) =~= actions@);
    while i < actions.len()
        invariant
            i <= actions@.len(),
            first_bad_macro(actions@, macros@, fuel as nat) == first_bad_macro(
                actions@.subrange(i as int, actions@.len() as int),
                macros@,
                fuel as nat,
            ),
        decreases actions.len() - i,
    {
        let ghost rest = actions@.subrange(i as int, actions@.len() as int);
        assert(rest.drop_first() =~= actions@.subrange(i + 1, actions@.len() as int));
        assert(rest[0] == actions@[i as int]);
        if let Action::Macro(name) = &actions[i] {
            match lookup_macro(macros, name) {
                Some(_) => if fuel == 0 {
                    return Some(name);
                },
                None => {
                    return Some(name);
                },
            }
        }
        i += 1;
    }
    None
}

/// Checks the script's macros, then runs it on `elements`.
fn exec_pipeline(
    actions: &Vec<Action>,
    elements: Vec<Element>,
    fuel: usize,
    macros: &Vec<Macro>,
    cache: &Cache<REDIRECT_CACHE_SIZE>,
    env: &Env,
) -> (r: Step)
    ensures
        r@ == run_pipeline(actions@, elems_of(elements@), fuel as nat, world(macros@, *cache, *env)),
    decreases fuel, script_size(actions@), 3nat, 0nat,
{
    match find_bad_macro(actions, macros, fuel) {
        Some(name) => Step::Failed(invalid_input(name.as_str())),
        None => exec_seq(actions, elements, fuel, false, macros, cache, env),
    }
}

/// Runs a script on seed elements. Ends in `Done` with the final elements, in
/// `Failed` with the first error, or in `Needs` with outside work that `env`
/// does not hold yet.
pub fn run_script(
    actions: &Vec<Action>,
    elements: Vec<Element>,
    macros: &Vec<Macro>,
    cache: &Cache<REDIRECT_CACHE_SIZE>,
    env: &Env,
) -> (r: Step)
    ensures
        r@ == run(actions@, elems_of(elements@), world(macros@, *cache, *env)),
{
    exec_pipeline(actions, elements, macros.len(), macros, cache, env)
}

} // verus!
