//! Scripts: sequences of typed actions, and the named macros they may refer to.
use vstd::prelude::*;

verus! {

/// An attribute of an email that actions read.
#[derive(Debug, Clone, Copy, PartialEq, Eq)]
pub enum EmailAttribute {
    Id,
    FromAddress,
    ToAddress,
    Subject,
}

/// One scripted operation. `Or`, `Pair` and `Filter` hold sub-scripts.
#[derive(Debug, PartialEq, Eq)]
pub enum Action {
    EmailToHtml,
    EmailFilterRegex(EmailAttribute, String),
    EmailGetAttr(EmailAttribute),
    HtmlInnerText,
    HtmlOuterHtml,
    HtmlInnerHtml,
    HtmlGetAttr(String),
    HtmlSelectCss(String),
    HtmlFilterCss(String),
    TextMatchRegex(String, String),
    TextFilterRegex(String),
    TextToHtml,
    TextToUrl,
    UrlToText,
    UrlFollowRedirect,
    UrlGetQuery(String),
    UrlGetSegment(i8),
    ArraySelectNth(usize),
    PairGetLeft,
    PairGetRight,
    PairZipTogether,
    PairDistributeLeft,
    PairRightLeft,
    Macro(String),
    Or(Vec<Action>, Vec<Action>),
    Pair(Vec<Action>, Vec<Action>),
    Filter(Vec<Action>),
}

/// A script as a request carries it.
#[derive(Debug)]
pub struct Script {
    pub actions: Vec<Action>,
}

/// A named action sequence of the configuration.
#[derive(Debug)]
pub struct Macro {
    pub name: String,
    pub actions: Vec<Action>,
}

/// The number of action nodes in an action, sub-scripts included.
pub open spec fn action_size(a: Action) -> nat
    decreases a,
{
    match a {
        Action::Or(x, y) => 1 + script_size(x@) + script_size(y@),
        Action::Pair(x, y) => 1 + script_size(x@) + script_size(y@),
        Action::Filter(x) => 1 + script_size(x@),
        _ => 1,
    }
}

/// The number of action nodes in a script.
pub open spec fn script_size(s: Seq<Action>) -> nat
    decreases s,
{
    if s.len() == 0 {
        0
    } else {
        action_size(s[0]) + script_size(s.drop_first())
    }
}

/// The first macro of the list with this name.
pub open spec fn find_macro(macros: Seq<Macro>, name: Seq<char>) -> Option<Macro>
    decreases macros.len(),
{
    if macros.len() == 0 {
        None
    } else if macros[0].name@ == name {
        Some(macros[0])
    } else {
        find_macro(macros.drop_first(), name)
    }
}

/// Looks a macro up by name, as `find_macro` says.
pub fn lookup_macro<'a>(macros: &'a Vec<Macro>, name: &String) -> (r: Option<&'a Macro>)
    ensures
        match r {
            Some(m) => find_macro(macros@, name@) == Some(*m),
            None => find_macro(macros@, name@) is None,
        },
{
    let mut i: usize = 0;
    assert(macros@.subrange(0, macros@.len() as int) =~= macros@);
    while i < macros.len()
        invariant
            i <= macros.len(),
            find_macro(macros@, name@) == find_macro(macros@.subrange(i as int, macros@.len() as int), name@),
        decreases macros.len() - i,
    {
        let ghost rest = macros@.subrange(i as int, macros@.len() as int);
        assert(rest.drop_first() =~= macros@.subrange(i + 1, macros@.len() as int));
        if macros[i].name == *name {
            return Some(&macros[i]);
        }
        i += 1;
    }
    None
}

} // verus!
