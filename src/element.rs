//! The values that flow between the stages of a pipeline.
use vstd::prelude::*;
use crate::action::EmailAttribute;
use crate::weburl;

verus! {

/// An email record of the store.
#[derive(Debug, Clone, PartialEq, Eq)]
pub struct Email {
    pub id: String,
    pub html: String,
    pub user: String,
    pub registered: i64,
    pub from_addr: String,
    pub to_addr: String,
    pub subject: String,
}

/// The value of an attribute of an email.
pub open spec fn attribute_of(e: Email, a: EmailAttribute) -> Seq<char> {
    match a {
        EmailAttribute::Id => e.id@,
        EmailAttribute::FromAddress => e.from_addr@,
        EmailAttribute::ToAddress => e.to_addr@,
        EmailAttribute::Subject => e.subject@,
    }
}

impl Email {
    pub fn get_attribute(&self, attribute: EmailAttribute) -> (r: &str)
        ensures
            r@ == attribute_of(*self, attribute),
    {
        match attribute {
            EmailAttribute::Id => self.id.as_str(),
            EmailAttribute::FromAddress => self.from_addr.as_str(),
            EmailAttribute::Subject => self.subject.as_str(),
            EmailAttribute::ToAddress => self.to_addr.as_str(),
        }
    }

    pub fn duplicate(&self) -> (r: Email)
        ensures
            r == *self,
    {
        Email {
            id: self.id.clone(),
            html: self.html.clone(),
            user: self.user.clone(),
            registered: self.registered,
            from_addr: self.from_addr.clone(),
            to_addr: self.to_addr.clone(),
            subject: self.subject.clone(),
        }
    }
}

/// An absolute URL, held as its serialization.
#[derive(Debug, Clone, PartialEq, Eq)]
pub struct Url {
    text: String,
}

impl View for Url {
    type V = Seq<char>;

    closed spec fn view(&self) -> Seq<char> {
        self.text@
    }
}

impl Url {
    /// Parses an absolute URL; `None` where the text is no URL.
    pub fn parse(text: &str) -> (r: Option<Url>)
        ensures
            match r {
                Some(u) => weburl::url_parse(text@) == Some(u@),
                None => weburl::url_parse(text@) is None,
            },
    {
        match weburl::parse(text) {
            Some(s) => Some(Url { text: s }),
            None => None,
        }
    }

    /// The serialization of the URL.
    pub fn as_str(&self) -> (r: &str)
        ensures
            r@ == self@,
    {
        self.text.as_str()
    }

    pub fn duplicate(&self) -> (r: Url)
        ensures
            r == *self,
    {
        Url { text: self.text.clone() }
    }
}

/// A value passed between stages.
#[derive(Debug, PartialEq, Eq)]
pub enum Element {
    Html(String),
    Text(String),
    Email(Email),
    Url(Url),
    Pair(Vec<Element>, Vec<Element>),
}

/// The mathematical value of an element.
pub enum Elem {
    Html(Seq<char>),
    Text(Seq<char>),
    Email(Email),
    Url(Seq<char>),
    Pair(Seq<Elem>, Seq<Elem>),
}

pub open spec fn elem_of(e: Element) -> Elem
    decreases e,
{
    match e {
        Element::Html(s) => Elem::Html(s@),
        Element::Text(s) => Elem::Text(s@),
        Element::Email(m) => Elem::Email(m),
        Element::Url(u) => Elem::Url(u@),
        Element::Pair(l, r) => Elem::Pair(elems_of(l@), elems_of(r@)),
    }
}

pub open spec fn elems_of(s: Seq<Element>) -> Seq<Elem>
    decreases s,
{
    if s.len() == 0 {
        Seq::empty()
    } else {
        elems_of(s.drop_last()).push(elem_of(s.last()))
    }
}

impl View for Element {
    type V = Elem;

    open spec fn view(&self) -> Elem {
        elem_of(*self)
    }
}

impl Element {
    /// A deep copy.
    pub fn duplicate(&self) -> (r: Element)
        ensures
            r@ == self@,
        decreases self,
    {
        match self {
            Element::Html(s) => Element::Html(s.clone()),
            Element::Text(s) => Element::Text(s.clone()),
            Element::Email(m) => Element::Email(m.duplicate()),
            Element::Url(u) => Element::Url(u.duplicate()),
            Element::Pair(l, r) => Element::Pair(duplicate_all(l), duplicate_all(r)),
        }
    }
}

/// A deep copy of each element, in order.
pub fn duplicate_all(v: &Vec<Element>) -> (r: Vec<Element>)
    ensures
        elems_of(r@) == elems_of(v@),
    decreases v,
{
    let mut out: Vec<Element> = Vec::new();
    let mut i: usize = 0;
    while i < v.len()
        invariant
            i <= v.len(),
            elems_of(out@) == elems_of(v@.take(i as int)),
        decreases v.len() - i,
    {
        assert(decreases_to!(v => v[i as int]));
        let x = v[i].duplicate();
        proof {
            lemma_elems_push(out@, x);
            lemma_elems_push(v@.take(i as int), v[i as int]);
            assert(v@.take(i as int).push(v[i as int]) =~= v@.take(i + 1));
        }
        out.push(x);
        i += 1;
    }
    assert(v@.take(v.len() as int) =~= v@);
    out
}

pub proof fn lemma_elems_push(s: Seq<Element>, x: Element)
    ensures
        elems_of(s.push(x)) == elems_of(s).push(elem_of(x)),
{
    assert(s.push(x).drop_last() =~= s);
}

pub proof fn lemma_elems_single(x: Element)
    ensures
        elems_of(seq![x]) == seq![elem_of(x)],
{
    lemma_elems_push(Seq::empty(), x);
    assert(Seq::<Element>::empty().push(x) =~= seq![x]);
    assert(elems_of(Seq::<Element>::empty()) =~= Seq::<Elem>::empty());
    assert(Seq::<Elem>::empty().push(elem_of(x)) =~= seq![elem_of(x)]);
}

pub proof fn lemma_elems_concat(a: Seq<Element>, b: Seq<Element>)
    ensures
        elems_of(a + b) == elems_of(a) + elems_of(b),
{
    lemma_elems_of_len(a);
    lemma_elems_of_len(b);
    lemma_elems_of_len(a + b);
    assert(elems_of(a + b) =~= elems_of(a) + elems_of(b));
}

pub proof fn lemma_elems_of_len(s: Seq<Element>)
    ensures
        elems_of(s).len() == s.len(),
        forall|i: int| 0 <= i < s.len() ==> #[trigger] elems_of(s)[i] == elem_of(s[i]),
    decreases s.len(),
{
    if s.len() > 0 {
        lemma_elems_of_len(s.drop_last());
    }
}

} // verus!
