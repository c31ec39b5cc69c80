//! The serializable projection of elements, and its flattening into table rows.
use vstd::prelude::*;
use crate::element::{Element, Elem, elem_of, elems_of, lemma_elems_of_len};

verus! {

/// An element as it leaves the engine: an email is reduced to its id.
#[derive(Debug, PartialEq, Eq)]
pub enum SerdeElement {
    Html(String),
    Text(String),
    Email(String),
    Url(String),
    Pair(Vec<SerdeElement>, Vec<SerdeElement>),
}

/// The mathematical value of a [`SerdeElement`].
pub enum Projected {
    Html(Seq<char>),
    Text(Seq<char>),
    Email(Seq<char>),
    Url(Seq<char>),
    Pair(Seq<Projected>, Seq<Projected>),
}

pub open spec fn projected_of(e: SerdeElement) -> Projected
    decreases e,
{
    match e {
        SerdeElement::Html(s) => Projected::Html(s@),
        SerdeElement::Text(s) => Projected::Text(s@),
        SerdeElement::Email(s) => Projected::Email(s@),
        SerdeElement::Url(s) => Projected::Url(s@),
        SerdeElement::Pair(l, r) => Projected::Pair(projected_all(l@), projected_all(r@)),
    }
}

pub open spec fn projected_all(s: Seq<SerdeElement>) -> Seq<Projected>
    decreases s,
{
    if s.len() == 0 {
        Seq::empty()
    } else {
        projected_all(s.drop_last()).push(projected_of(s.last()))
    }
}

impl View for SerdeElement {
    type V = Projected;

    open spec fn view(&self) -> Projected {
        projected_of(*self)
    }
}

/// The projection of an element: variant and content kept, an email reduced to
/// its id, a pair projected side by side.
pub open spec fn project(e: Elem) -> Projected
    decreases e,
{
    match e {
        Elem::Html(s) => Projected::Html(s),
        Elem::Text(s) => Projected::Text(s),
        Elem::Email(m) => Projected::Email(m.id@),
        Elem::Url(u) => Projected::Url(u),
        Elem::Pair(l, r) => Projected::Pair(project_all(l), project_all(r)),
    }
}

pub open spec fn project_all(s: Seq<Elem>) -> Seq<Projected>
    decreases s,
{
    if s.len() == 0 {
        Seq::empty()
    } else {
        project_all(s.drop_last()).push(project(s.last()))
    }
}

proof fn lemma_projected_push(s: Seq<SerdeElement>, x: SerdeElement)
    ensures
        projected_all(s.push(x)) == projected_all(s).push(projected_of(x)),
{
    assert(s.push(x).drop_last() =~= s);
}

proof fn lemma_project_take(s: Seq<Elem>, i: int)
    requires
        0 <= i < s.len(),
    ensures
        project_all(s.take(i + 1)) == project_all(s.take(i)).push(project(s[i])),
{
    assert(s.take(i + 1).drop_last() =~= s.take(i));
}

impl SerdeElement {
    /// The projection of an element.
    pub fn from_element(e: &Element) -> (r: SerdeElement)
        ensures
            r@ == project(e@),
        decreases e,
    {
        match e {
            Element::Html(s) => SerdeElement::Html(s.clone()),
            Element::Text(s) => SerdeElement::Text(s.clone()),
            Element::Email(m) => SerdeElement::Email(m.id.clone()),
            Element::Url(u) => SerdeElement::Url(u.as_str().to_owned()),
            Element::Pair(l, r) => SerdeElement::Pair(project_elements(l), project_elements(r)),
        }
    }
}

/// The projection of each element, in order.
pub fn project_elements(v: &Vec<Element>) -> (r: Vec<SerdeElement>)
    ensures
        projected_all(r@) == project_all(elems_of(v@)),
    decreases v,
{
    proof {
        lemma_elems_of_len(v@);
    }
    let mut out: Vec<SerdeElement> = Vec::new();
    let mut i: usize = 0;
    while i < v.len()
        invariant
            i <= v@.len(),
            elems_of(v@).len() == v@.len(),
            forall|j: int| 0 <= j < v@.len() ==> #[trigger] elems_of(v@)[j] == elem_of(v@[j]),
            projected_all(out@) == project_all(elems_of(v@).take(i as int)),
        decreases v.len() - i,
    {
        assert(decreases_to!(v => v[i as int]));
        let p = SerdeElement::from_element(&v[i]);
        proof {
            lemma_projected_push(out@, p);
            lemma_project_take(elems_of(v@), i as int);
        }
        out.push(p);
        i += 1;
    }
    assert(elems_of(v@).take(v@.len() as int) =~= elems_of(v@));
    out
}

/// The leaves of an element along first elements: a pair gives the leaves of
/// its left side's first element followed by those of its right side's first
/// element; any other element is a leaf.
pub open spec fn flatten(e: Projected) -> Seq<Projected>
    decreases e,
{
    match e {
        Projected::Pair(l, r) => (if l.len() > 0 { flatten(l[0]) } else { Seq::empty() }) + (if r.len()
            > 0 {
            flatten(r[0])
        } else {
            Seq::empty()
        }),
        _ => seq![e],
    }
}

/// Appends the leaves of `el` to `v`.
pub fn flatten_serde_pair(el: SerdeElement, v: &mut Vec<SerdeElement>)
    ensures
        projected_all(final(v)@) == projected_all(old(v)@) + flatten(el@),
    decreases el,
{
    match el {
        SerdeElement::Pair(left, right) => {
            let ghost l0 = left@;
            let ghost r0 = right@;
            let mut left = left;
            let mut right = right;
            proof {
                lemma_projected_len(l0);
                lemma_projected_len(r0);
            }
            let ghost mid = v@;
            if left.len() > 0 {
                let first = left.remove(0);
                assert(decreases_to!(l0 => l0[0]));
                flatten_serde_pair(first, v);
            }
            let ghost after_left = v@;
            if right.len() > 0 {
                let first = right.remove(0);
                assert(decreases_to!(r0 => r0[0]));
                flatten_serde_pair(first, v);
            }
            proof {
                let fl = if l0.len() > 0 { flatten(projected_of(l0[0])) } else { Seq::<Projected>::empty() };
                let fr = if r0.len() > 0 { flatten(projected_of(r0[0])) } else { Seq::<Projected>::empty() };
                if l0.len() == 0 {
                    assert(projected_all(mid) + fl =~= projected_all(mid));
                }
                if r0.len() == 0 {
                    assert(projected_all(after_left) + fr =~= projected_all(after_left));
                }
                assert(projected_all(mid) + fl + fr =~= projected_all(mid) + (fl + fr));
            }
        },
        other => {
            proof {
                lemma_projected_push(v@, other);
            }
            v.push(other);
        },
    }
}

pub proof fn lemma_projected_len(s: Seq<SerdeElement>)
    ensures
        projected_all(s).len() == s.len(),
        forall|i: int| 0 <= i < s.len() ==> #[trigger] projected_all(s)[i] == projected_of(s[i]),
    decreases s.len(),
{
    if s.len() > 0 {
        lemma_projected_push(s.drop_last(), s.last());
        assert(s.drop_last().push(s.last()) =~= s);
        lemma_projected_len(s.drop_last());
    }
}

/// The table rows of a result: the leaves of each element, one row per element.
pub fn to_rows(data: Vec<SerdeElement>) -> (r: Vec<Vec<SerdeElement>>)
    ensures
        r@.len() == data@.len(),
        forall|i: int| 0 <= i < data@.len() ==> projected_all(#[trigger] r@[i]@) == flatten(data@[i]@),
{
    let ghost orig = data@;
    let n = data.len();
    let mut rest = data;
    let mut out: Vec<Vec<SerdeElement>> = Vec::new();
    let mut i: usize = 0;
    while rest.len() > 0
        invariant
            i + rest@.len() == n,
            n == orig.len(),
            rest@ == orig.subrange(i as int, n as int),
            out@.len() == i,
            forall|j: int| 0 <= j < i ==> projected_all(#[trigger] out@[j]@) == flatten(orig[j]@),
        decreases rest.len(),
    {
        let x = rest.remove(0);
        let mut row: Vec<SerdeElement> = Vec::new();
        assert(projected_all(row@) =~= Seq::<Projected>::empty());
        flatten_serde_pair(x, &mut row);
        assert(Seq::<Projected>::empty() + flatten(orig[i as int]@) =~= flatten(orig[i as int]@));
        out.push(row);
        i += 1;
        assert(rest@ =~= orig.subrange(i as int, n as int));
    }
    out
}

} // verus!
