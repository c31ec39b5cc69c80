//! Properties of script runs, proved from the semantics that the engine meets.
use vstd::prelude::*;
use crate::action::{Action, Macro, find_macro, script_size, action_size};
use crate::element::Elem;
use crate::engine::{
    Outcome, World, accepts, run, run_pipeline, run_seq, run_stage, run_action, run_leaf,
    first_bad_macro, nothing,
};

verus! {

proof fn lemma_single_stage(a: Action, e: Elem, fuel: nat, w: World)
    ensures
        run_stage(a, seq![e], 1, fuel, w) == match run_action(a, 0, e, fuel, w) {
            Outcome::Done(out) => Outcome::Done(Seq::<Elem>::empty() + out),
            other => other,
        },
{
    assert(run_stage(a, seq![e], 0, fuel, w) == nothing());
}

proof fn lemma_one_action(a: Action, elems: Seq<Elem>, fuel: nat, w: World)
    requires
        !(a is Macro),
        elems.len() > 0,
    ensures
        run_seq(seq![a], elems, fuel, false, w) == match run_stage(a, elems, elems.len(), fuel, w) {
            Outcome::Done(es) => Outcome::Done(es),
            other => other,
        },
{
    assert(seq![a].drop_first() =~= Seq::<Action>::empty());
    assert(seq![a][0] == a);
    if let Outcome::Done(es) = run_stage(a, elems, elems.len(), fuel, w) {
        assert(run_seq(Seq::<Action>::empty(), es, fuel, false, w) == Outcome::Done(es));
    }
}

proof fn lemma_no_macro_single(a: Action, macros: Seq<Macro>, fuel: nat)
    requires
        !(a is Macro),
    ensures
        first_bad_macro(seq![a], macros, fuel) is None,
{
    assert(seq![a].drop_first() =~= Seq::<Action>::empty());
    assert(seq![a][0] == a);
    assert(first_bad_macro(Seq::<Action>::empty(), macros, fuel) is None);
}

/// An action on an element of a variant that it does not read emits nothing and
/// reports no error.
pub proof fn lemma_type_mismatch_silent(a: Action, e: Elem, w: World)
    requires
        !accepts(a, e),
    ensures
        run(seq![a], seq![e], w) == Outcome::Done(Seq::<Elem>::empty()),
{
    let fuel = w.macros.len();
    lemma_no_macro_single(a, w.macros, fuel);
    lemma_one_action(a, seq![e], fuel, w);
    lemma_single_stage(a, e, fuel, w);
    assert(run_action(a, 0, e, fuel, w) == run_leaf(a, e, w));
    assert(Seq::<Elem>::empty() + Seq::<Elem>::empty() =~= Seq::<Elem>::empty());
}

/// Running one script after another: what the first leaves is the second's input,
/// and a failure or a need of the first ends the run.
pub proof fn lemma_seq_append(
    s1: Seq<Action>,
    s2: Seq<Action>,
    elems: Seq<Elem>,
    fuel: nat,
    inlined: bool,
    w: World,
)
    ensures
        run_seq(s1 + s2, elems, fuel, inlined, w) == match run_seq(s1, elems, fuel, inlined, w) {
            Outcome::Done(out) => run_seq(s2, out, fuel, inlined, w),
            other => other,
        },
    decreases s1.len(),
{
    if s1.len() == 0 {
        assert(s1 + s2 =~= s2);
    } else if elems.len() == 0 {
        if s2.len() > 0 {
            assert((s1 + s2).len() > 0);
        }
    } else {
        assert((s1 + s2)[0] == s1[0]);
        assert((s1 + s2).drop_first() =~= s1.drop_first() + s2);
        let next = match s1[0] {
            Action::Macro(name) if !inlined => match find_macro(w.macros, name@) {
                Some(m) if fuel > 0 => run_seq(m.actions@, elems, (fuel - 1) as nat, true, w),
                _ => Outcome::Failed(crate::error::Fault::InvalidInput(name@)),
            },
            _ => run_stage(s1[0], elems, elems.len(), fuel, w),
        };
        if let Outcome::Done(es) = next {
            lemma_seq_append(s1.drop_first(), s2, es, fuel, inlined, w);
        }
    }
}

proof fn lemma_bad_macro_append(s1: Seq<Action>, s2: Seq<Action>, macros: Seq<Macro>, fuel: nat)
    ensures
        first_bad_macro(s1 + s2, macros, fuel) == match first_bad_macro(s1, macros, fuel) {
            Some(n) => Some(n),
            None => first_bad_macro(s2, macros, fuel),
        },
    decreases s1.len(),
{
    if s1.len() == 0 {
        assert(s1 + s2 =~= s2);
    } else {
        assert((s1 + s2)[0] == s1[0]);
        assert((s1 + s2).drop_first() =~= s1.drop_first() + s2);
        lemma_bad_macro_append(s1.drop_first(), s2, macros, fuel);
    }
}

/// Once a prefix of a script leaves no elements, the rest of the script changes
/// nothing: the run ends empty. (The rest must name only macros that exist, since
/// every macro is checked before any action runs.)
pub proof fn lemma_empty_short_circuit(s1: Seq<Action>, s2: Seq<Action>, elems: Seq<Elem>, w: World)
    requires
        run(s1, elems, w) == Outcome::Done(Seq::<Elem>::empty()),
        first_bad_macro(s2, w.macros, w.macros.len()) is None,
    ensures
        run(s1 + s2, elems, w) == Outcome::Done(Seq::<Elem>::empty()),
{
    let fuel = w.macros.len();
    lemma_bad_macro_append(s1, s2, w.macros, fuel);
    lemma_seq_append(s1, s2, elems, fuel, false, w);
}

/// Turning text into HTML and taking its outer HTML gives the text back.
pub proof fn lemma_text_html_round_trip(t: Seq<char>, w: World)
    ensures
        run(seq![Action::TextToHtml, Action::HtmlOuterHtml], seq![Elem::Text(t)], w)
            == Outcome::Done(seq![Elem::Text(t)]),
{
    let fuel = w.macros.len();
    let s1 = seq![Action::TextToHtml];
    let s2 = seq![Action::HtmlOuterHtml];
    assert(s1 + s2 =~= seq![Action::TextToHtml, Action::HtmlOuterHtml]);
    lemma_no_macro_single(Action::TextToHtml, w.macros, fuel);
    lemma_no_macro_single(Action::HtmlOuterHtml, w.macros, fuel);
    lemma_bad_macro_append(s1, s2, w.macros, fuel);
    lemma_seq_append(s1, s2, seq![Elem::Text(t)], fuel, false, w);
    lemma_one_action(Action::TextToHtml, seq![Elem::Text(t)], fuel, w);
    lemma_single_stage(Action::TextToHtml, Elem::Text(t), fuel, w);
    assert(run_action(Action::TextToHtml, 0, Elem::Text(t), fuel, w) == run_leaf(
        Action::TextToHtml,
        Elem::Text(t),
        w,
    ));
    assert(Seq::<Elem>::empty() + seq![Elem::Html(t)] =~= seq![Elem::Html(t)]);
    lemma_one_action(Action::HtmlOuterHtml, seq![Elem::Html(t)], fuel, w);
    lemma_single_stage(Action::HtmlOuterHtml, Elem::Html(t), fuel, w);
    assert(run_action(Action::HtmlOuterHtml, 0, Elem::Html(t), fuel, w) == run_leaf(
        Action::HtmlOuterHtml,
        Elem::Html(t),
        w,
    ));
    assert(Seq::<Elem>::empty() + seq![Elem::Text(t)] =~= seq![Elem::Text(t)]);
}

/// Swapping the sides of a pair twice gives the pair back.
pub proof fn lemma_swap_involution(l: Seq<Elem>, r: Seq<Elem>, w: World)
    ensures
        run(seq![Action::PairRightLeft, Action::PairRightLeft], seq![Elem::Pair(l, r)], w)
            == Outcome::Done(seq![Elem::Pair(l, r)]),
{
    let fuel = w.macros.len();
    let a = Action::PairRightLeft;
    let s1 = seq![a];
    assert(s1 + s1 =~= seq![a, a]);
    lemma_no_macro_single(a, w.macros, fuel);
    lemma_bad_macro_append(s1, s1, w.macros, fuel);
    lemma_seq_append(s1, s1, seq![Elem::Pair(l, r)], fuel, false, w);
    lemma_one_action(a, seq![Elem::Pair(l, r)], fuel, w);
    lemma_single_stage(a, Elem::Pair(l, r), fuel, w);
    assert(run_action(a, 0, Elem::Pair(l, r), fuel, w) == run_leaf(a, Elem::Pair(l, r), w));
    assert(Seq::<Elem>::empty() + seq![Elem::Pair(r, l)] =~= seq![Elem::Pair(r, l)]);
    lemma_one_action(a, seq![Elem::Pair(r, l)], fuel, w);
    lemma_single_stage(a, Elem::Pair(r, l), fuel, w);
    assert(run_action(a, 0, Elem::Pair(r, l), fuel, w) == run_leaf(a, Elem::Pair(r, l), w));
    assert(Seq::<Elem>::empty() + seq![Elem::Pair(l, r)] =~= seq![Elem::Pair(l, r)]);
}

proof fn lemma_select_nth_stage(n: usize, elems: Seq<Elem>, k: nat, fuel: nat, w: World)
    requires
        k <= elems.len(),
    ensures
        run_stage(Action::ArraySelectNth(n), elems, k, fuel, w) == Outcome::Done(
            if (n as nat) < k { seq![elems[n as int]] } else { Seq::<Elem>::empty() },
        ),
    decreases k,
{
    if k > 0 {
        lemma_select_nth_stage(n, elems, (k - 1) as nat, fuel, w);
        let a = Action::ArraySelectNth(n);
        let last = run_action(a, (k - 1) as nat, elems[k - 1], fuel, w);
        if n == k - 1 {
            assert(last == Outcome::Done(seq![elems[k - 1]]));
        } else {
            assert(last == Outcome::Done(Seq::<Elem>::empty()));
        }
        if (n as nat) < k - 1 {
            assert(seq![elems[n as int]] + Seq::<Elem>::empty() =~= seq![elems[n as int]]);
        } else if n == k - 1 {
            assert(Seq::<Elem>::empty() + seq![elems[n as int]] =~= seq![elems[n as int]]);
        } else {
            assert(Seq::<Elem>::empty() + Seq::<Elem>::empty() =~= Seq::<Elem>::empty());
        }
    }
}

/// Selecting position `n` of a stage keeps exactly the element at that position,
/// whatever its variant, and nothing when the stage is shorter.
pub proof fn lemma_select_nth(n: usize, elems: Seq<Elem>, w: World)
    ensures
        run(seq![Action::ArraySelectNth(n)], elems, w) == Outcome::Done(
            if (n as nat) < elems.len() { seq![elems[n as int]] } else { Seq::<Elem>::empty() },
        ),
{
    let fuel = w.macros.len();
    let a = Action::ArraySelectNth(n);
    lemma_no_macro_single(a, w.macros, fuel);
    assert(run_pipeline(seq![a], elems, fuel, w) == run_seq(seq![a], elems, fuel, false, w));
    if elems.len() > 0 {
        lemma_one_action(a, elems, fuel, w);
        lemma_select_nth_stage(n, elems, elems.len(), fuel, w);
    } else {
        assert(run_seq(seq![a], elems, fuel, false, w) == Outcome::Done(elems));
        assert(elems =~= Seq::<Elem>::empty());
    }
}

/// The action holds no `Macro` action, at any depth of its sub-scripts.
pub open spec fn macro_free(a: Action) -> bool
    decreases a,
{
    match a {
        Action::Macro(_) => false,
        Action::Or(x, y) => all_macro_free(x@) && all_macro_free(y@),
        Action::Pair(x, y) => all_macro_free(x@) && all_macro_free(y@),
        Action::Filter(x) => all_macro_free(x@),
        _ => true,
    }
}

/// No action of the script holds a `Macro` action, at any depth.
pub open spec fn all_macro_free(s: Seq<Action>) -> bool
    decreases s,
{
    s.len() == 0 || (macro_free(s[0]) && all_macro_free(s.drop_first()))
}

proof fn lemma_free_no_bad(s: Seq<Action>, macros: Seq<Macro>, fuel: nat)
    requires
        all_macro_free(s),
    ensures
        first_bad_macro(s, macros, fuel) is None,
    decreases s.len(),
{
    if s.len() > 0 {
        if let Action::Macro(_) = s[0] {
            assert(!macro_free(s[0]));
        }
        lemma_free_no_bad(s.drop_first(), macros, fuel);
    }
}

proof fn lemma_fuel_action(a: Action, index: nat, e: Elem, f1: nat, f2: nat, w: World)
    requires
        macro_free(a),
    ensures
        run_action(a, index, e, f1, w) == run_action(a, index, e, f2, w),
    decreases action_size(a), 0nat, 0nat,
{
    match a {
        Action::Or(x, y) => {
            lemma_fuel_pipeline(x@, seq![e], f1, f2, w);
            lemma_fuel_pipeline(y@, seq![e], f1, f2, w);
        },
        Action::Pair(x, y) => {
            lemma_fuel_pipeline(x@, seq![e], f1, f2, w);
            lemma_fuel_pipeline(y@, seq![e], f1, f2, w);
        },
        Action::Filter(x) => {
            lemma_fuel_pipeline(x@, seq![e], f1, f2, w);
        },
        _ => {},
    }
}

proof fn lemma_fuel_stage(a: Action, elems: Seq<Elem>, k: nat, f1: nat, f2: nat, w: World)
    requires
        macro_free(a),
    ensures
        run_stage(a, elems, k, f1, w) == run_stage(a, elems, k, f2, w),
    decreases action_size(a), 1nat, k,
{
    if k > 0 && k <= elems.len() {
        lemma_fuel_stage(a, elems, (k - 1) as nat, f1, f2, w);
        lemma_fuel_action(a, (k - 1) as nat, elems[k - 1], f1, f2, w);
    }
}

proof fn lemma_fuel_seq(
    s: Seq<Action>,
    elems: Seq<Elem>,
    f1: nat,
    f2: nat,
    in1: bool,
    in2: bool,
    w: World,
)
    requires
        all_macro_free(s),
    ensures
        run_seq(s, elems, f1, in1, w) == run_seq(s, elems, f2, in2, w),
    decreases script_size(s), 2nat, 0nat,
{
    if s.len() > 0 && elems.len() > 0 {
        if let Action::Macro(_) = s[0] {
            assert(!macro_free(s[0]));
        }
        assert(!(s[0] is Macro));
        lemma_fuel_stage(s[0], elems, elems.len(), f1, f2, w);
        if let Outcome::Done(es) = run_stage(s[0], elems, elems.len(), f1, w) {
            lemma_fuel_seq(s.drop_first(), es, f1, f2, in1, in2, w);
        }
    }
}

proof fn lemma_fuel_pipeline(s: Seq<Action>, elems: Seq<Elem>, f1: nat, f2: nat, w: World)
    requires
        all_macro_free(s),
    ensures
        run_pipeline(s, elems, f1, w) == run_pipeline(s, elems, f2, w),
    decreases script_size(s), 3nat, 0nat,
{
    lemma_free_no_bad(s, w.macros, f1);
    lemma_free_no_bad(s, w.macros, f2);
    lemma_fuel_seq(s, elems, f1, f2, false, false, w);
}

/// A `Macro` action gives the same result as the macro's actions written in its
/// place, where those actions hold no `Macro` action themselves.
pub proof fn lemma_macro_inline(
    pre: Seq<Action>,
    name: String,
    post: Seq<Action>,
    elems: Seq<Elem>,
    w: World,
)
    requires
        find_macro(w.macros, name@) is Some,
        all_macro_free(find_macro(w.macros, name@)->0.actions@),
    ensures
        run(pre + seq![Action::Macro(name)] + post, elems, w) == run(
            pre + find_macro(w.macros, name@)->0.actions@ + post,
            elems,
            w,
        ),
{
    let fuel = w.macros.len();
    let body = find_macro(w.macros, name@)->0.actions@;
    let m = seq![Action::Macro(name)];
    lemma_found_nonempty(w.macros, name@);
    // the macro checks agree
    lemma_free_no_bad(body, w.macros, fuel);
    assert(m.drop_first() =~= Seq::<Action>::empty());
    assert(m[0] == Action::Macro(name));
    assert(first_bad_macro(Seq::<Action>::empty(), w.macros, fuel) is None);
    assert(first_bad_macro(m, w.macros, fuel) is None);
    lemma_bad_macro_append(pre, m, w.macros, fuel);
    lemma_bad_macro_append(pre + m, post, w.macros, fuel);
    lemma_bad_macro_append(pre, body, w.macros, fuel);
    lemma_bad_macro_append(pre + body, post, w.macros, fuel);
    // the runs agree
    assert(pre + m + post =~= pre + (m + post));
    assert(pre + body + post =~= pre + (body + post));
    lemma_seq_append(pre, m + post, elems, fuel, false, w);
    lemma_seq_append(pre, body + post, elems, fuel, false, w);
    if let Outcome::Done(x) = run_seq(pre, elems, fuel, false, w) {
        lemma_seq_append(body, post, x, fuel, false, w);
        if x.len() > 0 {
            assert((m + post)[0] == Action::Macro(name));
            assert((m + post).drop_first() =~= post);
            lemma_fuel_seq(body, x, (fuel - 1) as nat, fuel, true, false, w);
        } else {
            if body.len() + post.len() > 0 {
                assert((body + post).len() > 0);
            }
        }
    }
}

proof fn lemma_found_nonempty(macros: Seq<Macro>, name: Seq<char>)
    requires
        find_macro(macros, name) is Some,
    ensures
        macros.len() > 0,
{
}

} // verus!
