//! What the request handlers compute: the public view of an email, the macro
//! listing, and a script run over a user's emails.
use vstd::prelude::*;
use crate::access::AuthorizedUser;
use crate::action::{Macro, Script, find_macro, lookup_macro};
use crate::cache::Cache;
use crate::element::{Element, Elem, Email, elems_of, lemma_elems_push};
use crate::engine::{Env, Step, REDIRECT_CACHE_SIZE, run, run_script, world};
use crate::error::Error;

verus! {

/// An email as the listing shows it.
#[derive(Debug)]
pub struct ApiEmail {
    pub from_addr: String,
    pub to_addr: String,
    pub subject: String,
    pub id: String,
    pub registered: i64,
}

impl ApiEmail {
    pub fn from_email(email: Email) -> (r: ApiEmail)
        ensures
            r.from_addr == email.from_addr,
            r.to_addr == email.to_addr,
            r.subject == email.subject,
            r.id == email.id,
            r.registered == email.registered,
    {
        ApiEmail {
            from_addr: email.from_addr,
            to_addr: email.to_addr,
            subject: email.subject,
            id: email.id,
            registered: email.registered,
        }
    }
}

/// The answer to a check of credentials.
#[derive(Debug)]
pub struct Verified {
    pub verified: bool,
}

/// The names of the configured macros, in order.
pub fn list_macros(macros: &Vec<Macro>) -> (r: Vec<String>)
    ensures
        r@.len() == macros@.len(),
        forall|i: int| 0 <= i < macros@.len() ==> #[trigger] r@[i] == macros@[i].name,
{
    let mut out: Vec<String> = Vec::new();
    let mut i: usize = 0;
    while i < macros.len()
        invariant
            i <= macros@.len(),
            out@.len() == i,
            forall|j: int| 0 <= j < i ==> #[trigger] out@[j] == macros@[j].name,
        decreases macros.len() - i,
    {
        out.push(macros[i].name.clone());
        i += 1;
    }
    out
}

/// The first macro with this name, or `NotFound`.
pub fn get_macro<'a>(macros: &'a Vec<Macro>, name: &String) -> (r: Result<&'a Macro, Error>)
    ensures
        match r {
            Ok(m) => find_macro(macros@, name@) == Some(*m),
            Err(e) => find_macro(macros@, name@) is None && e == Error::NotFound,
        },
{
    match lookup_macro(macros, name) {
        Some(m) => Ok(m),
        None => Err(Error::NotFound),
    }
}

/// The records that belong to the user, in order.
pub open spec fn owned_by(records: Seq<Email>, user: Seq<char>) -> Seq<Email>
    decreases records.len(),
{
    if records.len() == 0 {
        Seq::empty()
    } else {
        let prior = owned_by(records.drop_last(), user);
        if records.last().user@ == user {
            prior.push(records.last())
        } else {
            prior
        }
    }
}

/// The records that belong to the user, in order.
pub fn emails_of_user(records: Vec<Email>, user: &String) -> (r: Vec<Email>)
    ensures
        r@ == owned_by(records@, user@),
{
    let ghost orig = records@;
    let n = records.len();
    let mut rest = records;
    let mut out: Vec<Email> = Vec::new();
    let mut i: usize = 0;
    while rest.len() > 0
        invariant
            i + rest@.len() == n,
            n == orig.len(),
            rest@ == orig.subrange(i as int, n as int),
            out@ == owned_by(orig.take(i as int), user@),
        decreases rest.len(),
    {
        let m = rest.remove(0);
        assert(orig.take(i + 1).drop_last() =~= orig.take(i as int));
        if m.user == *user {
            out.push(m);
        }
        i += 1;
        assert(rest@ =~= orig.subrange(i as int, n as int));
    }
    assert(orig.take(n as int) =~= orig);
    out
}

/// The first record with this id that belongs to the user.
pub open spec fn find_owned(records: Seq<Email>, id: Seq<char>, user: Seq<char>) -> Option<Email>
    decreases records.len(),
{
    if records.len() == 0 {
        None
    } else if records[0].id@ == id && records[0].user@ == user {
        Some(records[0])
    } else {
        find_owned(records.drop_first(), id, user)
    }
}

/// The user's email with this id.
pub fn find_email<'a>(records: &'a Vec<Email>, id: &String, user: &String) -> (r: Option<&'a Email>)
    ensures
        match r {
            Some(e) => find_owned(records@, id@, user@) == Some(*e),
            None => find_owned(records@, id@, user@) is None,
        },
{
    let mut i: usize = 0;
    assert(records@.subrange(0, records@.len() as int) =~= records@);
    while i < records.len()
        invariant
            i <= records@.len(),
            find_owned(records@, id@, user@) == find_owned(
                records@.subrange(i as int, records@.len() as int),
                id@,
                user@,
            ),
        decreases records.len() - i,
    {
        assert(records@.subrange(i as int, records@.len() as int).drop_first() =~= records@.subrange(
            i + 1,
            records@.len() as int,
        ));
        if records[i].id == *id && records[i].user == *user {
            return Some(&records[i]);
        }
        i += 1;
    }
    None
}

/// The user's email with this id, as the listing shows it; the store reports a
/// missing row as an internal error.
pub fn get_email(records: &Vec<Email>, id: &String, user: &String) -> (r: Result<ApiEmail, Error>)
    ensures
        match r {
            Ok(a) => find_owned(records@, id@, user@) matches Some(e) && a.id == e.id && a.from_addr
                == e.from_addr && a.to_addr == e.to_addr && a.subject == e.subject && a.registered
                == e.registered,
            Err(err) => find_owned(records@, id@, user@) is None && err == Error::InternalError,
        },
{
    match find_email(records, id, user) {
        Some(e) => Ok(ApiEmail::from_email(e.duplicate())),
        None => Err(Error::InternalError),
    }
}

/// The user's email whose HTML is to be shown; another user's email, or none,
/// is `Unauthorized`.
pub fn view_email<'a>(records: &'a Vec<Email>, id: &String, user: &String) -> (r: Result<&'a Email, Error>)
    ensures
        match r {
            Ok(e) => find_owned(records@, id@, user@) == Some(*e),
            Err(err) => find_owned(records@, id@, user@) is None && err == Error::Unauthorized,
        },
{
    match find_email(records, id, user) {
        Some(e) => Ok(e),
        None => Err(Error::Unauthorized),
    }
}

/// The answer to an authenticated check of credentials.
pub fn verify_auth(_user: &AuthorizedUser) -> (r: Verified)
    ensures
        r.verified,
{
    Verified { verified: true }
}

/// The pipeline seeds: one email element per record, in order.
pub open spec fn seeds(emails: Seq<Email>) -> Seq<Elem> {
    emails.map_values(|m: Email| Elem::Email(m))
}

/// One email element per record, in order.
pub fn seed_elements(emails: Vec<Email>) -> (r: Vec<Element>)
    ensures
        elems_of(r@) == seeds(emails@),
{
    let ghost orig = emails@;
    let n = emails.len();
    let mut rest = emails;
    let mut out: Vec<Element> = Vec::new();
    let mut i: usize = 0;
    assert(elems_of(out@) =~= Seq::<Elem>::empty());
    while rest.len() > 0
        invariant
            i + rest@.len() == n,
            n == orig.len(),
            rest@ == orig.subrange(i as int, n as int),
            elems_of(out@) == seeds(orig.take(i as int)),
        decreases rest.len(),
    {
        let m = rest.remove(0);
        let x = Element::Email(m);
        proof {
            lemma_elems_push(out@, x);
            assert(seeds(orig.take(i + 1)) =~= seeds(orig.take(i as int)).push(Elem::Email(orig[i as int])));
        }
        out.push(x);
        i += 1;
        assert(rest@ =~= orig.subrange(i as int, n as int));
    }
    assert(orig.take(n as int) =~= orig);
    out
}

/// Runs a script over a user's emails.
pub fn execute_script(
    script: &Script,
    emails: Vec<Email>,
    macros: &Vec<Macro>,
    cache: &Cache<REDIRECT_CACHE_SIZE>,
    env: &Env,
) -> (r: Step)
    ensures
        r@ == run(script.actions@, seeds(emails@), world(macros@, *cache, *env)),
{
    let seed = seed_elements(emails);
    run_script(&script.actions, seed, macros, cache, env)
}

} // verus!
