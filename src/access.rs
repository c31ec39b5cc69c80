//! Request-level decisions: who is calling, in which format they want the
//! answer, and whether they are over their rate limit.
use vstd::prelude::*;
use crate::config::{User, Users};

verus! {

/// Whether the user has these credentials.
pub open spec fn credentials_match(u: User, username: Seq<char>, password: Seq<char>) -> bool {
    u.username@ == username && u.password@ == password
}

/// The first configured user with these credentials.
pub open spec fn first_match(users: Seq<User>, username: Seq<char>, password: Seq<char>) -> Option<User>
    decreases users.len(),
{
    if users.len() == 0 {
        None
    } else if credentials_match(users[0], username, password) {
        Some(users[0])
    } else {
        first_match(users.drop_first(), username, password)
    }
}

/// The user that the credentials identify, if any.
pub open spec fn authenticated(users: Users, username: Seq<char>, password: Seq<char>) -> Option<User> {
    match users {
        Users::Single(u) => if credentials_match(u, username, password) {
            Some(u)
        } else {
            None
        },
        Users::Many(v) => first_match(v@, username, password),
    }
}

/// A caller whose credentials matched a configured user.
#[derive(Debug)]
pub struct AuthorizedUser<'a> {
    pub user: &'a User,
}

/// Finds the configured user with these credentials.
pub fn authorize<'a>(users: &'a Users, username: &String, password: &String) -> (r: Option<AuthorizedUser<'a>>)
    ensures
        match r {
            Some(a) => authenticated(*users, username@, password@) == Some(*a.user),
            None => authenticated(*users, username@, password@) is None,
        },
{
    match users {
        Users::Single(u) => if u.username == *username && u.password == *password {
            Some(AuthorizedUser { user: u })
        } else {
            None
        },
        Users::Many(v) => {
            let mut i: usize = 0;
            assert(v@.subrange(0, v@.len() as int) =~= v@);
            while i < v.len()
                invariant
                    i <= v@.len(),
                    authenticated(*users, username@, password@) == first_match(v@, username@, password@),
                    first_match(v@, username@, password@) == first_match(
                        v@.subrange(i as int, v@.len() as int),
                        username@,
                        password@,
                    ),
                decreases v.len() - i,
            {
                assert(v@.subrange(i as int, v@.len() as int).drop_first() =~= v@.subrange(
                    i + 1,
                    v@.len() as int,
                ));
                if v[i].username == *username && v[i].password == *password {
                    return Some(AuthorizedUser { user: &v[i] });
                }
                i += 1;
            }
            None
        },
    }
}

/// The two halves of `user:password`, split at the first `:`.
pub open spec fn split_credentials(s: Seq<char>) -> Option<(Seq<char>, Seq<char>)> {
    if exists|i: int| 0 <= i < s.len() && s[i] == ':' {
        let i = choose|i: int|
            0 <= i < s.len() && s[i] == ':' && forall|j: int| 0 <= j < i ==> s[j] != ':';
        Some((s.take(i), s.skip(i + 1)))
    } else {
        None
    }
}

/// Splits `user:password` at the first `:`.
pub fn parse_credentials(auth: &Vec<char>) -> (r: Option<(Vec<char>, Vec<char>)>)
    ensures
        match r {
            Some(p) => split_credentials(auth@) == Some((p.0@, p.1@)),
            None => split_credentials(auth@) is None,
        },
{
    let mut i: usize = 0;
    while i < auth.len()
        invariant
            i <= auth@.len(),
            forall|j: int| 0 <= j < i ==> auth@[j] != ':',
        decreases auth.len() - i,
    {
        if auth[i] == ':' {
            let mut user: Vec<char> = Vec::new();
            let mut pass: Vec<char> = Vec::new();
            let mut k: usize = 0;
            while k < auth.len()
                invariant
                    i < auth@.len(),
                    k <= auth@.len(),
                    user@ == auth@.take(if k <= i { k as int } else { i as int }),
                    pass@ == (if k <= i + 1 { Seq::<char>::empty() } else { auth@.subrange(i + 1, k as int) }),
                decreases auth.len() - k,
            {
                if k < i {
                    user.push(auth[k]);
                } else if k > i {
                    pass.push(auth[k]);
                }
                proof {
                    assert(auth@.take(k + 1) =~= auth@.take(k as int).push(auth@[k as int]));
                    if k > i + 1 {
                        assert(auth@.subrange(i + 1, k + 1) =~= auth@.subrange(i + 1, k as int).push(auth@[k as int]));
                    }
                    if k == i + 1 {
                        assert(auth@.subrange(i + 1, k + 1) =~= seq![auth@[k as int]]);
                    }
                }
                k += 1;
            }
            proof {
                let s = auth@;
                assert(0 <= i < s.len() && s[i as int] == ':');
                let c = choose|c: int|
                    0 <= c < s.len() && s[c] == ':' && forall|j: int| 0 <= j < c ==> s[j] != ':';
                assert(c == i) by {
                    if c < i {
                        assert(s[c] != ':');
                    }
                    if c > i {
                        assert(s[i as int] != ':');
                    }
                }
                if i + 1 == s.len() {
                    assert(s.skip(i + 1) =~= Seq::<char>::empty());
                } else {
                    assert(s.skip(i + 1) =~= s.subrange(i + 1, s.len() as int));
                }
            }
            return Some((user, pass));
        }
        i += 1;
    }
    None
}

/// The answer format that a request asks for.
#[derive(Debug, Clone, Copy, PartialEq, Eq)]
pub enum ExpectedFormat {
    Json,
    Csv,
}

/// `Csv` when the first `format` parameter of the query is `csv`, else `Json`.
pub open spec fn expected_format(query: Seq<(Seq<char>, Seq<char>)>) -> ExpectedFormat
    decreases query.len(),
{
    if query.len() == 0 {
        ExpectedFormat::Json
    } else if query[0].0 == seq!['f', 'o', 'r', 'm', 'a', 't'] {
        if query[0].1 == seq!['c', 's', 'v'] {
            ExpectedFormat::Csv
        } else {
            ExpectedFormat::Json
        }
    } else {
        expected_format(query.drop_first())
    }
}

impl ExpectedFormat {
    /// The format that the query's parameters ask for.
    pub fn from_query(query: &Vec<(String, String)>) -> (r: ExpectedFormat)
        ensures
            r == expected_format(query@.map_values(|p: (String, String)| (p.0@, p.1@))),
    {
        let ghost all = query@.map_values(|p: (String, String)| (p.0@, p.1@));
        let format_key = "format".to_owned();
        let csv = "csv".to_owned();
        proof {
            reveal_strlit("format");
            reveal_strlit("csv");
            assert(format_key@ =~= seq!['f', 'o', 'r', 'm', 'a', 't']);
            assert(csv@ =~= seq!['c', 's', 'v']);
        }
        let mut i: usize = 0;
        assert(all.subrange(0, all.len() as int) =~= all);
        while i < query.len()
            invariant
                i <= query@.len(),
                all == query@.map_values(|p: (String, String)| (p.0@, p.1@)),
                format_key@ == seq!['f', 'o', 'r', 'm', 'a', 't'],
                csv@ == seq!['c', 's', 'v'],
                expected_format(all) == expected_format(all.subrange(i as int, all.len() as int)),
            decreases query.len() - i,
        {
            assert(all.subrange(i as int, all.len() as int).drop_first() =~= all.subrange(
                i + 1,
                all.len() as int,
            ));
            if query[i].0 == format_key {
                return if query[i].1 == csv {
                    ExpectedFormat::Csv
                } else {
                    ExpectedFormat::Json
                };
            }
            i += 1;
        }
        ExpectedFormat::Json
    }
}

/// Proof that a request passed the rate limit.
#[derive(Debug)]
pub struct Ratelimit;

/// The positions of the earlier requests younger than the window, in order.
pub open spec fn recent_positions(ages_ms: Seq<u128>, window_ms: u128) -> Seq<usize>
    decreases ages_ms.len(),
{
    if ages_ms.len() == 0 {
        Seq::empty()
    } else {
        let prior = recent_positions(ages_ms.drop_last(), window_ms);
        if ages_ms.last() < window_ms {
            prior.push((ages_ms.len() - 1) as usize)
        } else {
            prior
        }
    }
}

/// Of the ages of an address's earlier requests, the positions of those still
/// inside the window.
pub fn keep_recent(ages_ms: &Vec<u128>, window_ms: u128) -> (r: Vec<usize>)
    ensures
        r@ == recent_positions(ages_ms@, window_ms),
{
    let mut out: Vec<usize> = Vec::new();
    let mut i: usize = 0;
    while i < ages_ms.len()
        invariant
            i <= ages_ms@.len(),
            out@ == recent_positions(ages_ms@.take(i as int), window_ms),
        decreases ages_ms.len() - i,
    {
        assert(ages_ms@.take(i + 1).drop_last() =~= ages_ms@.take(i as int));
        if ages_ms[i] < window_ms {
            out.push(i);
        }
        i += 1;
    }
    assert(ages_ms@.take(ages_ms@.len() as int) =~= ages_ms@);
    out
}

/// Whether one more request is allowed, given how many are inside the window.
pub fn admits(recent: usize, limit: usize) -> (r: bool)
    ensures
        r == (recent < limit),
{
    recent < limit
}

} // verus!
