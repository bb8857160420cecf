//! Authentication state: bearer tokens mapped to user ids with a time to live,
//! and the user a valid token stands for.

use crate::error::AppResult;
use crate::ids::UserId;
use crate::model::user::{Role, User};
use vstd::prelude::*;

verus! {

/// An opaque bearer token.
#[derive(Debug, PartialEq, Eq)]
pub struct AccessToken(pub String);

impl Clone for AccessToken {
    fn clone(&self) -> (r: Self)
        ensures
            r == *self,
    {
        AccessToken(self.0.clone())
    }
}

/// One entry of the token store: the user a token stands for, and the time
/// (microseconds since the Unix epoch) from which it no longer counts.
#[derive(Debug)]
pub struct TokenEntry {
    pub token: String,
    pub user_id: UserId,
    pub expires_at: i64,
}

/// The mapping that a sequence of entries with distinct tokens holds.
pub open spec fn token_map(s: Seq<TokenEntry>) -> Map<Seq<char>, (UserId, i64)>
    decreases s.len(),
{
    if s.len() == 0 {
        Map::empty()
    } else {
        token_map(s.drop_last()).insert(s.last().token@, (s.last().user_id, s.last().expires_at))
    }
}

pub open spec fn tokens_distinct(s: Seq<TokenEntry>) -> bool {
    forall|i: int, j: int| 0 <= i < j < s.len() ==> #[trigger] s[i].token@ != #[trigger] s[j].token@
}

/// The time at which an entry made at `now` with time to live `ttl` (in
/// microseconds) expires, capped at the largest time.
pub open spec fn expiry(now: i64, ttl: u64) -> i64 {
    if now + ttl > i64::MAX {
        i64::MAX
    } else {
        (now + ttl) as i64
    }
}

/// The entries of a mapping that are still valid at time `now`.
pub open spec fn unexpired(m: Map<Seq<char>, (UserId, i64)>, now: i64) -> Map<
    Seq<char>,
    (UserId, i64),
> {
    Map::new(|k: Seq<char>| m.contains_key(k) && now < m[k].1, |k: Seq<char>| m[k])
}

proof fn lemma_token_map_dom(s: Seq<TokenEntry>, k: Seq<char>)
    ensures
        token_map(s).contains_key(k) <==> exists|i: int| 0 <= i < s.len() && #[trigger] s[i].token@ == k,
    decreases s.len(),
{
    if s.len() > 0 {
        let d = s.drop_last();
        lemma_token_map_dom(d, k);
        if exists|i: int| 0 <= i < s.len() && #[trigger] s[i].token@ == k {
            let i = choose|i: int| 0 <= i < s.len() && #[trigger] s[i].token@ == k;
            if i < s.len() - 1 {
                assert(d[i] == s[i]);
            }
        }
        if exists|i: int| 0 <= i < d.len() && #[trigger] d[i].token@ == k {
            let i = choose|i: int| 0 <= i < d.len() && #[trigger] d[i].token@ == k;
            assert(d[i] == s[i]);
        }
    }
}

proof fn lemma_token_map_remove(s: Seq<TokenEntry>, i: int)
    requires
        tokens_distinct(s),
        0 <= i < s.len(),
    ensures
        token_map(s.remove(i)) == token_map(s).remove(s[i].token@),
        tokens_distinct(s.remove(i)),
    decreases s.len(),
{
    let k = s[i].token@;
    let d = s.drop_last();
    let r = s.remove(i);
    assert forall|a: int, b: int| 0 <= a < b < r.len() implies #[trigger] r[a].token@
        != #[trigger] r[b].token@ by {
        let a0 = if a < i { a } else { a + 1 };
        let b0 = if b < i { b } else { b + 1 };
        assert(r[a] == s[a0] && r[b] == s[b0]);
    }
    assert forall|a: int, b: int| 0 <= a < b < d.len() implies #[trigger] d[a].token@
        != #[trigger] d[b].token@ by {
        assert(d[a] == s[a] && d[b] == s[b]);
    }
    if i == s.len() - 1 {
        assert(r =~= d);
        lemma_token_map_dom(d, k);
        assert forall|j: int| 0 <= j < d.len() implies #[trigger] d[j].token@ != k by {
            assert(d[j] == s[j]);
        }
        assert(token_map(r) =~= token_map(s).remove(k));
    } else {
        lemma_token_map_remove(d, i);
        assert(r.drop_last() =~= d.remove(i));
        assert(r.last() == s.last());
        assert(s.last().token@ != k);
        assert(token_map(r) =~= token_map(s).remove(k));
    }
}

/// The token store: a time-bounded mapping from bearer token to user id.
pub struct AuthRepositoryImpl {
    entries: Vec<TokenEntry>,
    ttl: u64,
}

impl View for AuthRepositoryImpl {
    type V = Map<Seq<char>, (UserId, i64)>;

    closed spec fn view(&self) -> Map<Seq<char>, (UserId, i64)> {
        token_map(self.entries@)
    }
}

impl AuthRepositoryImpl {
    /// The store's invariant holds: no token appears twice.
    pub closed spec fn wf(&self) -> bool {
        tokens_distinct(self.entries@)
    }

    /// The time to live given to each new token.
    pub closed spec fn spec_ttl(&self) -> u64 {
        self.ttl
    }

    /// An empty store whose tokens live `ttl` microseconds.
    pub fn new(ttl: u64) -> (r: AuthRepositoryImpl)
        ensures
            r.wf(),
            r@ == Map::<Seq<char>, (UserId, i64)>::empty(),
            r.spec_ttl() == ttl,
    {
        AuthRepositoryImpl { entries: Vec::new(), ttl }
    }

    pub fn ttl(&self) -> (r: u64)
        ensures
            r == self.spec_ttl(),
    {
        self.ttl
    }

    fn position(&self, token: &String) -> (r: Option<usize>)
        ensures
            r is None ==> forall|i: int|
                0 <= i < self.entries@.len() ==> #[trigger] self.entries@[i].token@ != token@,
            r matches Some(i) ==> i < self.entries@.len() && self.entries@[i as int].token@
                == token@,
    {
        let mut i: usize = 0;
        while i < self.entries.len()
            invariant
                i <= self.entries@.len(),
                forall|k: int| 0 <= k < i ==> #[trigger] self.entries@[k].token@ != token@,
            decreases self.entries@.len() - i,
        {
            if self.entries[i].token == *token {
                return Some(i);
            }
            i = i + 1;
        }
        None
    }

    /// Maps `token` to `user_id` until `now` plus the time to live, replacing
    /// any earlier entry of the same token, and hands the token back.
    pub fn create_token(&mut self, user_id: UserId, token: AccessToken, now: i64) -> (r:
        AppResult<AccessToken>)
        requires
            old(self).wf(),
        ensures
            final(self).wf(),
            final(self).spec_ttl() == old(self).spec_ttl(),
            final(self)@ == old(self)@.insert(token.0@, (user_id, expiry(now, old(self).spec_ttl()))),
            r == Ok::<AccessToken, crate::error::AppError>(token),
    {
        let sum: i128 = now as i128 + self.ttl as i128;
        let expires_at: i64 = if sum > i64::MAX as i128 {
            i64::MAX
        } else {
            sum as i64
        };
        let ghost s0 = self.entries@;
        match self.position(&token.0) {
            Some(i) => {
                proof {
                    lemma_token_map_remove(s0, i as int);
                }
                self.entries.remove(i);
            },
            None => {
                proof {
                    lemma_token_map_dom(s0, token.0@);
                }
            },
        }
        let ghost s1 = self.entries@;
        assert(!token_map(s1).contains_key(token.0@)) by {
            lemma_token_map_dom(s1, token.0@);
        }
        self.entries.push(TokenEntry { token: token.0.clone(), user_id, expires_at });
        proof {
            let s2 = self.entries@;
            assert(s2.drop_last() == s1);
            assert forall|a: int, b: int| 0 <= a < b < s2.len() implies #[trigger] s2[a].token@
                != #[trigger] s2[b].token@ by {
                if b == s2.len() - 1 {
                    assert(s2[a] == s1[a]);
                    lemma_token_map_dom(s1, token.0@);
                } else {
                    assert(s2[a] == s1[a] && s2[b] == s1[b]);
                }
            }
            assert(token_map(s2) =~= token_map(s0).insert(token.0@, (user_id, expires_at)));
        }
        Ok(token)
    }

    /// Drops every entry that has expired at time `now`.
    pub fn evict_expired(&mut self, now: i64)
        requires
            old(self).wf(),
        ensures
            final(self).wf(),
            final(self).spec_ttl() == old(self).spec_ttl(),
            final(self)@ == unexpired(old(self)@, now),
    {
        let ghost s = self.entries@;
        let mut kept: Vec<TokenEntry> = Vec::new();
        let mut i: usize = 0;
        while i < self.entries.len()
            invariant
                s == self.entries@,
                tokens_distinct(s),
                i <= s.len(),
                tokens_distinct(kept@),
                forall|k: int|
                    0 <= k < kept@.len() ==> exists|j: int|
                        0 <= j < i && #[trigger] kept@[k].token@ == s[j].token@,
                token_map(kept@) == unexpired(token_map(s.subrange(0, i as int)), now),
            decreases s.len() - i,
        {
            let e = &self.entries[i];
            let ghost prev = s.subrange(0, i as int);
            assert(s.subrange(0, i + 1).drop_last() =~= prev);
            proof {
                lemma_token_map_dom(prev, s[i as int].token@);
                assert forall|j: int| 0 <= j < prev.len() implies #[trigger] prev[j].token@
                    != s[i as int].token@ by {
                    assert(prev[j] == s[j]);
                }
            }
            if now < e.expires_at {
                let ghost k0 = kept@;
                kept.push(TokenEntry { token: e.token.clone(), user_id: e.user_id, expires_at: e.expires_at });
                proof {
                    let a = kept@;
                    assert(a.drop_last() == k0);
                    assert forall|x: int, y: int| 0 <= x < y < a.len() implies #[trigger] a[x].token@
                        != #[trigger] a[y].token@ by {
                        assert(a[x] == k0[x]);
                        if y < k0.len() {
                            assert(a[y] == k0[y]);
                        } else {
                            let j = choose|j: int| 0 <= j < i && #[trigger] k0[x].token@ == s[j].token@;
                            assert(s[j].token@ != s[i as int].token@);
                        }
                    }
                    assert forall|x: int| 0 <= x < a.len() implies exists|j: int|
                        0 <= j < i + 1 && #[trigger] a[x].token@ == s[j].token@ by {
                        if x < k0.len() {
                            assert(a[x] == k0[x]);
                            let j = choose|j: int| 0 <= j < i && #[trigger] k0[x].token@ == s[j].token@;
                        } else {
                            assert(a[x].token@ == s[i as int].token@);
                        }
                    }
                    assert(token_map(a) =~= unexpired(token_map(s.subrange(0, i + 1)), now));
                }
            } else {
                proof {
                    assert forall|x: int| 0 <= x < kept@.len() implies exists|j: int|
                        0 <= j < i + 1 && #[trigger] kept@[x].token@ == s[j].token@ by {
                        let j = choose|j: int| 0 <= j < i && #[trigger] kept@[x].token@ == s[j].token@;
                    }
                    assert(token_map(kept@) =~= unexpired(token_map(s.subrange(0, i + 1)), now));
                }
            }
            i = i + 1;
        }
        assert(s.subrange(0, i as int) =~= s);
        self.entries = kept;
    }

    /// Removes the entry of `token`; removing an absent token succeeds too.
    pub fn delete_token(&mut self, access_token: AccessToken) -> (r: AppResult<()>)
        requires
            old(self).wf(),
        ensures
            final(self).wf(),
            final(self).spec_ttl() == old(self).spec_ttl(),
            final(self)@ == old(self)@.remove(access_token.0@),
            r is Ok,
    {
        let ghost s0 = self.entries@;
        match self.position(&access_token.0) {
            Some(i) => {
                proof {
                    lemma_token_map_remove(s0, i as int);
                }
                self.entries.remove(i);
            },
            None => {
                proof {
                    lemma_token_map_dom(s0, access_token.0@);
                    assert(token_map(s0).remove(access_token.0@) =~= token_map(s0));
                }
            },
        }
        Ok(())
    }

    /// The user a token stands for at time `now`: present and not expired.
    pub fn fetch_user_id_from_token(&self, access_token: &AccessToken, now: i64) -> (r: AppResult<
        Option<UserId>,
    >)
        requires
            self.wf(),
        ensures
            r == Ok::<Option<UserId>, crate::error::AppError>(
                if self@.contains_key(access_token.0@) && now < self@[access_token.0@].1 {
                    Some(self@[access_token.0@].0)
                } else {
                    None
                },
            ),
    {
        match self.position(&access_token.0) {
            Some(i) => {
                proof {
                    lemma_token_map_remove(self.entries@, i as int);
                    let s = self.entries@;
                    let k = access_token.0@;
                    lemma_token_map_dom(s.remove(i as int), k);
                    assert forall|j: int|
                        0 <= j < s.remove(i as int).len() implies #[trigger] s.remove(
                        i as int,
                    )[j].token@ != k by {
                        let j0 = if j < i { j } else { j + 1 };
                        assert(s.remove(i as int)[j] == s[j0]);
                    }
                    lemma_token_value(s, i as int);
                }
                let e = &self.entries[i];
                if now < e.expires_at {
                    Ok(Some(e.user_id))
                } else {
                    Ok(None)
                }
            },
            None => {
                proof {
                    lemma_token_map_dom(self.entries@, access_token.0@);
                }
                Ok(None)
            },
        }
    }
}

/// In a sequence of distinct tokens, the mapping holds each entry's values.
proof fn lemma_token_value(s: Seq<TokenEntry>, i: int)
    requires
        tokens_distinct(s),
        0 <= i < s.len(),
    ensures
        token_map(s).contains_key(s[i].token@),
        token_map(s)[s[i].token@] == (s[i].user_id, s[i].expires_at),
    decreases s.len(),
{
    let d = s.drop_last();
    if i < s.len() - 1 {
        assert(d[i] == s[i]);
        assert forall|a: int, b: int| 0 <= a < b < d.len() implies #[trigger] d[a].token@
            != #[trigger] d[b].token@ by {
            assert(d[a] == s[a] && d[b] == s[b]);
        }
        lemma_token_value(d, i);
        assert(s.last().token@ != s[i].token@);
    }
}

/// The user behind a request, with the token that authenticated it.
#[derive(Debug)]
pub struct AuthorizedUser {
    pub access_token: AccessToken,
    pub user: User,
}

impl AuthorizedUser {
    pub fn id(&self) -> (r: UserId)
        ensures
            r == self.user.id,
    {
        self.user.id()
    }

    pub fn is_admin(&self) -> (r: bool)
        ensures
            r == (self.user.role == Role::Admin),
    {
        match self.user.role {
            Role::Admin => true,
            Role::User => false,
        }
    }
}

} // verus!
