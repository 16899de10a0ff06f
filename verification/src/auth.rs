//! E-mail login: one-time login codes, session tokens, and their expiry.

use vstd::prelude::*;
use vstd::string::*;
use rand::Rng;
use rand::distributions::DistString;
use crate::clock::utc_now;
use crate::crypto::{sha256_hex, sha256_hex_digest};
use crate::text::{decimal, decimal_string, str_eq};
use crate::types::Instant;

verus! {

/// How long a login code stays valid, in seconds.
pub const CODE_EXPIRATION_SECONDS: i64 = 600;

/// How long a session stays valid after it was last used, in seconds.
pub const TOKEN_EXPIRATION_SECONDS: i64 = 604_800;

/// Nanoseconds elapsed from `then` to `now` (negative when `then` is later).
pub open spec fn elapsed_nanos(now: Instant, then: Instant) -> int {
    (now.0 - then.0) * 1_000_000_000 + (now.1 - then.1)
}

/// Whether less than `limit_secs` seconds have passed from `then` to `now`.
pub open spec fn younger_than(now: Instant, then: Instant, limit_secs: i64) -> bool {
    elapsed_nanos(now, then) < limit_secs * 1_000_000_000
}

fn is_younger_than(now: Instant, then: Instant, limit_secs: i64) -> (b: bool)
    requires
        0 <= limit_secs <= 1_000_000_000,
    ensures
        b == younger_than(now, then, limit_secs),
{
    let elapsed: i128 = (now.0 as i128 - then.0 as i128) * 1_000_000_000 + (now.1 as i128
        - then.1 as i128);
    elapsed < (limit_secs as i128) * 1_000_000_000
}

/// A login code mailed to an account, and when it was issued.
pub struct LoginCode {
    pub email_hash: String,
    pub code: String,
    pub issued_at: Instant,
}

/// The login codes waiting to be used, at most one per account.
pub struct CodeStore {
    pub codes: Vec<LoginCode>,
}

/// Whether no account has two codes.
pub open spec fn codes_unique(cs: Seq<LoginCode>) -> bool {
    forall|i: int, j: int|
        0 <= i < j < cs.len() ==> (#[trigger] cs[i]).email_hash@ != (#[trigger] cs[j]).email_hash@
}

/// Whether account `email` has a code waiting.
pub open spec fn has_code(cs: Seq<LoginCode>, email: Seq<char>) -> bool {
    exists|i: int| 0 <= i < cs.len() && (#[trigger] cs[i]).email_hash@ == email
}

/// The code waiting for account `email`, with its issue time.
pub open spec fn pending_code(cs: Seq<LoginCode>, email: Seq<char>) -> Option<(Seq<char>, Instant)> {
    if has_code(cs, email) {
        let i = choose|i: int| 0 <= i < cs.len() && (#[trigger] cs[i]).email_hash@ == email;
        Some((cs[i].code@, cs[i].issued_at))
    } else {
        None
    }
}

proof fn lemma_pending_code_at(cs: Seq<LoginCode>, i: int)
    requires
        codes_unique(cs),
        0 <= i < cs.len(),
    ensures
        pending_code(cs, cs[i].email_hash@) == Some((cs[i].code@, cs[i].issued_at)),
{
    let e = cs[i].email_hash@;
    assert(has_code(cs, e));
    let c = choose|c: int| 0 <= c < cs.len() && (#[trigger] cs[c]).email_hash@ == e;
    if c != i {
        if c < i {
            assert(cs[c].email_hash@ != cs[i].email_hash@);
        } else {
            assert(cs[i].email_hash@ != cs[c].email_hash@);
        }
    }
}

fn find_code(cs: &Vec<LoginCode>, email: &str) -> (r: Option<usize>)
    ensures
        match r {
            Some(i) => i < cs.len() && cs@[i as int].email_hash@ == email@,
            None => !has_code(cs@, email@),
        },
{
    let mut i: usize = 0;
    while i < cs.len()
        invariant
            i <= cs.len(),
            forall|k: int| 0 <= k < i ==> (#[trigger] cs@[k]).email_hash@ != email@,
        decreases cs.len() - i,
    {
        if str_eq(cs[i].email_hash.as_str(), email) {
            return Some(i);
        }
        i = i + 1;
    }
    None
}

impl CodeStore {
    /// Whether no account has two codes.
    pub open spec fn wf(&self) -> bool {
        codes_unique(self.codes@)
    }

    /// No codes.
    pub fn new() -> (s: CodeStore)
        ensures
            s.wf(),
            forall|e: Seq<char>| #[trigger] pending_code(s.codes@, e) is None,
    {
        CodeStore { codes: Vec::new() }
    }

    /// Stores `code` for account `email_hash`, issued at `now`, replacing any
    /// code it had.
    pub fn issue(&mut self, email_hash: String, code: String, now: Instant)
        requires
            old(self).wf(),
        ensures
            final(self).wf(),
            forall|e: Seq<char>| #[trigger] pending_code(final(self).codes@, e) == if e == email_hash@ {
                Some((code@, now))
            } else {
                pending_code(old(self).codes@, e)
            },
    {
        let ghost old_cs = self.codes@;
        let ghost key = email_hash@;
        let ghost entry_code = code@;
        match find_code(&self.codes, email_hash.as_str()) {
            Some(i) => {
                self.codes.set(i, LoginCode { email_hash, code, issued_at: now });
                proof {
                    let cs = self.codes@;
                    assert forall|a: int, b: int| 0 <= a < b < cs.len() implies (#[trigger] cs[a]).email_hash@ != (#[trigger] cs[b]).email_hash@ by {
                        assert(old_cs[a].email_hash@ != old_cs[b].email_hash@);
                    }
                    assert forall|e: Seq<char>| #[trigger] pending_code(cs, e) == if e == key {
                        Some((entry_code, now))
                    } else {
                        pending_code(old_cs, e)
                    } by {
                        if e == key {
                            lemma_pending_code_at(cs, i as int);
                        } else if has_code(cs, e) {
                            let c = choose|c: int| 0 <= c < cs.len() && (#[trigger] cs[c]).email_hash@ == e;
                            lemma_pending_code_at(cs, c);
                            lemma_pending_code_at(old_cs, c);
                        } else {
                            if has_code(old_cs, e) {
                                let c = choose|c: int| 0 <= c < old_cs.len() && (#[trigger] old_cs[c]).email_hash@ == e;
                                assert(cs[c].email_hash@ == e);
                            }
                        }
                    }
                }
            },
            None => {
                self.codes.push(LoginCode { email_hash, code, issued_at: now });
                proof {
                    let cs = self.codes@;
                    let n = old_cs.len() as int;
                    assert forall|a: int, b: int| 0 <= a < b < cs.len() implies (#[trigger] cs[a]).email_hash@ != (#[trigger] cs[b]).email_hash@ by {
                        if b == n {
                            assert(old_cs[a].email_hash@ != key);
                        } else {
                            assert(old_cs[a].email_hash@ != old_cs[b].email_hash@);
                        }
                    }
                    assert forall|e: Seq<char>| #[trigger] pending_code(cs, e) == if e == key {
                        Some((entry_code, now))
                    } else {
                        pending_code(old_cs, e)
                    } by {
                        if e == key {
                            lemma_pending_code_at(cs, n);
                        } else if has_code(cs, e) {
                            let c = choose|c: int| 0 <= c < cs.len() && (#[trigger] cs[c]).email_hash@ == e;
                            lemma_pending_code_at(cs, c);
                            lemma_pending_code_at(old_cs, c);
                        } else {
                            if has_code(old_cs, e) {
                                let c = choose|c: int| 0 <= c < old_cs.len() && (#[trigger] old_cs[c]).email_hash@ == e;
                                assert(cs[c].email_hash@ == e);
                            }
                        }
                    }
                }
            },
        }
    }

    /// Removes and returns the code waiting for account `email_hash`.
    pub fn take(&mut self, email_hash: &str) -> (r: Option<(String, Instant)>)
        requires
            old(self).wf(),
        ensures
            final(self).wf(),
            match r {
                Some((c, t)) => pending_code(old(self).codes@, email_hash@) == Some((c@, t)),
                None => pending_code(old(self).codes@, email_hash@) is None,
            },
            forall|e: Seq<char>| #[trigger] pending_code(final(self).codes@, e) == if e == email_hash@ {
                None
            } else {
                pending_code(old(self).codes@, e)
            },
    {
        let ghost old_cs = self.codes@;
        let ghost key = email_hash@;
        match find_code(&self.codes, email_hash) {
            None => None,
            Some(i) => {
                proof {
                    lemma_pending_code_at(old_cs, i as int);
                }
                let entry = self.codes.remove(i);
                proof {
                    let cs = self.codes@;
                    assert(cs =~= old_cs.remove(i as int));
                    assert forall|a: int| 0 <= a < cs.len() implies #[trigger] cs[a] == (if a < i { old_cs[a] } else { old_cs[a + 1] }) by {}
                    assert forall|a: int, b: int| 0 <= a < b < cs.len() implies (#[trigger] cs[a]).email_hash@ != (#[trigger] cs[b]).email_hash@ by {
                        let oa = if a < i { a } else { a + 1 };
                        let ob = if b < i { b } else { b + 1 };
                        assert(old_cs[oa].email_hash@ != old_cs[ob].email_hash@);
                    }
                    assert forall|e: Seq<char>| #[trigger] pending_code(cs, e) == if e == key {
                        None
                    } else {
                        pending_code(old_cs, e)
                    } by {
                        if has_code(cs, e) {
                            let c = choose|c: int| 0 <= c < cs.len() && (#[trigger] cs[c]).email_hash@ == e;
                            let oc = if c < i { c } else { c + 1 };
                            lemma_pending_code_at(cs, c);
                            lemma_pending_code_at(old_cs, oc);
                            if e == key {
                                assert(old_cs[oc].email_hash@ != old_cs[i as int].email_hash@);
                            }
                        } else if e != key {
                            if has_code(old_cs, e) {
                                let c = choose|c: int| 0 <= c < old_cs.len() && (#[trigger] old_cs[c]).email_hash@ == e;
                                if c < i {
                                    assert(cs[c].email_hash@ == e);
                                } else {
                                    assert(c != i);
                                    assert(cs[c - 1].email_hash@ == e);
                                }
                            }
                        }
                    }
                }
                Some((entry.code, entry.issued_at))
            },
        }
    }

    /// Drops every code issued ten minutes or more before `now`.
    pub fn retain_fresh(&mut self, now: Instant)
        requires
            old(self).wf(),
        ensures
            final(self).wf(),
            forall|e: Seq<char>| #[trigger] pending_code(final(self).codes@, e) == match pending_code(old(self).codes@, e) {
                Some((c, t)) => if younger_than(now, t, CODE_EXPIRATION_SECONDS) {
                    Some((c, t))
                } else {
                    None
                },
                None => None,
            },
    {
        let ghost old_cs = self.codes@;
        let mut kept: Vec<LoginCode> = Vec::new();
        let ghost mut origin: Seq<int> = Seq::empty();
        while self.codes.len() > 0
            invariant
                codes_unique(old_cs),
                self.codes@.len() <= old_cs.len(),
                self.codes@ == old_cs.subrange(old_cs.len() - self.codes@.len(), old_cs.len() as int),
                kept@.len() == origin.len(),
                forall|a: int| 0 <= a < origin.len() ==> 0 <= #[trigger] origin[a] < old_cs.len() - self.codes@.len(),
                forall|a: int, b: int| 0 <= a < b < origin.len() ==> #[trigger] origin[a] < #[trigger] origin[b],
                forall|a: int| 0 <= a < origin.len() ==> #[trigger] kept@[a] == old_cs[origin[a]],
                forall|c: int| 0 <= c < old_cs.len() - self.codes@.len() ==> (younger_than(now, (#[trigger] old_cs[c]).issued_at, CODE_EXPIRATION_SECONDS) <==> exists|a: int| 0 <= a < origin.len() && origin[a] == c),
            decreases self.codes@.len(),
        {
            let ghost pos = old_cs.len() - self.codes@.len();
            let ghost prev = origin;
            let entry = self.codes.remove(0);
            assert(entry == old_cs[pos]);
            assert(self.codes@ =~= old_cs.subrange(old_cs.len() - self.codes@.len(), old_cs.len() as int));
            let keep = is_younger_than(now, entry.issued_at, CODE_EXPIRATION_SECONDS);
            if keep {
                kept.push(entry);
                proof {
                    origin = origin.push(pos);
                }
            }
            proof {
                assert forall|c: int| 0 <= c < old_cs.len() - self.codes@.len() implies (younger_than(now, (#[trigger] old_cs[c]).issued_at, CODE_EXPIRATION_SECONDS) <==> exists|a: int| 0 <= a < origin.len() && origin[a] == c) by {
                    if c == pos {
                        if keep {
                            assert(origin[origin.len() - 1] == c);
                        } else {
                            assert forall|a: int| 0 <= a < origin.len() implies origin[a] != c by {
                                assert(prev[a] < pos);
                            }
                        }
                    } else {
                        if exists|a: int| 0 <= a < prev.len() && prev[a] == c {
                            let a = choose|a: int| 0 <= a < prev.len() && prev[a] == c;
                            assert(origin[a] == c);
                        }
                        if exists|a: int| 0 <= a < origin.len() && origin[a] == c {
                            let a = choose|a: int| 0 <= a < origin.len() && origin[a] == c;
                            if keep && a == origin.len() - 1 {
                                assert(origin[a] == pos);
                            } else {
                                assert(prev[a] == c);
                            }
                        }
                    }
                }
            }
        }
        self.codes = kept;
        proof {
            let cs = self.codes@;
            assert forall|a: int, b: int| 0 <= a < b < cs.len() implies (#[trigger] cs[a]).email_hash@ != (#[trigger] cs[b]).email_hash@ by {
                assert(old_cs[origin[a]].email_hash@ != old_cs[origin[b]].email_hash@);
            }
            assert forall|e: Seq<char>| #[trigger] pending_code(cs, e) == match pending_code(old_cs, e) {
                Some((c, t)) => if younger_than(now, t, CODE_EXPIRATION_SECONDS) {
                    Some((c, t))
                } else {
                    None
                },
                None => None,
            } by {
                if has_code(cs, e) {
                    let a = choose|a: int| 0 <= a < cs.len() && (#[trigger] cs[a]).email_hash@ == e;
                    lemma_pending_code_at(cs, a);
                    lemma_pending_code_at(old_cs, origin[a]);
                    assert(exists|x: int| 0 <= x < origin.len() && origin[x] == origin[a]);
                } else if has_code(old_cs, e) {
                    let c = choose|c: int| 0 <= c < old_cs.len() && (#[trigger] old_cs[c]).email_hash@ == e;
                    lemma_pending_code_at(old_cs, c);
                    if younger_than(now, old_cs[c].issued_at, CODE_EXPIRATION_SECONDS) {
                        let a = choose|a: int| 0 <= a < origin.len() && origin[a] == c;
                        assert(cs[a].email_hash@ == e);
                    }
                }
            }
        }
    }
}

/// An account's live session tokens and when one was last used.
pub struct Session {
    pub email_hash: String,
    pub tokens: Vec<String>,
    pub last_seen: Instant,
}

/// The sessions of all accounts, at most one entry per account.
pub struct TokenStore {
    pub sessions: Vec<Session>,
}

/// The texts of a list of strings.
pub open spec fn text_views(ts: Seq<String>) -> Seq<Seq<char>> {
    ts.map_values(|t: String| t@)
}

/// The texts of a session's tokens.
pub open spec fn token_views(s: Session) -> Seq<Seq<char>> {
    text_views(s.tokens@)
}

proof fn lemma_singleton_to_set(x: Seq<char>)
    ensures
        seq![x].to_set() == Set::<Seq<char>>::empty().insert(x),
{
    assert forall|y: Seq<char>| seq![x].to_set().contains(y) <==> Set::<Seq<char>>::empty().insert(x).contains(y) by {
        if y == x {
            assert(seq![x][0] == y);
        }
    }
    assert(seq![x].to_set() =~= Set::<Seq<char>>::empty().insert(x));
}

/// What a session holds: its set of tokens and when one was last used.
pub open spec fn session_view(s: Session) -> (Set<Seq<char>>, Instant) {
    (token_views(s).to_set(), s.last_seen)
}

/// Whether a session holds at least one token and none twice.
pub open spec fn session_ok(s: Session) -> bool {
    token_views(s).len() > 0 && token_views(s).no_duplicates()
}

/// Whether no account has two sessions and every session is well formed.
pub open spec fn sessions_wf(ss: Seq<Session>) -> bool {
    &&& forall|i: int, j: int|
        0 <= i < j < ss.len() ==> (#[trigger] ss[i]).email_hash@ != (#[trigger] ss[j]).email_hash@
    &&& forall|i: int| 0 <= i < ss.len() ==> session_ok(#[trigger] ss[i])
}

/// Whether account `email` has a session.
pub open spec fn has_session(ss: Seq<Session>, email: Seq<char>) -> bool {
    exists|i: int| 0 <= i < ss.len() && (#[trigger] ss[i]).email_hash@ == email
}

/// The session of account `email`: its tokens and when one was last used.
pub open spec fn session_of(ss: Seq<Session>, email: Seq<char>) -> Option<(Set<Seq<char>>, Instant)> {
    if has_session(ss, email) {
        let i = choose|i: int| 0 <= i < ss.len() && (#[trigger] ss[i]).email_hash@ == email;
        Some(session_view(ss[i]))
    } else {
        None
    }
}

/// Whether `token` is a live token of account `email`.
pub open spec fn token_valid(ss: Seq<Session>, email: Seq<char>, token: Seq<char>) -> bool {
    match session_of(ss, email) {
        Some((tokens, _)) => tokens.contains(token),
        None => false,
    }
}

proof fn lemma_session_at(ss: Seq<Session>, i: int)
    requires
        sessions_wf(ss),
        0 <= i < ss.len(),
    ensures
        session_of(ss, ss[i].email_hash@) == Some(session_view(ss[i])),
{
    let e = ss[i].email_hash@;
    assert(has_session(ss, e));
    let c = choose|c: int| 0 <= c < ss.len() && (#[trigger] ss[c]).email_hash@ == e;
    if c < i {
        assert(ss[c].email_hash@ != ss[i].email_hash@);
    } else if c > i {
        assert(ss[i].email_hash@ != ss[c].email_hash@);
    }
}

proof fn lemma_session_replaced(old_ss: Seq<Session>, i: int, s: Session)
    requires
        sessions_wf(old_ss),
        0 <= i < old_ss.len(),
        s.email_hash@ == old_ss[i].email_hash@,
        session_ok(s),
    ensures
        sessions_wf(old_ss.update(i, s)),
        forall|e: Seq<char>| #[trigger] session_of(old_ss.update(i, s), e) == if e == s.email_hash@ {
            Some(session_view(s))
        } else {
            session_of(old_ss, e)
        },
{
    let ss = old_ss.update(i, s);
    assert forall|a: int, b: int| 0 <= a < b < ss.len() implies (#[trigger] ss[a]).email_hash@ != (#[trigger] ss[b]).email_hash@ by {
        assert(old_ss[a].email_hash@ != old_ss[b].email_hash@);
    }
    assert forall|a: int| 0 <= a < ss.len() implies session_ok(#[trigger] ss[a]) by {
        if a != i {
            assert(session_ok(old_ss[a]));
        }
    }
    assert forall|e: Seq<char>| #[trigger] session_of(ss, e) == if e == s.email_hash@ {
        Some(session_view(s))
    } else {
        session_of(old_ss, e)
    } by {
        if e == s.email_hash@ {
            lemma_session_at(ss, i);
        } else if has_session(ss, e) {
            let c = choose|c: int| 0 <= c < ss.len() && (#[trigger] ss[c]).email_hash@ == e;
            lemma_session_at(ss, c);
            lemma_session_at(old_ss, c);
        } else if has_session(old_ss, e) {
            let c = choose|c: int| 0 <= c < old_ss.len() && (#[trigger] old_ss[c]).email_hash@ == e;
            assert(ss[c].email_hash@ == e);
        }
    }
}

proof fn lemma_session_removed(old_ss: Seq<Session>, i: int)
    requires
        sessions_wf(old_ss),
        0 <= i < old_ss.len(),
    ensures
        sessions_wf(old_ss.remove(i)),
        forall|e: Seq<char>| #[trigger] session_of(old_ss.remove(i), e) == if e == old_ss[i].email_hash@ {
            None
        } else {
            session_of(old_ss, e)
        },
{
    let ss = old_ss.remove(i);
    let key = old_ss[i].email_hash@;
    assert forall|a: int| 0 <= a < ss.len() implies #[trigger] ss[a] == (if a < i { old_ss[a] } else { old_ss[a + 1] }) by {}
    assert forall|a: int, b: int| 0 <= a < b < ss.len() implies (#[trigger] ss[a]).email_hash@ != (#[trigger] ss[b]).email_hash@ by {
        let oa = if a < i { a } else { a + 1 };
        let ob = if b < i { b } else { b + 1 };
        assert(old_ss[oa].email_hash@ != old_ss[ob].email_hash@);
    }
    assert forall|a: int| 0 <= a < ss.len() implies session_ok(#[trigger] ss[a]) by {
        let oa = if a < i { a } else { a + 1 };
        assert(session_ok(old_ss[oa]));
    }
    assert forall|e: Seq<char>| #[trigger] session_of(ss, e) == if e == key {
        None
    } else {
        session_of(old_ss, e)
    } by {
        if has_session(ss, e) {
            let c = choose|c: int| 0 <= c < ss.len() && (#[trigger] ss[c]).email_hash@ == e;
            let oc = if c < i { c } else { c + 1 };
            lemma_session_at(ss, c);
            lemma_session_at(old_ss, oc);
            if e == key {
                if oc < i {
                    assert(old_ss[oc].email_hash@ != old_ss[i].email_hash@);
                } else {
                    assert(old_ss[i].email_hash@ != old_ss[oc].email_hash@);
                }
            }
        } else if e != key && has_session(old_ss, e) {
            let c = choose|c: int| 0 <= c < old_ss.len() && (#[trigger] old_ss[c]).email_hash@ == e;
            if c < i {
                assert(ss[c].email_hash@ == e);
            } else {
                assert(ss[c - 1].email_hash@ == e);
            }
        }
    }
}

proof fn lemma_session_added(old_ss: Seq<Session>, s: Session)
    requires
        sessions_wf(old_ss),
        !has_session(old_ss, s.email_hash@),
        session_ok(s),
    ensures
        sessions_wf(old_ss.push(s)),
        forall|e: Seq<char>| #[trigger] session_of(old_ss.push(s), e) == if e == s.email_hash@ {
            Some(session_view(s))
        } else {
            session_of(old_ss, e)
        },
{
    let ss = old_ss.push(s);
    let n = old_ss.len() as int;
    assert forall|a: int, b: int| 0 <= a < b < ss.len() implies (#[trigger] ss[a]).email_hash@ != (#[trigger] ss[b]).email_hash@ by {
        if b == n {
            assert(old_ss[a].email_hash@ != s.email_hash@);
        } else {
            assert(old_ss[a].email_hash@ != old_ss[b].email_hash@);
        }
    }
    assert forall|a: int| 0 <= a < ss.len() implies session_ok(#[trigger] ss[a]) by {
        if a < n {
            assert(session_ok(old_ss[a]));
        }
    }
    assert forall|e: Seq<char>| #[trigger] session_of(ss, e) == if e == s.email_hash@ {
        Some(session_view(s))
    } else {
        session_of(old_ss, e)
    } by {
        if e == s.email_hash@ {
            lemma_session_at(ss, n);
        } else if has_session(ss, e) {
            let c = choose|c: int| 0 <= c < ss.len() && (#[trigger] ss[c]).email_hash@ == e;
            lemma_session_at(ss, c);
            lemma_session_at(old_ss, c);
        } else if has_session(old_ss, e) {
            let c = choose|c: int| 0 <= c < old_ss.len() && (#[trigger] old_ss[c]).email_hash@ == e;
            assert(ss[c].email_hash@ == e);
        }
    }
}

fn find_session(ss: &Vec<Session>, email: &str) -> (r: Option<usize>)
    ensures
        match r {
            Some(i) => i < ss.len() && ss@[i as int].email_hash@ == email@,
            None => !has_session(ss@, email@),
        },
{
    let mut i: usize = 0;
    while i < ss.len()
        invariant
            i <= ss.len(),
            forall|k: int| 0 <= k < i ==> (#[trigger] ss@[k]).email_hash@ != email@,
        decreases ss.len() - i,
    {
        if str_eq(ss[i].email_hash.as_str(), email) {
            return Some(i);
        }
        i = i + 1;
    }
    None
}

fn find_token(tokens: &Vec<String>, token: &str) -> (r: Option<usize>)
    ensures
        match r {
            Some(k) => k < tokens.len() && tokens@[k as int]@ == token@,
            None => !text_views(tokens@).contains(token@),
        },
{
    let mut k: usize = 0;
    while k < tokens.len()
        invariant
            k <= tokens.len(),
            forall|j: int| 0 <= j < k ==> (#[trigger] tokens@[j])@ != token@,
        decreases tokens.len() - k,
    {
        if str_eq(tokens[k].as_str(), token) {
            return Some(k);
        }
        k = k + 1;
    }
    proof {
        let views = text_views(tokens@);
        if views.contains(token@) {
            let j = choose|j: int| 0 <= j < views.len() && #[trigger] views[j] == token@;
            assert(tokens@[j]@ != token@);
        }
    }
    None
}

impl TokenStore {
    /// Whether no account has two sessions and every session holds at least
    /// one token, none twice.
    pub open spec fn wf(&self) -> bool {
        sessions_wf(self.sessions@)
    }

    /// No sessions.
    pub fn new() -> (s: TokenStore)
        ensures
            s.wf(),
            forall|e: Seq<char>| #[trigger] session_of(s.sessions@, e) is None,
    {
        TokenStore { sessions: Vec::new() }
    }

    /// Adds `token` to account `email_hash`'s session, opening one if it had
    /// none, and marks the session used at `now`.
    pub fn grant(&mut self, email_hash: String, token: String, now: Instant)
        requires
            old(self).wf(),
        ensures
            final(self).wf(),
            forall|e: Seq<char>| #[trigger] session_of(final(self).sessions@, e) == if e == email_hash@ {
                Some((
                    match session_of(old(self).sessions@, e) {
                        Some((tokens, _)) => tokens.insert(token@),
                        None => Set::empty().insert(token@),
                    },
                    now,
                ))
            } else {
                session_of(old(self).sessions@, e)
            },
    {
        let ghost old_ss = self.sessions@;
        let ghost key = email_hash@;
        let ghost tv = token@;
        match find_session(&self.sessions, email_hash.as_str()) {
            Some(i) => {
                proof {
                    lemma_session_at(old_ss, i as int);
                }
                let mut s = self.sessions.remove(i);
                let ghost before = token_views(s);
                assert(session_ok(s)) by { assert(session_ok(old_ss[i as int])); }
                match find_token(&s.tokens, token.as_str()) {
                    Some(k) => {
                        proof {
                            assert(before[k as int] == tv);
                            assert(before.contains(tv));
                            assert(before.to_set().insert(tv) =~= before.to_set());
                        }
                    },
                    None => {
                        s.tokens.push(token);
                        proof {
                            assert(token_views(s) =~= before.push(tv));
                            assert forall|x: Seq<char>| token_views(s).to_set().contains(x) <==> before.to_set().insert(tv).contains(x) by {
                                if before.contains(x) {
                                    let j = choose|j: int| 0 <= j < before.len() && before[j] == x;
                                    assert(token_views(s)[j] == x);
                                }
                                if x == tv {
                                    assert(token_views(s)[before.len() as int] == x);
                                }
                                if token_views(s).contains(x) {
                                    let j = choose|j: int| 0 <= j < token_views(s).len() && token_views(s)[j] == x;
                                    if j < before.len() {
                                        assert(before[j] == x);
                                    }
                                }
                            }
                            assert(token_views(s).to_set() =~= before.to_set().insert(tv));
                            assert forall|a: int, b: int| 0 <= a < b < token_views(s).len() implies token_views(s)[a] != token_views(s)[b] by {
                                if b == before.len() {
                                    assert(before[a] == token_views(s)[a]);
                                    assert(before.contains(before[a]));
                                }
                            }
                        }
                    },
                }
                s.last_seen = now;
                self.sessions.insert(i, s);
                proof {
                    assert(self.sessions@ =~= old_ss.update(i as int, s));
                    lemma_session_replaced(old_ss, i as int, s);
                }
            },
            None => {
                let mut tokens: Vec<String> = Vec::new();
                tokens.push(token);
                let s = Session { email_hash, tokens, last_seen: now };
                proof {
                    assert(token_views(s) =~= seq![tv]);
                    lemma_singleton_to_set(tv);
                }
                self.sessions.push(s);
                proof {
                    lemma_session_added(old_ss, s);
                }
            },
        }
    }

    /// Checks `token` for account `email_hash`; a valid token marks the
    /// session used at `now`, anything else changes nothing.
    pub fn verify_token(&mut self, email_hash: &str, token: &str, now: Instant) -> (ok: bool)
        requires
            old(self).wf(),
        ensures
            final(self).wf(),
            ok == token_valid(old(self).sessions@, email_hash@, token@),
            forall|e: Seq<char>, t: Seq<char>| #[trigger] token_valid(final(self).sessions@, e, t) == token_valid(old(self).sessions@, e, t),
            forall|e: Seq<char>| #[trigger] session_of(final(self).sessions@, e) == if ok && e == email_hash@ {
                Some((session_of(old(self).sessions@, e).unwrap().0, now))
            } else {
                session_of(old(self).sessions@, e)
            },
    {
        let ghost old_ss = self.sessions@;
        match find_session(&self.sessions, email_hash) {
            None => false,
            Some(i) => {
                proof {
                    lemma_session_at(old_ss, i as int);
                }
                let found = find_token(&self.sessions[i].tokens, token);
                match found {
                    None => {
                        false
                    },
                    Some(k) => {
                        assert(token_views(old_ss[i as int])[k as int] == token@);
                        let mut s = self.sessions.remove(i);
                        assert(session_ok(s)) by { assert(session_ok(old_ss[i as int])); }
                        s.last_seen = now;
                        self.sessions.insert(i, s);
                        proof {
                            assert(self.sessions@ =~= old_ss.update(i as int, s));
                            lemma_session_replaced(old_ss, i as int, s);
                        }
                        true
                    },
                }
            },
        }
    }

    /// Ends `token`'s session for account `email_hash` (every session of the
    /// account when `logout_all`), provided `token` is live; an account left
    /// with no token is forgotten. Anything else changes nothing.
    pub fn logout(&mut self, email_hash: &str, token: &str, logout_all: bool) -> (ok: bool)
        requires
            old(self).wf(),
        ensures
            final(self).wf(),
            ok == token_valid(old(self).sessions@, email_hash@, token@),
            !token_valid(final(self).sessions@, email_hash@, token@),
            forall|e: Seq<char>| #[trigger] session_of(final(self).sessions@, e) == if ok && e == email_hash@ {
                let (tokens, last_seen) = session_of(old(self).sessions@, e).unwrap();
                if logout_all || tokens.remove(token@).len() == 0 {
                    None
                } else {
                    Some((tokens.remove(token@), last_seen))
                }
            } else {
                session_of(old(self).sessions@, e)
            },
    {
        let ghost old_ss = self.sessions@;
        let ghost tv = token@;
        match find_session(&self.sessions, email_hash) {
            None => false,
            Some(i) => {
                proof {
                    lemma_session_at(old_ss, i as int);
                }
                let found = find_token(&self.sessions[i].tokens, token);
                match found {
                    None => false,
                    Some(k) => {
                        let mut s = self.sessions.remove(i);
                        let ghost before = token_views(s);
                        assert(session_ok(s)) by { assert(session_ok(old_ss[i as int])); }
                        proof {
                            before.unique_seq_to_set();
                            assert(before[k as int] == tv);
                        }
                        if logout_all {
                            proof {
                                assert(self.sessions@ =~= old_ss.remove(i as int));
                                lemma_session_removed(old_ss, i as int);
                            }
                            true
                        } else {
                            s.tokens.remove(k);
                            proof {
                                assert(token_views(s) =~= before.remove(k as int));
                                assert(token_views(s).to_set() =~= before.to_set().remove(tv)) by {
                                    assert forall|x: Seq<char>| token_views(s).to_set().contains(x) <==> before.to_set().remove(tv).contains(x) by {
                                        if before.contains(x) && x != tv {
                                            let j = choose|j: int| 0 <= j < before.len() && before[j] == x;
                                            if j < k {
                                                assert(token_views(s)[j] == x);
                                            } else {
                                                assert(j != k);
                                                assert(token_views(s)[j - 1] == x);
                                            }
                                        }
                                        if token_views(s).contains(x) {
                                            let j = choose|j: int| 0 <= j < token_views(s).len() && token_views(s)[j] == x;
                                            let oj = if j < k { j } else { j + 1 };
                                            assert(before[oj] == x);
                                            assert(before[k as int] == tv);
                                            assert(oj != k);
                                        }
                                    }
                                }
                                assert(token_views(s).no_duplicates()) by {
                                    assert forall|a: int, b: int| 0 <= a < b < token_views(s).len() implies token_views(s)[a] != token_views(s)[b] by {
                                        let oa = if a < k { a } else { a + 1 };
                                        let ob = if b < k { b } else { b + 1 };
                                        assert(before[oa] != before[ob]);
                                    }
                                }
                                token_views(s).unique_seq_to_set();
                                before.unique_seq_to_set();
                            }
                            if s.tokens.len() == 0 {
                                proof {
                                    assert(self.sessions@ =~= old_ss.remove(i as int));
                                    lemma_session_removed(old_ss, i as int);
                                }
                                true
                            } else {
                                self.sessions.insert(i, s);
                                proof {
                                    assert(self.sessions@ =~= old_ss.update(i as int, s));
                                    lemma_session_replaced(old_ss, i as int, s);
                                }
                                true
                            }
                        }
                    },
                }
            },
        }
    }

    /// How many live tokens account `email_hash` has, if `token` is one of
    /// them.
    pub fn login_count(&self, email_hash: &str, token: &str) -> (r: Option<usize>)
        requires
            self.wf(),
        ensures
            match r {
                Some(n) => token_valid(self.sessions@, email_hash@, token@) && n == session_of(
                    self.sessions@,
                    email_hash@,
                ).unwrap().0.len(),
                None => !token_valid(self.sessions@, email_hash@, token@),
            },
    {
        match find_session(&self.sessions, email_hash) {
            None => None,
            Some(i) => {
                proof {
                    lemma_session_at(self.sessions@, i as int);
                    assert(session_ok(self.sessions@[i as int]));
                    token_views(self.sessions@[i as int]).unique_seq_to_set();
                }
                match find_token(&self.sessions[i].tokens, token) {
                    None => None,
                    Some(k) => {
                        assert(token_views(self.sessions@[i as int])[k as int] == token@);
                        Some(self.sessions[i].tokens.len())
                    },
                }
            },
        }
    }

    /// Drops every session last used seven days or more before `now`.
    pub fn retain_fresh(&mut self, now: Instant)
        requires
            old(self).wf(),
        ensures
            final(self).wf(),
            forall|e: Seq<char>| #[trigger] session_of(final(self).sessions@, e) == match session_of(old(self).sessions@, e) {
                Some((tokens, t)) => if younger_than(now, t, TOKEN_EXPIRATION_SECONDS) {
                    Some((tokens, t))
                } else {
                    None
                },
                None => None,
            },
    {
        let ghost old_ss = self.sessions@;
        let mut kept: Vec<Session> = Vec::new();
        let ghost mut origin: Seq<int> = Seq::empty();
        while self.sessions.len() > 0
            invariant
                sessions_wf(old_ss),
                self.sessions@.len() <= old_ss.len(),
                self.sessions@ == old_ss.subrange(old_ss.len() - self.sessions@.len(), old_ss.len() as int),
                kept@.len() == origin.len(),
                forall|a: int| 0 <= a < origin.len() ==> 0 <= #[trigger] origin[a] < old_ss.len() - self.sessions@.len(),
                forall|a: int, b: int| 0 <= a < b < origin.len() ==> #[trigger] origin[a] < #[trigger] origin[b],
                forall|a: int| 0 <= a < origin.len() ==> #[trigger] kept@[a] == old_ss[origin[a]],
                forall|c: int| 0 <= c < old_ss.len() - self.sessions@.len() ==> (younger_than(now, (#[trigger] old_ss[c]).last_seen, TOKEN_EXPIRATION_SECONDS) <==> exists|a: int| 0 <= a < origin.len() && origin[a] == c),
            decreases self.sessions@.len(),
        {
            let ghost pos = old_ss.len() - self.sessions@.len();
            let ghost prev = origin;
            let entry = self.sessions.remove(0);
            assert(entry == old_ss[pos]);
            assert(self.sessions@ =~= old_ss.subrange(old_ss.len() - self.sessions@.len(), old_ss.len() as int));
            let keep = is_younger_than(now, entry.last_seen, TOKEN_EXPIRATION_SECONDS);
            if keep {
                kept.push(entry);
                proof {
                    origin = origin.push(pos);
                }
            }
            proof {
                assert forall|c: int| 0 <= c < old_ss.len() - self.sessions@.len() implies (younger_than(now, (#[trigger] old_ss[c]).last_seen, TOKEN_EXPIRATION_SECONDS) <==> exists|a: int| 0 <= a < origin.len() && origin[a] == c) by {
                    if c == pos {
                        if keep {
                            assert(origin[origin.len() - 1] == c);
                        } else {
                            assert forall|a: int| 0 <= a < origin.len() implies origin[a] != c by {
                                assert(prev[a] < pos);
                            }
                        }
                    } else {
                        if exists|a: int| 0 <= a < prev.len() && prev[a] == c {
                            let a = choose|a: int| 0 <= a < prev.len() && prev[a] == c;
                            assert(origin[a] == c);
                        }
                        if exists|a: int| 0 <= a < origin.len() && origin[a] == c {
                            let a = choose|a: int| 0 <= a < origin.len() && origin[a] == c;
                            if keep && a == origin.len() - 1 {
                                assert(origin[a] == pos);
                            } else {
                                assert(prev[a] == c);
                            }
                        }
                    }
                }
            }
        }
        self.sessions = kept;
        proof {
            let ss = self.sessions@;
            assert forall|a: int, b: int| 0 <= a < b < ss.len() implies (#[trigger] ss[a]).email_hash@ != (#[trigger] ss[b]).email_hash@ by {
                assert(old_ss[origin[a]].email_hash@ != old_ss[origin[b]].email_hash@);
            }
            assert forall|a: int| 0 <= a < ss.len() implies session_ok(#[trigger] ss[a]) by {
                assert(session_ok(old_ss[origin[a]]));
            }
            assert forall|e: Seq<char>| #[trigger] session_of(ss, e) == match session_of(old_ss, e) {
                Some((tokens, t)) => if younger_than(now, t, TOKEN_EXPIRATION_SECONDS) {
                    Some((tokens, t))
                } else {
                    None
                },
                None => None,
            } by {
                if has_session(ss, e) {
                    let a = choose|a: int| 0 <= a < ss.len() && (#[trigger] ss[a]).email_hash@ == e;
                    lemma_session_at(ss, a);
                    lemma_session_at(old_ss, origin[a]);
                    assert(exists|x: int| 0 <= x < origin.len() && origin[x] == origin[a]);
                } else if has_session(old_ss, e) {
                    let c = choose|c: int| 0 <= c < old_ss.len() && (#[trigger] old_ss[c]).email_hash@ == e;
                    lemma_session_at(old_ss, c);
                    if younger_than(now, old_ss[c].last_seen, TOKEN_EXPIRATION_SECONDS) {
                        let a = choose|a: int| 0 <= a < origin.len() && origin[a] == c;
                        assert(ss[a].email_hash@ == e);
                    }
                }
            }
        }
    }
}

/// Whether `c` is an ASCII letter or digit.
pub open spec fn is_ascii_alphanumeric(c: char) -> bool {
    ('a' <= c <= 'z') || ('A' <= c <= 'Z') || ('0' <= c <= '9')
}

/// Draws a login code with `rand::thread_rng().gen_range(100000..1000000)`.
/// The contract states what `gen_range` documents of every draw: it lies in
/// the half-open range (which is not empty, so the call does not panic).
#[verifier::external_body]
fn random_login_code() -> (n: u32)
    ensures
        100_000 <= n < 1_000_000,
{
    rand::thread_rng().gen_range(100_000..1_000_000)
}

/// Draws a session token with `rand::distributions::Alphanumeric` and
/// `sample_string(.., 64)`. The contract states what holds of every draw:
/// `sample_string` appends exactly 64 characters, each taken from
/// `A`-`Z`, `a`-`z` and `0`-`9`.
#[verifier::external_body]
fn random_session_token() -> (t: String)
    ensures
        t@.len() == 64,
        forall|i: int| 0 <= i < t@.len() ==> is_ascii_alphanumeric(#[trigger] t@[i]),
{
    rand::distributions::Alphanumeric.sample_string(&mut rand::thread_rng(), 64)
}

/// Stores a fresh login code for the account of `email` (keyed by the
/// SHA-256 hex digest of the address), replacing any code it had, and returns
/// the account key and the code to mail: six decimal digits.
pub fn issue_login_code(codes: &mut CodeStore, email: &str) -> (r: (String, String))
    requires
        old(codes).wf(),
    ensures
        final(codes).wf(),
        r.0@ == sha256_hex_digest(email@),
        exists|n: nat, now: Instant|
            100_000 <= n < 1_000_000 && r.1@ == decimal(n) && #[trigger] pending_code(final(codes).codes@, r.0@) == Some((decimal(n), now)),
        forall|e: Seq<char>| e != r.0@ ==> #[trigger] pending_code(final(codes).codes@, e) == pending_code(old(codes).codes@, e),
{
    let email_hash = sha256_hex(email);
    let n = random_login_code();
    let code = decimal_string(n as u128);
    let clock = utc_now();
    let now: Instant = (clock.secs, clock.nanos);
    let key = email_hash.clone();
    let mailed = code.clone();
    codes.issue(email_hash, code, now);
    assert(pending_code(codes.codes@, key@) == Some((decimal(n as nat), now)));
    (key, mailed)
}

/// Checks a login code with a given new token and time: the account's
/// pending code is used up whatever the outcome; when it equals `code`, the
/// account's session gains `token`, last used at `now`, and the token is
/// returned; otherwise the sessions are left as they were.
pub fn redeem_login_code_with(
    codes: &mut CodeStore,
    tokens: &mut TokenStore,
    email_hash: &str,
    code: &str,
    token: String,
    now: Instant,
) -> (r: Option<String>)
    requires
        old(codes).wf(),
        old(tokens).wf(),
    ensures
        final(codes).wf(),
        final(tokens).wf(),
        forall|e: Seq<char>| #[trigger] pending_code(final(codes).codes@, e) == if e == email_hash@ {
            None
        } else {
            pending_code(old(codes).codes@, e)
        },
        match pending_code(old(codes).codes@, email_hash@) {
            Some((c, _)) if c == code@ => {
                &&& r == Some(token)
                &&& forall|e: Seq<char>| #[trigger] session_of(final(tokens).sessions@, e) == if e == email_hash@ {
                    Some((
                        match session_of(old(tokens).sessions@, e) {
                            Some((ts, _)) => ts.insert(token@),
                            None => Set::empty().insert(token@),
                        },
                        now,
                    ))
                } else {
                    session_of(old(tokens).sessions@, e)
                }
            },
            _ => r is None && final(tokens).sessions@ == old(tokens).sessions@,
        },
{
    match codes.take(email_hash) {
        Some((stored, _)) => {
            if str_eq(stored.as_str(), code) {
                let issued = token.clone();
                tokens.grant(String::from_str(email_hash), token, now);
                Some(issued)
            } else {
                None
            }
        },
        None => None,
    }
}

/// Checks a login code for the account `email_hash` and, when it matches,
/// opens a session with a fresh random 64-character token (see
/// [`redeem_login_code_with`]).
pub fn redeem_login_code(codes: &mut CodeStore, tokens: &mut TokenStore, email_hash: &str, code: &str) -> (r: Option<String>)
    requires
        old(codes).wf(),
        old(tokens).wf(),
    ensures
        final(codes).wf(),
        final(tokens).wf(),
        forall|e: Seq<char>| #[trigger] pending_code(final(codes).codes@, e) == if e == email_hash@ {
            None
        } else {
            pending_code(old(codes).codes@, e)
        },
        match pending_code(old(codes).codes@, email_hash@) {
            Some((c, _)) if c == code@ => r matches Some(t) && t@.len() == 64 && token_valid(final(tokens).sessions@, email_hash@, t@)
                && forall|i: int| 0 <= i < t@.len() ==> is_ascii_alphanumeric(#[trigger] t@[i]),
            _ => r is None && final(tokens).sessions@ == old(tokens).sessions@,
        },
        forall|e: Seq<char>| e != email_hash@ ==> #[trigger] session_of(final(tokens).sessions@, e) == session_of(old(tokens).sessions@, e),
{
    let token = random_session_token();
    let clock = utc_now();
    let now: Instant = (clock.secs, clock.nanos);
    let ghost tv = token@;
    let r = redeem_login_code_with(codes, tokens, email_hash, code, token, now);
    proof {
        if r is Some {
            let got = session_of(tokens.sessions@, email_hash@);
            assert(got.unwrap().0.contains(tv));
        }
    }
    r
}

} // verus!
