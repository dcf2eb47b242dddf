use vstd::prelude::*;

verus! {

/// Most tokens one user holds right after a new one has been issued.
pub const SESSION_CAP: usize = 5;

/// Lifetime of an ordinary session, in seconds (24 hours).
pub const SHORT_SESSION_SECONDS: i64 = 86400;

/// Lifetime of a "remember me" session, in seconds (30 days).
pub const LONG_SESSION_SECONDS: i64 = 2592000;

/// One row of the session table: a bearer token owned by one user.
pub struct SessionToken {
    pub id: u64,
    pub user: i64,
    pub token: String,
    pub expires_at: i64,
}

/// The session table. Rows are kept in the order in which they were issued,
/// so the earliest row of a user is that user's oldest token.
pub struct SessionStore {
    pub rows: Vec<SessionToken>,
    pub next_id: u64,
}

/// Expiry of a session issued at `now`.
pub open spec fn expiry_of(now: int, remember: bool) -> int {
    if remember {
        now + LONG_SESSION_SECONDS
    } else {
        now + SHORT_SESSION_SECONDS
    }
}

/// A row that the lazy sweep of `user`'s tokens at time `now` removes.
pub open spec fn is_stale(r: SessionToken, user: i64, now: i64) -> bool {
    r.user == user && r.expires_at < now
}

/// `rows` without the tokens of `user` that expired before `now`.
pub open spec fn without_stale(rows: Seq<SessionToken>, user: i64, now: i64) -> Seq<SessionToken>
    decreases rows.len(),
{
    if rows.len() == 0 {
        rows
    } else {
        let rest = without_stale(rows.drop_first(), user, now);
        if is_stale(rows[0], user, now) {
            rest
        } else {
            seq![rows[0]] + rest
        }
    }
}

/// Number of rows of `rows` that belong to `user`.
pub open spec fn count_of(rows: Seq<SessionToken>, user: i64) -> nat
    decreases rows.len(),
{
    if rows.len() == 0 {
        0
    } else {
        (if rows[0].user == user {
            1nat
        } else {
            0nat
        }) + count_of(rows.drop_first(), user)
    }
}

/// The rows of `rows` that belong to `user`, in order.
pub open spec fn of_user(rows: Seq<SessionToken>, user: i64) -> Seq<SessionToken>
    decreases rows.len(),
{
    if rows.len() == 0 {
        rows
    } else if rows[0].user == user {
        seq![rows[0]] + of_user(rows.drop_first(), user)
    } else {
        of_user(rows.drop_first(), user)
    }
}

/// `rows` without the `d` oldest tokens of `user`.
pub open spec fn drop_oldest(rows: Seq<SessionToken>, user: i64, d: nat) -> Seq<SessionToken>
    decreases rows.len(),
{
    if rows.len() == 0 {
        rows
    } else if rows[0].user == user && d > 0 {
        drop_oldest(rows.drop_first(), user, (d - 1) as nat)
    } else {
        seq![rows[0]] + drop_oldest(rows.drop_first(), user, d)
    }
}

/// `rows` where only the `k` most recently issued tokens of `user` are left.
pub open spec fn keep_newest(rows: Seq<SessionToken>, user: i64, k: nat) -> Seq<SessionToken> {
    let c = count_of(rows, user);
    drop_oldest(rows, user, if c > k { (c - k) as nat } else { 0 })
}

/// The table after issuing `token` to `user` at `now`: the user's stale tokens
/// are swept, the user's oldest tokens are evicted so that the new one makes
/// at most `SESSION_CAP`, and the new row is appended.
pub open spec fn issued(
    rows: Seq<SessionToken>,
    user: i64,
    token: String,
    id: u64,
    expires_at: i64,
    now: i64,
) -> Seq<SessionToken> {
    keep_newest(without_stale(rows, user, now), user, (SESSION_CAP - 1) as nat).push(
        SessionToken { id, user, token, expires_at },
    )
}

/// `rows` without the rows that carry `token`.
pub open spec fn revoked(rows: Seq<SessionToken>, token: Seq<char>) -> Seq<SessionToken>
    decreases rows.len(),
{
    if rows.len() == 0 {
        rows
    } else {
        let rest = revoked(rows.drop_first(), token);
        if rows[0].token@ == token {
            rest
        } else {
            seq![rows[0]] + rest
        }
    }
}

/// Expiry of a session issued at `now`: 30 days on when `remember` is set,
/// else 24 hours on.
pub fn session_expiry(now: i64, remember: bool) -> (r: i64)
    requires
        now <= i64::MAX - LONG_SESSION_SECONDS,
    ensures
        r == expiry_of(now as int, remember),
{
    if remember {
        now + LONG_SESSION_SECONDS
    } else {
        now + SHORT_SESSION_SECONDS
    }
}

/// One step of a front-to-back walk over `s`.
pub(crate) proof fn lemma_skip_unfold<T>(s: Seq<T>, i: int)
    requires
        0 <= i < s.len(),
    ensures
        s.skip(i).len() > 0,
        s.skip(i)[0] == s[i],
        s.skip(i).drop_first() == s.skip(i + 1),
        s.take(i + 1) == s.take(i).push(s[i]),
{
    assert(s.skip(i).drop_first() =~= s.skip(i + 1));
    assert(s.take(i + 1) =~= s.take(i).push(s[i]));
}

/// Number of rows in `rows` that belong to `user`.
fn count_user_rows(rows: &Vec<SessionToken>, user: i64) -> (c: usize)
    ensures
        c == count_of(rows@, user),
{
    let mut c: usize = 0;
    let mut i: usize = 0;
    assert(rows@.skip(0) =~= rows@);
    while i < rows.len()
        invariant
            i <= rows.len(),
            c <= i,
            count_of(rows@, user) == c + count_of(rows@.skip(i as int), user),
        decreases rows.len() - i,
    {
        proof {
            lemma_skip_unfold(rows@, i as int);
        }
        if rows[i].user == user {
            c = c + 1;
        }
        i = i + 1;
    }
    assert(rows@.skip(i as int).len() == 0);
    c
}

/// Removes the rows of `user` that expired before `now`.
fn sweep_stale(rows: &mut Vec<SessionToken>, user: i64, now: i64)
    ensures
        final(rows)@ == without_stale(old(rows)@, user, now),
{
    let ghost start = rows@;
    let mut i: usize = 0;
    assert(rows@.skip(0) =~= rows@);
    assert(rows@.take(0) + without_stale(rows@.skip(0), user, now) =~= without_stale(start, user, now));
    while i < rows.len()
        invariant
            i <= rows.len(),
            without_stale(start, user, now) == rows@.take(i as int) + without_stale(
                rows@.skip(i as int),
                user,
                now,
            ),
        decreases rows.len() - i,
    {
        let ghost before = rows@;
        proof {
            lemma_skip_unfold(before, i as int);
        }
        if rows[i].user == user && rows[i].expires_at < now {
            rows.remove(i);
            assert(rows@.take(i as int) =~= before.take(i as int));
            assert(rows@.skip(i as int) =~= before.skip(i as int + 1));
        } else {
            assert(before.take(i as int) + (seq![before[i as int]] + without_stale(
                before.skip(i as int + 1),
                user,
                now,
            )) =~= before.take(i as int + 1) + without_stale(before.skip(i as int + 1), user, now));
            i = i + 1;
        }
    }
    assert(rows@.skip(i as int).len() == 0);
    assert(rows@.take(i as int) =~= rows@);
    assert(rows@.take(i as int) + without_stale(rows@.skip(i as int), user, now) =~= rows@);
}

/// Removes the `d` oldest rows of `user`.
fn evict_oldest(rows: &mut Vec<SessionToken>, user: i64, d: usize)
    ensures
        final(rows)@ == drop_oldest(old(rows)@, user, d as nat),
{
    let ghost start = rows@;
    let mut left: usize = d;
    let mut i: usize = 0;
    assert(rows@.skip(0) =~= rows@);
    assert(rows@.take(0) + drop_oldest(rows@.skip(0), user, d as nat) =~= drop_oldest(start, user, d as nat));
    while i < rows.len()
        invariant
            i <= rows.len(),
            drop_oldest(start, user, d as nat) == rows@.take(i as int) + drop_oldest(
                rows@.skip(i as int),
                user,
                left as nat,
            ),
        decreases rows.len() - i,
    {
        let ghost before = rows@;
        proof {
            lemma_skip_unfold(before, i as int);
        }
        if rows[i].user == user && left > 0 {
            rows.remove(i);
            left = left - 1;
            assert(rows@.take(i as int) =~= before.take(i as int));
            assert(rows@.skip(i as int) =~= before.skip(i as int + 1));
        } else {
            assert(before.take(i as int) + (seq![before[i as int]] + drop_oldest(
                before.skip(i as int + 1),
                user,
                left as nat,
            )) =~= before.take(i as int + 1) + drop_oldest(before.skip(i as int + 1), user, left as nat));
            i = i + 1;
        }
    }
    assert(rows@.skip(i as int).len() == 0);
    assert(rows@.take(i as int) + drop_oldest(rows@.skip(i as int), user, left as nat) =~= rows@);
}

impl SessionStore {
    /// An empty table whose first row will get id 1.
    pub fn new() -> (r: SessionStore)
        ensures
            r.rows@.len() == 0,
            r.next_id == 1,
    {
        SessionStore { rows: Vec::new(), next_id: 1 }
    }

    /// Issues `token` to `user` at time `now`, valid until `expires_at`, and
    /// returns the id of the new row. First the user's expired tokens are
    /// swept, then the user's oldest tokens are evicted so that with the new
    /// one the user holds at most `SESSION_CAP`, then the new row is added.
    pub fn issue(&mut self, user: i64, token: String, expires_at: i64, now: i64) -> (r: u64)
        requires
            old(self).next_id < u64::MAX,
        ensures
            r == old(self).next_id,
            final(self).next_id == old(self).next_id + 1,
            final(self).rows@ == issued(old(self).rows@, user, token, r, expires_at, now),
    {
        sweep_stale(&mut self.rows, user, now);
        let c = count_user_rows(&self.rows, user);
        let keep: usize = SESSION_CAP - 1;
        if c > keep {
            evict_oldest(&mut self.rows, user, c - keep);
        } else {
            evict_oldest(&mut self.rows, user, 0);
        }
        let id = self.next_id;
        self.rows.push(SessionToken { id, user, token, expires_at });
        self.next_id = id + 1;
        id
    }

    /// Removes the rows that carry `token`. Revoking a token that is not in
    /// the table changes nothing.
    pub fn revoke(&mut self, token: &str)
        ensures
            final(self).next_id == old(self).next_id,
            final(self).rows@ == revoked(old(self).rows@, token@),
    {
        let ghost start = self.rows@;
        let target: String = token.to_owned();
        let mut i: usize = 0;
        assert(self.rows@.skip(0) =~= self.rows@);
        assert(self.rows@.take(0) + revoked(self.rows@.skip(0), token@) =~= revoked(start, token@));
        while i < self.rows.len()
            invariant
                i <= self.rows.len(),
                self.next_id == old(self).next_id,
                start == old(self).rows@,
                target@ == token@,
                revoked(start, token@) == self.rows@.take(i as int) + revoked(
                    self.rows@.skip(i as int),
                    token@,
                ),
            decreases self.rows.len() - i,
        {
            let ghost before = self.rows@;
            proof {
                lemma_skip_unfold(before, i as int);
            }
            if self.rows[i].token == target {
                self.rows.remove(i);
                assert(self.rows@.take(i as int) =~= before.take(i as int));
                assert(self.rows@.skip(i as int) =~= before.skip(i as int + 1));
            } else {
                assert(before.take(i as int) + (seq![before[i as int]] + revoked(
                    before.skip(i as int + 1),
                    token@,
                )) =~= before.take(i as int + 1) + revoked(before.skip(i as int + 1), token@));
                i = i + 1;
            }
        }
        assert(self.rows@.skip(i as int).len() == 0);
        assert(self.rows@.take(i as int) + revoked(self.rows@.skip(i as int), token@) =~= self.rows@);
    }
}

/// The table after issuing `tokens` to `user` one after the other: the
/// token at position `k` is issued at `nows[k]`, valid until `expiries[k]`,
/// under row id `next_id + k`.
pub open spec fn issue_each(
    rows: Seq<SessionToken>,
    user: i64,
    tokens: Seq<String>,
    next_id: u64,
    expiries: Seq<i64>,
    nows: Seq<i64>,
) -> Seq<SessionToken>
    decreases tokens.len(),
{
    if tokens.len() == 0 {
        rows
    } else {
        let k = tokens.len() - 1;
        let before = issue_each(rows, user, tokens.drop_last(), next_id, expiries, nows);
        issued(before, user, tokens.last(), (next_id + k) as u64, expiries[k], nows[k])
    }
}

/// The rows of `s` that have not expired at `now`.
pub open spec fn live(s: Seq<SessionToken>, now: i64) -> Seq<SessionToken>
    decreases s.len(),
{
    if s.len() == 0 {
        s
    } else if s[0].expires_at < now {
        live(s.drop_first(), now)
    } else {
        seq![s[0]] + live(s.drop_first(), now)
    }
}

proof fn lemma_of_user_sweep(rows: Seq<SessionToken>, user: i64, now: i64)
    ensures
        of_user(without_stale(rows, user, now), user) == live(of_user(rows, user), now),
    decreases rows.len(),
{
    if rows.len() > 0 {
        let r = rows[0];
        let tail = rows.drop_first();
        lemma_of_user_sweep(tail, user, now);
        let rest = without_stale(tail, user, now);
        if !is_stale(r, user, now) {
            assert((seq![r] + rest).drop_first() =~= rest);
        }
        if r.user == user {
            assert((seq![r] + of_user(tail, user)).drop_first() =~= of_user(tail, user));
        }
    }
}

proof fn lemma_live_len(s: Seq<SessionToken>, now: i64)
    ensures
        live(s, now).len() <= s.len(),
    decreases s.len(),
{
    if s.len() > 0 {
        lemma_live_len(s.drop_first(), now);
    }
}

/// Sweeping keeps a tail of live rows as the tail of what is left.
proof fn lemma_live_keeps_tail(s: Seq<SessionToken>, now: i64, m: int)
    requires
        0 <= m <= s.len(),
        forall|i: int| s.len() - m <= i < s.len() ==> (#[trigger] s[i]).expires_at >= now,
    ensures
        live(s, now).len() >= m,
        forall|i: int|
            0 <= i < m ==> #[trigger] live(s, now)[live(s, now).len() - 1 - i] == s[s.len() - 1
                - i],
    decreases s.len(),
{
    if s.len() > 0 {
        let t = s.drop_first();
        let lt = live(t, now);
        if m == s.len() {
            assert forall|i: int| t.len() - (m - 1) <= i < t.len() implies (#[trigger] t[i]).expires_at
                >= now by {
                assert(t[i] == s[i + 1]);
            }
            lemma_live_keeps_tail(t, now, m - 1);
            lemma_live_len(t, now);
            assert(s[0].expires_at >= now);
            assert(live(s, now) == seq![s[0]] + lt);
            assert forall|i: int| 0 <= i < m implies #[trigger] live(s, now)[live(s, now).len() - 1
                - i] == s[s.len() - 1 - i] by {
                if i < m - 1 {
                    assert(live(s, now)[live(s, now).len() - 1 - i] == lt[lt.len() - 1 - i]);
                    assert(t[t.len() - 1 - i] == s[s.len() - 1 - i]);
                } else {
                    assert(lt.len() == m - 1);
                }
            }
        } else {
            assert forall|i: int| t.len() - m <= i < t.len() implies (#[trigger] t[i]).expires_at
                >= now by {
                assert(t[i] == s[i + 1]);
            }
            lemma_live_keeps_tail(t, now, m);
            assert forall|i: int| 0 <= i < m implies #[trigger] live(s, now)[live(s, now).len() - 1
                - i] == s[s.len() - 1 - i] by {
                assert(live(s, now)[live(s, now).len() - 1 - i] == lt[lt.len() - 1 - i]);
                assert(t[t.len() - 1 - i] == s[s.len() - 1 - i]);
            }
        }
    }
}

proof fn lemma_of_user_len(rows: Seq<SessionToken>, user: i64)
    ensures
        of_user(rows, user).len() == count_of(rows, user),
    decreases rows.len(),
{
    if rows.len() > 0 {
        lemma_of_user_len(rows.drop_first(), user);
    }
}

proof fn lemma_of_user_push(s: Seq<SessionToken>, x: SessionToken, user: i64)
    ensures
        of_user(s.push(x), user) == (if x.user == user {
            of_user(s, user).push(x)
        } else {
            of_user(s, user)
        }),
    decreases s.len(),
{
    if s.len() == 0 {
        assert(s.push(x).drop_first() =~= s);
        assert(of_user(s, user) =~= Seq::<SessionToken>::empty());
        assert(seq![x] + of_user(s, user) =~= of_user(s, user).push(x));
    } else {
        assert(s.push(x).drop_first() =~= s.drop_first().push(x));
        lemma_of_user_push(s.drop_first(), x, user);
        if s[0].user == user {
            assert(seq![s[0]] + of_user(s.drop_first(), user).push(x) =~= (seq![s[0]] + of_user(
                s.drop_first(),
                user,
            )).push(x));
        }
    }
}

proof fn lemma_of_user_drop_oldest(rows: Seq<SessionToken>, user: i64, d: nat)
    requires
        d <= count_of(rows, user),
    ensures
        of_user(drop_oldest(rows, user, d), user) == of_user(rows, user).skip(d as int),
    decreases rows.len(),
{
    if rows.len() > 0 {
        let r = rows[0];
        let tail = rows.drop_first();
        if r.user == user && d > 0 {
            lemma_of_user_drop_oldest(tail, user, (d - 1) as nat);
            lemma_of_user_len(rows, user);
            assert(of_user(rows, user) == seq![r] + of_user(tail, user));
            assert(of_user(rows, user).skip(d as int) =~= of_user(tail, user).skip(d - 1));
        } else {
            lemma_of_user_drop_oldest(tail, user, d);
            let rest = drop_oldest(tail, user, d);
            assert((seq![r] + rest).drop_first() =~= rest);
            if r.user == user {
                assert(of_user(rows, user).skip(0) =~= of_user(rows, user));
                assert(of_user(tail, user).skip(0) =~= of_user(tail, user));
            }
        }
    }
}

proof fn lemma_without_stale_clean(rows: Seq<SessionToken>, user: i64, now: i64)
    ensures
        forall|j: int|
            0 <= j < without_stale(rows, user, now).len() ==> !is_stale(
                #[trigger] without_stale(rows, user, now)[j],
                user,
                now,
            ),
    decreases rows.len(),
{
    if rows.len() > 0 {
        lemma_without_stale_clean(rows.drop_first(), user, now);
        let rest = without_stale(rows.drop_first(), user, now);
        if !is_stale(rows[0], user, now) {
            assert forall|j: int| 0 <= j < rest.len() + 1 implies !is_stale(
                #[trigger] (seq![rows[0]] + rest)[j],
                user,
                now,
            ) by {
                if j > 0 {
                    assert((seq![rows[0]] + rest)[j] == rest[j - 1]);
                }
            }
        }
    }
}

proof fn lemma_drop_oldest_within(rows: Seq<SessionToken>, user: i64, d: nat)
    ensures
        forall|x: SessionToken| drop_oldest(rows, user, d).contains(x) ==> rows.contains(x),
    decreases rows.len(),
{
    if rows.len() > 0 {
        let tail = rows.drop_first();
        let nd = if rows[0].user == user && d > 0 { (d - 1) as nat } else { d };
        lemma_drop_oldest_within(tail, user, nd);
        assert forall|x: SessionToken| drop_oldest(rows, user, d).contains(x) implies rows.contains(
            x,
        ) by {
            let res = drop_oldest(rows, user, d);
            let k = choose|k: int| 0 <= k < res.len() && res[k] == x;
            if rows[0].user == user && d > 0 {
                assert(tail.contains(x));
            } else if k == 0 {
                assert(rows[0] == x);
            } else {
                assert(res[k] == drop_oldest(tail, user, d)[k - 1]);
                assert(tail.contains(x));
            }
            let m = choose|m: int| 0 <= m < tail.len() && tail[m] == x;
            if !(k == 0 && !(rows[0].user == user && d > 0)) {
                assert(rows[m + 1] == x);
            }
        }
    }
}

/// Right after a token is issued to `user`, no earlier token of that user
/// that expired before `now` is left in the table.
pub proof fn law_issue_sweeps_expired(
    rows: Seq<SessionToken>,
    user: i64,
    token: String,
    id: u64,
    expires_at: i64,
    now: i64,
)
    ensures
        forall|j: int|
            0 <= j < issued(rows, user, token, id, expires_at, now).len() - 1 ==> !is_stale(
                #[trigger] issued(rows, user, token, id, expires_at, now)[j],
                user,
                now,
            ),
{
    let ws = without_stale(rows, user, now);
    let c = count_of(ws, user);
    let d: nat = if c > (SESSION_CAP - 1) as nat { (c - (SESSION_CAP - 1) as nat) as nat } else { 0 };
    let kept = drop_oldest(ws, user, d);
    assert(kept == keep_newest(ws, user, (SESSION_CAP - 1) as nat));
    lemma_without_stale_clean(rows, user, now);
    lemma_drop_oldest_within(ws, user, d);
    let res = issued(rows, user, token, id, expires_at, now);
    assert forall|j: int| 0 <= j < res.len() - 1 implies !is_stale(#[trigger] res[j], user, now) by {
        assert(res[j] == kept[j]);
        assert(kept.contains(kept[j]));
        assert(ws.contains(kept[j]));
        let m = choose|m: int| 0 <= m < ws.len() && ws[m] == kept[j];
        assert(!is_stale(ws[m], user, now));
    }
}

/// The tokens of `user` after one issue: the (at most) four newest of the
/// user's unexpired tokens, then the new one. So the user holds at most
/// `SESSION_CAP` tokens, and exactly that many when four or more were alive.
pub proof fn law_issue_caps(
    rows: Seq<SessionToken>,
    user: i64,
    token: String,
    id: u64,
    expires_at: i64,
    now: i64,
)
    ensures
        ({
            let alive = of_user(without_stale(rows, user, now), user);
            let keep = if alive.len() > 4 { 4 } else { alive.len() };
            of_user(issued(rows, user, token, id, expires_at, now), user) == alive.skip(
                alive.len() - keep,
            ).push(SessionToken { id, user, token, expires_at })
        }),
        count_of(issued(rows, user, token, id, expires_at, now), user) <= SESSION_CAP,
        count_of(without_stale(rows, user, now), user) >= SESSION_CAP - 1 ==> count_of(
            issued(rows, user, token, id, expires_at, now),
            user,
        ) == SESSION_CAP,
{
    let ws = without_stale(rows, user, now);
    let c = count_of(ws, user);
    let d: nat = if c > 4 { (c - 4) as nat } else { 0 };
    let kept = drop_oldest(ws, user, d);
    let row = SessionToken { id, user, token, expires_at };
    lemma_of_user_len(ws, user);
    lemma_of_user_drop_oldest(ws, user, d);
    lemma_of_user_push(kept, row, user);
    lemma_of_user_len(issued(rows, user, token, id, expires_at, now), user);
}

/// Issuing five or more tokens to one user in a row, none of which has
/// expired by the time of any of the calls, leaves that user exactly
/// `SESSION_CAP` tokens: the five issued last, oldest first.
pub proof fn law_cap_keeps_newest(
    rows: Seq<SessionToken>,
    user: i64,
    tokens: Seq<String>,
    next_id: u64,
    expiries: Seq<i64>,
    nows: Seq<i64>,
)
    requires
        tokens.len() >= SESSION_CAP,
        expiries.len() >= tokens.len(),
        nows.len() >= tokens.len(),
        forall|j: int, k: int|
            0 <= j < tokens.len() && 0 <= k < tokens.len() ==> #[trigger] nows[k]
                <= #[trigger] expiries[j],
    ensures
        of_user(issue_each(rows, user, tokens, next_id, expiries, nows), user).len()
            == SESSION_CAP,
        forall|i: int|
            0 <= i < SESSION_CAP ==> (#[trigger] of_user(
                issue_each(rows, user, tokens, next_id, expiries, nows),
                user,
            )[i]).token == tokens[tokens.len() - SESSION_CAP + i],
{
    lemma_issue_each_tail(rows, user, tokens, next_id, expiries, nows);
    let l = of_user(issue_each(rows, user, tokens, next_id, expiries, nows), user);
    assert forall|i: int| 0 <= i < SESSION_CAP implies (#[trigger] l[i]).token == tokens[tokens.len()
        - SESSION_CAP + i] by {
        let back = 4 - i;
        assert(l[l.len() - 1 - back] == l[i]);
    }
}

proof fn lemma_issue_each_tail(
    rows: Seq<SessionToken>,
    user: i64,
    tokens: Seq<String>,
    next_id: u64,
    expiries: Seq<i64>,
    nows: Seq<i64>,
)
    requires
        tokens.len() >= 1,
        expiries.len() >= tokens.len(),
        nows.len() >= tokens.len(),
        forall|j: int, k: int|
            0 <= j < tokens.len() && 0 <= k < tokens.len() ==> #[trigger] nows[k]
                <= #[trigger] expiries[j],
    ensures
        ({
            let l = of_user(issue_each(rows, user, tokens, next_id, expiries, nows), user);
            let n = tokens.len() as int;
            let m = if n < 5 { n } else { 5 };
            &&& l.len() <= 5
            &&& l.len() >= m
            &&& forall|i: int|
                0 <= i < m ==> (#[trigger] l[l.len() - 1 - i]).token == tokens[n - 1 - i]
                    && l[l.len() - 1 - i].expires_at == expiries[n - 1 - i]
        }),
    decreases tokens.len(),
{
    let n = tokens.len() as int;
    let k = n - 1;
    let now = nows[k];
    let prev = issue_each(rows, user, tokens.drop_last(), next_id, expiries, nows);
    let id = (next_id + k) as u64;
    let tok = tokens.last();
    let exp = expiries[k];
    let res = issued(prev, user, tok, id, exp, now);
    assert(res == issue_each(rows, user, tokens, next_id, expiries, nows));
    let lp = of_user(prev, user);
    let mp = if n - 1 < 5 { n - 1 } else { 5 };
    if n > 1 {
        lemma_issue_each_tail(rows, user, tokens.drop_last(), next_id, expiries, nows);
        assert forall|i: int| lp.len() - mp <= i < lp.len() implies (#[trigger] lp[i]).expires_at
            >= now by {
            let back = lp.len() - 1 - i;
            assert(lp[lp.len() - 1 - back].expires_at == expiries[n - 2 - back]);
            assert(nows[k] <= expiries[n - 2 - back]);
        }
        lemma_live_keeps_tail(lp, now, mp);
    } else {
        lemma_live_keeps_tail(lp, now, 0);
    }
    lemma_of_user_sweep(prev, user, now);
    law_issue_caps(prev, user, tok, id, exp, now);
    let w = of_user(without_stale(prev, user, now), user);
    assert(w == live(lp, now));
    let keep = if w.len() > 4 { 4 } else { w.len() };
    let l = of_user(res, user);
    let m = if n < 5 { n } else { 5 };
    assert(l == w.skip(w.len() - keep).push(SessionToken { id, user, token: tok, expires_at: exp }));
    assert forall|i: int| 0 <= i < m implies (#[trigger] l[l.len() - 1 - i]).token == tokens[n - 1
        - i] && l[l.len() - 1 - i].expires_at == expiries[n - 1 - i] by {
        if i > 0 {
            assert(l[l.len() - 1 - i] == w[w.len() - 1 - (i - 1)]);
            assert(w[w.len() - 1 - (i - 1)] == lp[lp.len() - 1 - (i - 1)]);
            assert(tokens.drop_last()[n - 2 - (i - 1)] == tokens[n - 1 - i]);
        }
    }
}

/// Revoking a token held by no row leaves the table as it is.
pub proof fn law_revoke_absent(rows: Seq<SessionToken>, token: Seq<char>)
    requires
        forall|j: int| 0 <= j < rows.len() ==> (#[trigger] rows[j]).token@ != token,
    ensures
        revoked(rows, token) == rows,
    decreases rows.len(),
{
    if rows.len() > 0 {
        let tail = rows.drop_first();
        assert forall|j: int| 0 <= j < tail.len() implies (#[trigger] tail[j]).token@ != token by {
            assert(tail[j] == rows[j + 1]);
        }
        law_revoke_absent(tail, token);
        assert(seq![rows[0]] + tail =~= rows);
    }
}

/// Revoking the token of exactly one row removes that row and keeps every
/// other row, of every user, in order.
pub proof fn law_revoke_removes_one(rows: Seq<SessionToken>, token: Seq<char>, k: int)
    requires
        0 <= k < rows.len(),
        rows[k].token@ == token,
        forall|j: int| 0 <= j < rows.len() && j != k ==> (#[trigger] rows[j]).token@ != token,
    ensures
        revoked(rows, token) == rows.remove(k),
    decreases rows.len(),
{
    let tail = rows.drop_first();
    if k == 0 {
        assert forall|j: int| 0 <= j < tail.len() implies (#[trigger] tail[j]).token@ != token by {
            assert(tail[j] == rows[j + 1]);
        }
        law_revoke_absent(tail, token);
        assert(tail =~= rows.remove(0));
    } else {
        assert forall|j: int| 0 <= j < tail.len() && j != k - 1 implies (#[trigger] tail[j]).token@
            != token by {
            assert(tail[j] == rows[j + 1]);
        }
        law_revoke_removes_one(tail, token, k - 1);
        assert(seq![rows[0]] + tail.remove(k - 1) =~= rows.remove(k));
    }
}

} // verus!
