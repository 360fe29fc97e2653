//! Client-side rotation over a fixed list of generator endpoints.
//!
//! Each call picks the endpoint at the cursor and moves the cursor on by one, modulo
//! the number of endpoints. The request itself is made by the caller; whatever its
//! outcome, the cursor has already moved, so a failed call is never retried on the
//! same endpoint and a fresh call goes to the next one. There is no failover and no
//! change of membership after construction.
use vstd::prelude::*;
use vstd::string::StringExecFns;
use vstd::arithmetic::div_mod::{lemma_fundamental_div_mod, lemma_fundamental_div_mod_converse};

verus! {

/// The cursor after one call, among `n` endpoints.
pub open spec fn rotate(cursor: nat, n: nat) -> nat {
    if cursor + 1 < n {
        cursor + 1
    } else {
        0
    }
}

/// The cursor after `m` calls, starting at `cursor`.
pub open spec fn rotate_by(cursor: nat, m: nat, n: nat) -> nat
    decreases m,
{
    if m == 0 {
        cursor
    } else {
        rotate_by(rotate(cursor, n), (m - 1) as nat, n)
    }
}

/// How many of `m` calls, starting at `cursor`, go to endpoint `k`.
pub open spec fn hits(cursor: nat, m: nat, n: nat, k: nat) -> nat
    decreases m,
{
    if m == 0 {
        0
    } else {
        (if cursor == k {
            1nat
        } else {
            0nat
        }) + hits(rotate(cursor, n), (m - 1) as nat, n, k)
    }
}

/// The pieces joined back together, with `sep` between each two.
pub open spec fn joined(parts: Seq<Seq<char>>, sep: char) -> Seq<char>
    decreases parts.len(),
{
    if parts.len() == 0 {
        Seq::empty()
    } else if parts.len() == 1 {
        parts[0]
    } else {
        joined(parts.drop_last(), sep) + seq![sep] + parts.last()
    }
}

/// Relies on `str::split` with a `char` pattern: the pieces of `list` between the
/// occurrences of `sep`, in order. There is always at least one piece (an empty string
/// gives one empty piece), no piece holds `sep`, and joining them with `sep` gives
/// `list` back.
#[verifier::external_body]
fn split_on(list: &str, sep: char) -> (r: Vec<String>)
    ensures
        r@.len() >= 1,
        forall|i: int| 0 <= i < r@.len() ==> !(#[trigger] r@[i])@.contains(sep),
        joined(r@.map_values(|p: String| p@), sep) == list@,
{
    list.split(sep).map(|p| p.to_string()).collect()
}

/// The body of a generator's answer: one identifier.
pub struct GeneratorResponse {
    pub id: i64,
}

/// A pool of generator endpoints and the cursor of the next one to use.
pub struct IdGeneratorClient {
    endpoints: Vec<String>,
    current: usize,
}

impl IdGeneratorClient {
    /// The endpoint addresses, in order.
    pub closed spec fn endpoints(&self) -> Seq<Seq<char>> {
        self.endpoints@.map_values(|e: String| e@)
    }

    /// The index of the endpoint that the next call goes to.
    pub closed spec fn cursor(&self) -> nat {
        self.current as nat
    }

    /// The list is not empty and the cursor points into it.
    pub open spec fn wf(&self) -> bool {
        self.endpoints().len() > 0 && self.cursor() < self.endpoints().len()
    }

    /// A client over `endpoints`, starting at the first; `None` if there are none.
    pub fn new(endpoints: Vec<String>) -> (r: Option<IdGeneratorClient>)
        ensures
            r is Some <==> endpoints@.len() > 0,
            r matches Some(c) ==> c.wf() && c.cursor() == 0 && c.endpoints()
                == endpoints@.map_values(|e: String| e@),
    {
        if endpoints.len() == 0 {
            None
        } else {
            Some(IdGeneratorClient { endpoints, current: 0 })
        }
    }

    /// A client over the endpoints of a comma-separated list, starting at the first.
    /// Every piece between commas is one endpoint, empty ones included.
    pub fn from_list(list: &str) -> (r: IdGeneratorClient)
        ensures
            r.wf(),
            r.cursor() == 0,
            joined(r.endpoints(), ',') == list@,
            forall|i: int| 0 <= i < r.endpoints().len() ==> !(#[trigger] r.endpoints()[i]).contains(','),
    {
        let endpoints = split_on(list, ',');
        let r = IdGeneratorClient { endpoints, current: 0 };
        assert forall|i: int| 0 <= i < r.endpoints().len() implies !(#[trigger] r.endpoints()[i]).contains(',') by {
            assert(r.endpoints()[i] == r.endpoints@[i]@);
        }
        r
    }

    /// The number of endpoints.
    pub fn len(&self) -> (r: usize)
        ensures
            r == self.endpoints().len(),
    {
        self.endpoints.len()
    }

    /// Picks the endpoint for one call: returns the cursor and moves it on by one,
    /// modulo the number of endpoints.
    pub fn next_index(&mut self) -> (r: usize)
        requires
            old(self).wf(),
        ensures
            r == old(self).cursor(),
            final(self).wf(),
            final(self).endpoints() == old(self).endpoints(),
            final(self).cursor() == rotate(old(self).cursor(), old(self).endpoints().len()),
    {
        let r = self.current;
        assert(self.endpoints@.len() == self.endpoints().len());
        self.current = if self.current < self.endpoints.len() - 1 {
            self.current + 1
        } else {
            0
        };
        r
    }

    /// Picks the endpoint for one call, as `next_index` does, and returns the address of
    /// its generation interface: the endpoint followed by `/generate`.
    pub fn next_url(&mut self) -> (r: String)
        requires
            old(self).wf(),
        ensures
            r@ == old(self).endpoints()[old(self).cursor() as int] + "/generate"@,
            final(self).wf(),
            final(self).endpoints() == old(self).endpoints(),
            final(self).cursor() == rotate(old(self).cursor(), old(self).endpoints().len()),
    {
        let i = self.next_index();
        let base = self.endpoints[i].clone();
        base.concat("/generate")
    }
}

/// Two successive calls go to endpoints `i` and `(i + 1) mod n`, whatever became of
/// the first request.
pub proof fn lemma_rotate_is_successor(cursor: nat, n: nat)
    requires
        cursor < n,
    ensures
        rotate(cursor, n) as int == (cursor + 1) as int % (n as int),
        rotate(cursor, n) < n,
{
    if cursor + 1 == n {
        assert((n as int) % (n as int) == 0) by {
            lemma_fundamental_div_mod_converse(n as int, n as int, 1, 0);
        }
    } else {
        lemma_fundamental_div_mod_converse((cursor + 1) as int, n as int, 0, (cursor + 1) as int);
    }
}

proof fn lemma_rotate_by_add(cursor: nat, a: nat, b: nat, n: nat, k: nat)
    ensures
        rotate_by(cursor, a + b, n) == rotate_by(rotate_by(cursor, a, n), b, n),
        hits(cursor, a + b, n, k) == hits(cursor, a, n, k) + hits(rotate_by(cursor, a, n), b, n, k),
    decreases a,
{
    if a > 0 {
        lemma_rotate_by_add(rotate(cursor, n), (a - 1) as nat, b, n, k);
        assert((a + b - 1) as nat == (a - 1) as nat + b);
    }
}

/// Calls that do not reach the end of the list visit `cursor, cursor + 1, ...` once each.
proof fn lemma_hits_no_wrap(cursor: nat, m: nat, n: nat, k: nat)
    requires
        cursor + m <= n,
    ensures
        hits(cursor, m, n, k) == (if cursor <= k < cursor + m {
            1nat
        } else {
            0nat
        }),
        cursor + m < n ==> rotate_by(cursor, m, n) == cursor + m,
        cursor + m == n && m > 0 ==> rotate_by(cursor, m, n) == 0,
    decreases m,
{
    if m > 0 {
        if cursor + 1 < n {
            lemma_hits_no_wrap(cursor + 1, (m - 1) as nat, n, k);
        } else {
            assert(m == 1);
            assert(rotate(cursor, n) == 0);
            assert(hits(0, 0, n, k) == 0);
            assert(rotate_by(0, 0, n) == 0);
        }
    }
}

/// `n` calls in a row visit every endpoint exactly once and bring the cursor back.
proof fn lemma_full_cycle(cursor: nat, n: nat, k: nat)
    requires
        cursor < n,
        k < n,
    ensures
        hits(cursor, n, n, k) == 1,
        rotate_by(cursor, n, n) == cursor,
{
    let a = (n - cursor) as nat;
    lemma_rotate_by_add(cursor, a, cursor, n, k);
    assert(a + cursor == n);
    lemma_hits_no_wrap(cursor, a, n, k);
    lemma_hits_no_wrap(0, cursor, n, k);
}

/// Round robin spreads evenly: of `m` calls in a row, starting anywhere, each of the
/// `n` endpoints receives `floor(m / n)` or `ceil(m / n)` of them.
pub proof fn lemma_rotation_is_uniform(cursor: nat, m: nat, n: nat, k: nat)
    requires
        cursor < n,
        k < n,
    ensures
        hits(cursor, m, n, k) == m / n || (m % n != 0 && hits(cursor, m, n, k) == m / n + 1),
    decreases m,
{
    if m < n {
        lemma_fundamental_div_mod_converse(m as int, n as int, 0, m as int);
        lemma_full_cycle(cursor, n, k);
        lemma_rotate_by_add(cursor, m, (n - m) as nat, n, k);
        assert(m + (n - m) as nat == n);
    } else {
        let rest = (m - n) as nat;
        lemma_full_cycle(cursor, n, k);
        lemma_rotate_by_add(cursor, n, rest, n, k);
        assert(n + rest == m);
        lemma_rotation_is_uniform(cursor, rest, n, k);
        lemma_fundamental_div_mod(rest as int, n as int);
        assert(m == (rest as int / n as int + 1) * n + rest as int % n as int) by (nonlinear_arith)
            requires
                rest as int == n * (rest as int / n as int) + rest as int % n as int,
                m == rest + n,
        ;
        lemma_fundamental_div_mod_converse(
            m as int,
            n as int,
            rest as int / n as int + 1,
            rest as int % n as int,
        );
    }
}

/// From a fresh client (cursor 0), of `m` calls in a row endpoint `k` receives
/// `floor(m / n)` calls, plus one more exactly when `k < m % n`.
pub proof fn lemma_rotation_from_start(m: nat, n: nat, k: nat)
    requires
        k < n,
    ensures
        hits(0, m, n, k) == m / n + (if k < m % n {
            1nat
        } else {
            0nat
        }),
    decreases m,
{
    if m < n {
        lemma_fundamental_div_mod_converse(m as int, n as int, 0, m as int);
        lemma_hits_no_wrap(0, m, n, k);
    } else {
        let rest = (m - n) as nat;
        lemma_full_cycle(0, n, k);
        lemma_rotate_by_add(0, n, rest, n, k);
        assert(n + rest == m);
        lemma_rotation_from_start(rest, n, k);
        lemma_fundamental_div_mod(rest as int, n as int);
        assert(m == (rest as int / n as int + 1) * n + rest as int % n as int) by (nonlinear_arith)
            requires
                rest as int == n * (rest as int / n as int) + rest as int % n as int,
                m == rest + n,
        ;
        lemma_fundamental_div_mod_converse(
            m as int,
            n as int,
            rest as int / n as int + 1,
            rest as int % n as int,
        );
    }
}

/// How many of `picks` are `k`.
pub open spec fn times_picked(picks: Seq<usize>, k: nat) -> nat
    decreases picks.len(),
{
    if picks.len() == 0 {
        0
    } else {
        (if picks[0] == k {
            1nat
        } else {
            0nat
        }) + times_picked(picks.drop_first(), k)
    }
}

proof fn lemma_picks_are_hits(c: nat, picks: Seq<usize>, n: nat, k: nat)
    requires
        forall|i: int| 0 <= i < picks.len() ==> #[trigger] picks[i] == rotate_by(c, i as nat, n),
    ensures
        times_picked(picks, k) == hits(c, picks.len(), n, k),
    decreases picks.len(),
{
    if picks.len() > 0 {
        let rest = picks.drop_first();
        assert forall|i: int| 0 <= i < rest.len() implies #[trigger] rest[i] == rotate_by(
            rotate(c, n),
            i as nat,
            n,
        ) by {
            assert(rest[i] == picks[i + 1]);
            assert(rotate_by(c, (i + 1) as nat, n) == rotate_by(rotate(c, n), i as nat, n));
        }
        lemma_picks_are_hits(rotate(c, n), rest, n, k);
        assert(picks[0] == rotate_by(c, 0, n));
    }
}

/// `cs[i + 1]` is `cs[i]` after one call of `next_index`, which returned `picks[i]`.
pub open spec fn is_call_chain(cs: Seq<IdGeneratorClient>, picks: Seq<usize>) -> bool {
    &&& cs.len() == picks.len() + 1
    &&& forall|i: int|
        0 <= i < picks.len() ==> {
            &&& #[trigger] picks[i] == cs[i].cursor()
            &&& cs[i + 1].endpoints() == cs[i].endpoints()
            &&& cs[i + 1].cursor() == rotate(cs[i].cursor(), cs[i].endpoints().len())
        }
}

/// Successive calls of `next_index` on a fresh client, the `i`-th taking `cs[i]` to
/// `cs[i + 1]` and returning `picks[i]`, with no failures and no other callers: each call
/// targets the endpoint after the previous one, `(i + 1) mod n`, and of the `m` calls
/// endpoint `k` receives `floor(m / n)`, plus one more exactly when `k < m % n`, which is
/// `floor(m / n)` or `ceil(m / n)`.
pub proof fn lemma_calls_spread_evenly(cs: Seq<IdGeneratorClient>, picks: Seq<usize>)
    requires
        is_call_chain(cs, picks),
        cs[0].wf(),
        cs[0].cursor() == 0,
    ensures
        forall|i: int|
            0 <= i < picks.len() - 1 ==> #[trigger] picks[i + 1] as int == (picks[i] + 1) % (
            cs[0].endpoints().len() as int),
        forall|k: nat|
            k < cs[0].endpoints().len() ==> #[trigger] times_picked(picks, k) == picks.len()
                / cs[0].endpoints().len() + (if k < picks.len() % cs[0].endpoints().len() {
                1nat
            } else {
                0nat
            }),
{
    let n = cs[0].endpoints().len();
    assert forall|i: int| 0 <= i < cs.len() implies #[trigger] cs[i].endpoints() == cs[0].endpoints()
        && cs[i].cursor() == rotate_by(0, i as nat, n) && cs[i].cursor() < n by {
        lemma_client_chain(cs, picks, i);
    }
    assert forall|i: int| 0 <= i < picks.len() - 1 implies #[trigger] picks[i + 1] as int == (
    picks[i] + 1) % (n as int) by {
        assert(cs[i].endpoints() == cs[0].endpoints());
        lemma_rotate_is_successor(cs[i].cursor(), n);
    }
    assert forall|i: int| 0 <= i < picks.len() implies #[trigger] picks[i] == rotate_by(0, i as nat, n) by {
        lemma_client_chain(cs, picks, i);
    }
    assert forall|k: nat| k < n implies #[trigger] times_picked(picks, k) == picks.len() / n + (
    if k < picks.len() % n {
        1nat
    } else {
        0nat
    }) by {
        lemma_picks_are_hits(0, picks, n, k);
        lemma_rotation_from_start(picks.len(), n, k);
    }
}

proof fn lemma_client_chain(cs: Seq<IdGeneratorClient>, picks: Seq<usize>, j: int)
    requires
        is_call_chain(cs, picks),
        cs[0].wf(),
        cs[0].cursor() == 0,
        0 <= j < cs.len(),
    ensures
        cs[j].endpoints() == cs[0].endpoints(),
        cs[j].cursor() == rotate_by(0, j as nat, cs[0].endpoints().len()),
        cs[j].cursor() < cs[0].endpoints().len(),
    decreases j,
{
    let n = cs[0].endpoints().len();
    if j > 0 {
        lemma_client_chain(cs, picks, j - 1);
        assert(picks[j - 1] == cs[j - 1].cursor());
        lemma_rotate_by_add(0, (j - 1) as nat, 1, n, 0);
        assert((j - 1) as nat + 1 == j as nat);
        let prev = rotate_by(0, (j - 1) as nat, n);
        assert(rotate_by(rotate(prev, n), 0, n) == rotate(prev, n));
        assert(rotate_by(prev, 1, n) == rotate(prev, n));
    }
}

/// A call picks endpoint `k` and moves the cursor on before any request is made, so
/// whatever becomes of that request (a failure included), the next call targets
/// `(k + 1) mod n`, not `k` again.
pub proof fn lemma_next_call_after_any_outcome(a: IdGeneratorClient, b: IdGeneratorClient)
    requires
        a.wf(),
        b.endpoints() == a.endpoints(),
        b.cursor() == rotate(a.cursor(), a.endpoints().len()),
    ensures
        b.wf(),
        b.cursor() as int == (a.cursor() + 1) as int % (a.endpoints().len() as int),
{
    lemma_rotate_is_successor(a.cursor(), a.endpoints().len());
}

} // verus!
