//! Completing a project's sale start from its screens when the reply left it out.

use vstd::prelude::*;
use crate::model::{ScreenInfo, ScreenTicketInfo, TicketInfo};
use crate::validation::is_complete;

verus! {

/// The sale start that a ticket kind offers: its `saleStart` when that is positive.
pub open spec fn ticket_candidate(t: ScreenTicketInfo) -> Seq<i64> {
    match t.saleStart {
        Some(x) => if x > 0 { seq![x as i64] } else { seq![] },
        None => seq![],
    }
}

/// The sale starts offered by a list of ticket kinds, in order.
pub open spec fn ticket_candidates(ts: Seq<ScreenTicketInfo>) -> Seq<i64>
    decreases ts.len(),
{
    if ts.len() == 0 {
        seq![]
    } else {
        ticket_candidates(ts.drop_last()) + ticket_candidate(ts.last())
    }
}

/// The times a screen offers as sale start, in the order they are looked at:
/// its positive `start_time`, its positive `sale_start`, then those of its
/// ticket kinds.
pub open spec fn screen_candidates(sc: ScreenInfo) -> Seq<i64> {
    let from_start = match sc.start_time {
        Some(t) => if t > 0 { seq![t as i64] } else { seq![] },
        None => seq![],
    };
    let from_sale = if sc.sale_start > 0 { seq![sc.sale_start as i64] } else { seq![] };
    from_start + from_sale + ticket_candidates(sc.ticket_list@)
}

/// All the sale starts that the screens offer, screen by screen.
pub open spec fn sale_begin_candidates(screens: Seq<ScreenInfo>) -> Seq<i64>
    decreases screens.len(),
{
    if screens.len() == 0 {
        seq![]
    } else {
        sale_begin_candidates(screens.drop_last()) + screen_candidates(screens.last())
    }
}

/// The least element of a non-empty sequence.
pub open spec fn seq_min(s: Seq<i64>) -> i64
    decreases s.len(),
{
    if s.len() <= 1 {
        s[0]
    } else {
        let m = seq_min(s.drop_last());
        if s.last() < m {
            s.last()
        } else {
            m
        }
    }
}

/// The sale start of `info` once it has been completed: the one it has, else
/// the earliest time its screens offer, else none.
pub open spec fn completed_sale_begin(info: TicketInfo) -> Option<i64> {
    if info.sale_begin is Some {
        info.sale_begin
    } else {
        let c = sale_begin_candidates(info.screen_list@);
        if c.len() > 0 {
            Some(seq_min(c))
        } else {
            None
        }
    }
}

/// `info` with its sale start completed; every other field is kept.
pub open spec fn completed(info: TicketInfo) -> TicketInfo {
    TicketInfo { sale_begin: completed_sale_begin(info), ..info }
}

/// `v` is an element of `s` and no element of `s` is smaller.
pub open spec fn is_least_of(v: i64, s: Seq<i64>) -> bool {
    s.contains(v) && forall|i: int| 0 <= i < s.len() ==> v <= #[trigger] s[i]
}

/// The least element of a non-empty sequence is in it and below all its elements.
pub proof fn lemma_seq_min_is_least(s: Seq<i64>)
    requires
        s.len() > 0,
    ensures
        is_least_of(seq_min(s), s),
    decreases s.len(),
{
    if s.len() == 1 {
        assert(s[0] == s[0]);
    } else {
        let d = s.drop_last();
        lemma_seq_min_is_least(d);
        let k = choose|k: int| 0 <= k < d.len() && d[k] == seq_min(d);
        assert(s[k] == d[k]);
        assert(s[s.len() - 1] == s.last());
        assert forall|i: int| 0 <= i < s.len() implies seq_min(s) <= #[trigger] s[i] by {
            if i < s.len() - 1 {
                assert(s[i] == d[i]);
            }
        }
    }
}

/// There is one least element: any element of `s` below all of them is `seq_min(s)`.
pub proof fn lemma_least_is_seq_min(v: i64, s: Seq<i64>)
    requires
        is_least_of(v, s),
    ensures
        v == seq_min(s),
{
    lemma_seq_min_is_least(s);
    let k = choose|k: int| 0 <= k < s.len() && s[k] == v;
    let j = choose|j: int| 0 <= j < s.len() && s[j] == seq_min(s);
    assert(v <= s[j]);
    assert(seq_min(s) <= s[k]);
}

/// Folds `x` into the running least value `best` of `acc`.
proof fn lemma_least_push(best: Option<i64>, acc: Seq<i64>, x: i64)
    requires
        match best {
            Some(v) => is_least_of(v, acc),
            None => acc.len() == 0,
        },
    ensures
        ({
            let nb = match best {
                Some(v) => if x < v { x } else { v },
                None => x,
            };
            is_least_of(nb, acc.push(x))
        }),
{
    let s = acc.push(x);
    assert(s[acc.len() as int] == x);
    match best {
        Some(v) => {
            let k = choose|k: int| 0 <= k < acc.len() && acc[k] == v;
            assert(s[k] == acc[k]);
            assert forall|i: int| 0 <= i < s.len() implies (if x < v { x } else { v }) <= #[trigger] s[i] by {
                if i < acc.len() {
                    assert(s[i] == acc[i]);
                }
            }
        },
        None => {
            assert forall|i: int| 0 <= i < s.len() implies x <= #[trigger] s[i] by {}
        },
    }
}

/// Folds a time into the running least value.
fn fold_least(best: Option<i64>, x: i64, Ghost(acc): Ghost<Seq<i64>>) -> (nb: Option<i64>)
    requires
        match best {
            Some(v) => is_least_of(v, acc),
            None => acc.len() == 0,
        },
    ensures
        nb matches Some(v) && is_least_of(v, acc.push(x)),
{
    proof {
        lemma_least_push(best, acc, x);
    }
    match best {
        Some(v) => if x < v { Some(x) } else { Some(v) },
        None => Some(x),
    }
}

impl TicketInfo {
    /// When the sale start is missing, takes the earliest time that the
    /// screens offer (see `screen_candidates`); a present sale start, or the
    /// lack of any offered time, leaves the project as it is.
    pub fn fill_missing_sale_begin(&mut self)
        ensures
            *final(self) == completed(*old(self)),
    {
        if self.sale_begin.is_some() {
            proof {
                assert(completed(*old(self)) == *old(self));
            }
            return;
        }
        let ghost screens = self.screen_list@;
        let mut best: Option<i64> = None;
        let ghost mut acc: Seq<i64> = seq![];
        let n = self.screen_list.len();
        let mut i: usize = 0;
        while i < n
            invariant
                screens == self.screen_list@,
                n == screens.len(),
                i <= n,
                acc == sale_begin_candidates(screens.take(i as int)),
                match best {
                    Some(v) => is_least_of(v, acc),
                    None => acc.len() == 0,
                },
            decreases n - i,
        {
            let screen = &self.screen_list[i];
            let ghost acc_before = acc;
            if let Some(t) = screen.start_time {
                if t > 0 {
                    best = fold_least(best, t as i64, Ghost(acc));
                    proof {
                        acc = acc.push(t as i64);
                    }
                }
            }
            if screen.sale_start > 0 {
                best = fold_least(best, screen.sale_start as i64, Ghost(acc));
                proof {
                    acc = acc.push(screen.sale_start as i64);
                }
            }
            let ghost acc_mid = acc;
            let tickets = &screen.ticket_list;
            let m = tickets.len();
            let mut j: usize = 0;
            while j < m
                invariant
                    m == tickets@.len(),
                    j <= m,
                    acc == acc_mid + ticket_candidates(tickets@.take(j as int)),
                    match best {
                        Some(v) => is_least_of(v, acc),
                        None => acc.len() == 0,
                    },
                decreases m - j,
            {
                let ticket = &tickets[j];
                proof {
                    assert(tickets@.take(j + 1).drop_last() =~= tickets@.take(j as int));
                }
                if let Some(t) = ticket.saleStart {
                    if t > 0 {
                        best = fold_least(best, t as i64, Ghost(acc));
                        proof {
                            acc = acc.push(t as i64);
                        }
                    }
                }
                j = j + 1;
                proof {
                    assert(acc =~= acc_mid + ticket_candidates(tickets@.take(j as int)));
                }
            }
            proof {
                assert(tickets@.take(m as int) =~= tickets@);
                assert(screens.take(i + 1).drop_last() =~= screens.take(i as int));
                assert(acc =~= acc_before + screen_candidates(screens[i as int]));
            }
            i = i + 1;
        }
        proof {
            assert(screens.take(n as int) =~= screens);
        }
        match best {
            Some(v) => {
                proof {
                    lemma_least_is_seq_min(v, acc);
                }
                self.sale_begin = Some(v);
            },
            None => {},
        }
    }
}


/// Completing the sale start twice is completing it once.
pub proof fn law_completion_is_idempotent(info: TicketInfo)
    ensures
        completed(completed(info)) == completed(info),
{
}

/// The completed sale start: a present one is kept; a missing one becomes
/// the earliest time the screens offer; it stays missing only when the
/// screens offer none.
pub proof fn law_completed_sale_begin(info: TicketInfo)
    ensures
        info.sale_begin is Some ==> completed(info).sale_begin == info.sale_begin,
        completed(info).sale_begin is Some <==> (info.sale_begin is Some
            || sale_begin_candidates(info.screen_list@).len() > 0),
        info.sale_begin is None ==> (completed(info).sale_begin matches Some(v) ==> is_least_of(
            v,
            sale_begin_candidates(info.screen_list@),
        )),
{
    let c = sale_begin_candidates(info.screen_list@);
    if info.sale_begin is None && c.len() > 0 {
        lemma_seq_min_is_least(c);
    }
}

/// After completion, a project passes validation exactly when its other
/// required fields are present and it had a sale start or its screens offer one.
pub proof fn law_validation_after_completion(info: TicketInfo)
    ensures
        is_complete(completed(info)) <==> {
            &&& info.id is Some
            &&& info.name is Some
            &&& info.id_bind is Some
            &&& info.hot_project is Some
            &&& info.screen_list@.len() > 0
            &&& (info.sale_begin is Some || sale_begin_candidates(info.screen_list@).len() > 0)
        },
{
}


/// `x` is the screen `y` with its ticket kinds possibly put in another order.
pub open spec fn is_screen_reordering(x: ScreenInfo, y: ScreenInfo) -> bool {
    &&& x == (ScreenInfo { ticket_list: x.ticket_list, ..y })
    &&& x.ticket_list@.to_multiset() == y.ticket_list@.to_multiset()
}

/// `b` is the screens `a` put in another order by the permutation `perm`
/// (`b[i]` is `a[perm[i]]`), each with its ticket kinds possibly reordered too.
pub open spec fn is_screens_reordering(b: Seq<ScreenInfo>, a: Seq<ScreenInfo>, perm: Seq<int>) -> bool {
    &&& b.len() == a.len()
    &&& perm.len() == a.len()
    &&& forall|i: int| 0 <= i < b.len() ==> 0 <= #[trigger] perm[i] < a.len()
    &&& forall|i: int| 0 <= i < b.len() ==> is_screen_reordering(b[i], a[#[trigger] perm[i]])
    &&& forall|i: int, j: int| 0 <= i < j < b.len() ==> #[trigger] perm[i] != #[trigger] perm[j]
    &&& forall|k: int| 0 <= k < a.len() ==> #[trigger] is_taken_by(perm, k)
}

/// Some position of `perm` holds `k`.
pub open spec fn is_taken_by(perm: Seq<int>, k: int) -> bool {
    exists|i: int| 0 <= i < perm.len() && perm[i] == k
}

proof fn lemma_concat_contains(x: Seq<i64>, y: Seq<i64>, v: i64)
    ensures
        (x + y).contains(v) <==> (x.contains(v) || y.contains(v)),
{
    let s = x + y;
    if s.contains(v) {
        let k = choose|k: int| 0 <= k < s.len() && s[k] == v;
        if k < x.len() {
            assert(x[k] == v);
        } else {
            assert(y[k - x.len()] == v);
        }
    }
    if x.contains(v) {
        let k = choose|k: int| 0 <= k < x.len() && x[k] == v;
        assert(s[k] == v);
    }
    if y.contains(v) {
        let k = choose|k: int| 0 <= k < y.len() && y[k] == v;
        assert(s[k + x.len()] == v);
    }
}

/// A time is offered by a list of ticket kinds exactly when one of them offers it.
proof fn lemma_ticket_candidates_contains(ts: Seq<ScreenTicketInfo>, v: i64)
    ensures
        ticket_candidates(ts).contains(v) <==> exists|j: int|
            0 <= j < ts.len() && #[trigger] ticket_candidate(ts[j]).contains(v),
    decreases ts.len(),
{
    if ts.len() > 0 {
        let d = ts.drop_last();
        lemma_ticket_candidates_contains(d, v);
        lemma_concat_contains(ticket_candidates(d), ticket_candidate(ts.last()), v);
        if exists|j: int| 0 <= j < ts.len() && #[trigger] ticket_candidate(ts[j]).contains(v) {
            let j = choose|j: int| 0 <= j < ts.len() && #[trigger] ticket_candidate(ts[j]).contains(v);
            if j < d.len() {
                assert(d[j] == ts[j]);
            }
        }
        if exists|j: int| 0 <= j < d.len() && #[trigger] ticket_candidate(d[j]).contains(v) {
            let j = choose|j: int| 0 <= j < d.len() && #[trigger] ticket_candidate(d[j]).contains(v);
            assert(d[j] == ts[j]);
        }
        assert(ts[ts.len() - 1] == ts.last());
    }
}

/// Ticket kinds in another order offer the same times.
proof fn lemma_ticket_reorder_contains(t1: Seq<ScreenTicketInfo>, t2: Seq<ScreenTicketInfo>, v: i64)
    requires
        t1.to_multiset() == t2.to_multiset(),
    ensures
        ticket_candidates(t1).contains(v) <==> ticket_candidates(t2).contains(v),
{
    t1.to_multiset_ensures();
    t2.to_multiset_ensures();
    lemma_ticket_candidates_contains(t1, v);
    lemma_ticket_candidates_contains(t2, v);
    if ticket_candidates(t1).contains(v) {
        let j = choose|j: int| 0 <= j < t1.len() && #[trigger] ticket_candidate(t1[j]).contains(v);
        assert(t1.contains(t1[j]));
        assert(t1.to_multiset().count(t1[j]) > 0);
        assert(t2.to_multiset().count(t1[j]) > 0);
        assert(t2.contains(t1[j]));
        let k = choose|k: int| 0 <= k < t2.len() && t2[k] == t1[j];
        assert(ticket_candidate(t2[k]).contains(v));
    }
    if ticket_candidates(t2).contains(v) {
        let j = choose|j: int| 0 <= j < t2.len() && #[trigger] ticket_candidate(t2[j]).contains(v);
        assert(t2.contains(t2[j]));
        assert(t2.to_multiset().count(t2[j]) > 0);
        assert(t1.to_multiset().count(t2[j]) > 0);
        assert(t1.contains(t2[j]));
        let k = choose|k: int| 0 <= k < t1.len() && t1[k] == t2[j];
        assert(ticket_candidate(t1[k]).contains(v));
    }
}

/// A screen with its ticket kinds reordered offers the same times.
proof fn lemma_screen_reorder_contains(x: ScreenInfo, y: ScreenInfo, v: i64)
    requires
        is_screen_reordering(x, y),
    ensures
        screen_candidates(x).contains(v) <==> screen_candidates(y).contains(v),
{
    let from_start = match y.start_time {
        Some(t) => if t > 0 { seq![t as i64] } else { seq![] },
        None => seq![],
    };
    let from_sale = if y.sale_start > 0 { seq![y.sale_start as i64] } else { seq![] };
    let head = from_start + from_sale;
    lemma_ticket_reorder_contains(x.ticket_list@, y.ticket_list@, v);
    lemma_concat_contains(head, ticket_candidates(x.ticket_list@), v);
    lemma_concat_contains(head, ticket_candidates(y.ticket_list@), v);
}

/// A time is offered by a list of screens exactly when one of them offers it.
proof fn lemma_sale_begin_candidates_contains(screens: Seq<ScreenInfo>, v: i64)
    ensures
        sale_begin_candidates(screens).contains(v) <==> exists|i: int|
            0 <= i < screens.len() && #[trigger] screen_candidates(screens[i]).contains(v),
    decreases screens.len(),
{
    if screens.len() > 0 {
        let d = screens.drop_last();
        lemma_sale_begin_candidates_contains(d, v);
        lemma_concat_contains(sale_begin_candidates(d), screen_candidates(screens.last()), v);
        if exists|i: int| 0 <= i < screens.len() && #[trigger] screen_candidates(screens[i]).contains(v) {
            let i = choose|i: int| 0 <= i < screens.len() && #[trigger] screen_candidates(screens[i]).contains(v);
            if i < d.len() {
                assert(d[i] == screens[i]);
            }
        }
        if exists|i: int| 0 <= i < d.len() && #[trigger] screen_candidates(d[i]).contains(v) {
            let i = choose|i: int| 0 <= i < d.len() && #[trigger] screen_candidates(d[i]).contains(v);
            assert(d[i] == screens[i]);
        }
        assert(screens[screens.len() - 1] == screens.last());
    }
}

/// Two sequences holding the same values have the same least value.
proof fn lemma_same_values_same_min(a: Seq<i64>, b: Seq<i64>)
    requires
        forall|v: i64| a.contains(v) <==> b.contains(v),
    ensures
        a.len() > 0 <==> b.len() > 0,
        a.len() > 0 ==> seq_min(a) == seq_min(b),
{
    if a.len() > 0 {
        assert(a.contains(a[0]));
    }
    if b.len() > 0 {
        assert(b.contains(b[0]));
    }
    if a.len() > 0 {
        lemma_seq_min_is_least(a);
        let m = seq_min(a);
        assert(b.contains(m));
        assert forall|i: int| 0 <= i < b.len() implies m <= #[trigger] b[i] by {
            assert(b.contains(b[i]));
            assert(a.contains(b[i]));
            let k = choose|k: int| 0 <= k < a.len() && a[k] == b[i];
        }
        lemma_least_is_seq_min(m, b);
    }
}

/// The order of the screens, and of the ticket kinds within each screen,
/// does not matter: a project whose screens are a reordering of another's,
/// with the same sale start, gets the same completed sale start.
pub proof fn law_sale_begin_ignores_order(t1: TicketInfo, t2: TicketInfo, perm: Seq<int>)
    requires
        t2.sale_begin == t1.sale_begin,
        is_screens_reordering(t2.screen_list@, t1.screen_list@, perm),
    ensures
        completed_sale_begin(t2) == completed_sale_begin(t1),
{
    let a = t1.screen_list@;
    let b = t2.screen_list@;
    let ca = sale_begin_candidates(a);
    let cb = sale_begin_candidates(b);
    assert forall|v: i64| ca.contains(v) <==> cb.contains(v) by {
        lemma_sale_begin_candidates_contains(a, v);
        lemma_sale_begin_candidates_contains(b, v);
        if ca.contains(v) {
            let k = choose|k: int| 0 <= k < a.len() && #[trigger] screen_candidates(a[k]).contains(v);
            assert(is_taken_by(perm, k));
            let i = choose|i: int| 0 <= i < perm.len() && perm[i] == k;
            lemma_screen_reorder_contains(b[i], a[perm[i]], v);
            assert(screen_candidates(b[i]).contains(v));
        }
        if cb.contains(v) {
            let i = choose|i: int| 0 <= i < b.len() && #[trigger] screen_candidates(b[i]).contains(v);
            lemma_screen_reorder_contains(b[i], a[perm[i]], v);
            assert(screen_candidates(a[perm[i]]).contains(v));
        }
    }
    lemma_same_values_same_min(ca, cb);
}


/// The times a screen offers, read off its fields.
proof fn lemma_screen_candidates_contains(sc: ScreenInfo, v: i64)
    ensures
        screen_candidates(sc).contains(v) <==> {
            ||| (sc.start_time matches Some(t) && t > 0 && v == t as i64)
            ||| (sc.sale_start > 0 && v == sc.sale_start as i64)
            ||| exists|j: int| 0 <= j < sc.ticket_list@.len() && (
                #[trigger] sc.ticket_list@[j].saleStart matches Some(t) && t > 0 && v == t as i64)
        },
{
    let ts = sc.ticket_list@;
    let from_start = match sc.start_time {
        Some(t) => if t > 0 { seq![t as i64] } else { seq![] },
        None => seq![],
    };
    let from_sale = if sc.sale_start > 0 { seq![sc.sale_start as i64] } else { seq![] };
    lemma_concat_contains(from_start + from_sale, ticket_candidates(ts), v);
    lemma_concat_contains(from_start, from_sale, v);
    lemma_ticket_candidates_contains(ts, v);
    if from_start.contains(v) {
        let q = choose|q: int| 0 <= q < from_start.len() && from_start[q] == v;
    }
    if from_sale.contains(v) {
        let q = choose|q: int| 0 <= q < from_sale.len() && from_sale[q] == v;
    }
    if let Some(t) = sc.start_time {
        if t > 0 && v == t as i64 {
            assert(from_start[0] == v);
        }
    }
    if sc.sale_start > 0 && v == sc.sale_start as i64 {
        assert(from_sale[0] == v);
    }
    if exists|j: int| 0 <= j < ts.len() && #[trigger] ticket_candidate(ts[j]).contains(v) {
        let j = choose|j: int| 0 <= j < ts.len() && #[trigger] ticket_candidate(ts[j]).contains(v);
        let q = choose|q: int| 0 <= q < ticket_candidate(ts[j]).len() && ticket_candidate(ts[j])[q] == v;
        assert(ts[j].saleStart matches Some(t) && t > 0 && v == t as i64);
    }
    if exists|j: int| 0 <= j < ts.len() && (#[trigger] ts[j].saleStart matches Some(t) && t > 0 && v == t as i64) {
        let j = choose|j: int| 0 <= j < ts.len() && (#[trigger] ts[j].saleStart matches Some(t) && t > 0 && v == t as i64);
        assert(ticket_candidate(ts[j])[0] == v);
        assert(ticket_candidate(ts[j]).contains(v));
    }
}

/// A missing sale start is completed with the earliest time the screens
/// offer: a positive screen start time, a positive screen sale start, or a
/// positive ticket-kind sale start. The result is one of those times and no
/// later than any of them; it stays missing exactly when none is offered.
pub proof fn law_completed_sale_begin_is_earliest_offer(info: TicketInfo)
    requires
        info.sale_begin is None,
    ensures
        ({
            let r = completed_sale_begin(info);
            let sc = info.screen_list@;
            &&& r is None <==> (forall|i: int| 0 <= i < sc.len() ==> {
                &&& !(#[trigger] sc[i].start_time matches Some(t) && t > 0)
                &&& sc[i].sale_start == 0
                &&& forall|j: int| 0 <= j < sc[i].ticket_list@.len() ==> !(
                    #[trigger] sc[i].ticket_list@[j].saleStart matches Some(t) && t > 0)
            })
            &&& r is Some ==> forall|i: int| 0 <= i < sc.len() && #[trigger] sc[i].sale_start > 0 ==> r->0 <= sc[i].sale_start as i64
            &&& r is Some ==> forall|i: int| 0 <= i < sc.len() ==> (
                #[trigger] sc[i].start_time matches Some(t) ==> (t > 0 ==> r->0 <= t as i64))
            &&& r is Some ==> forall|i: int, j: int| 0 <= i < sc.len() && 0 <= j < sc[i].ticket_list@.len() ==> (
                #[trigger] sc[i].ticket_list@[j].saleStart matches Some(t) ==> (t > 0 ==> r->0 <= t as i64))
            &&& r is Some ==> exists|i: int| 0 <= i < sc.len() && {
                ||| (#[trigger] sc[i].start_time matches Some(t) && t > 0 && r->0 == t as i64)
                ||| (sc[i].sale_start > 0 && r->0 == sc[i].sale_start as i64)
                ||| exists|j: int| 0 <= j < sc[i].ticket_list@.len() && (
                    #[trigger] sc[i].ticket_list@[j].saleStart matches Some(t) && t > 0 && r->0 == t as i64)
            }
        }),
{
    let sc = info.screen_list@;
    let c = sale_begin_candidates(sc);
    let r = completed_sale_begin(info);
    // Every offered time is among the candidates.
    assert forall|i: int, v: i64| 0 <= i < sc.len() && #[trigger] screen_candidates(sc[i]).contains(v) implies c.contains(v) by {
        lemma_sale_begin_candidates_contains(sc, v);
    }
    if c.len() > 0 {
        lemma_seq_min_is_least(c);
        let m = seq_min(c);
        assert(r == Some(m));
        assert forall|v: i64| c.contains(v) implies m <= v by {
            let k = choose|k: int| 0 <= k < c.len() && c[k] == v;
        }
        assert forall|i: int| 0 <= i < sc.len() && #[trigger] sc[i].sale_start > 0 implies m <= sc[i].sale_start as i64 by {
            lemma_screen_candidates_contains(sc[i], sc[i].sale_start as i64);
        }
        assert forall|i: int| 0 <= i < sc.len() implies (#[trigger] sc[i].start_time matches Some(t) ==> (t > 0 ==> m <= t as i64)) by {
            if let Some(t) = sc[i].start_time {
                if t > 0 {
                    lemma_screen_candidates_contains(sc[i], t as i64);
                }
            }
        }
        assert forall|i: int, j: int| 0 <= i < sc.len() && 0 <= j < sc[i].ticket_list@.len() implies (
            #[trigger] sc[i].ticket_list@[j].saleStart matches Some(t) ==> (t > 0 ==> m <= t as i64)) by {
            if let Some(t) = sc[i].ticket_list@[j].saleStart {
                if t > 0 {
                    lemma_screen_candidates_contains(sc[i], t as i64);
                }
            }
        }
        lemma_sale_begin_candidates_contains(sc, m);
        let i = choose|i: int| 0 <= i < sc.len() && #[trigger] screen_candidates(sc[i]).contains(m);
        lemma_screen_candidates_contains(sc[i], m);
        assert(c.contains(c[0]));
        lemma_sale_begin_candidates_contains(sc, c[0]);
        let i0 = choose|i: int| 0 <= i < sc.len() && #[trigger] screen_candidates(sc[i]).contains(c[0]);
        lemma_screen_candidates_contains(sc[i0], c[0]);
    } else {
        assert(r is None);
        assert forall|i: int| 0 <= i < sc.len() implies {
            &&& !(#[trigger] sc[i].start_time matches Some(t) && t > 0)
            &&& sc[i].sale_start == 0
            &&& forall|j: int| 0 <= j < sc[i].ticket_list@.len() ==> !(
                #[trigger] sc[i].ticket_list@[j].saleStart matches Some(t) && t > 0)
        } by {
            if let Some(t) = sc[i].start_time {
                if t > 0 {
                    lemma_screen_candidates_contains(sc[i], t as i64);
                    assert(c.contains(t as i64));
                }
            }
            if sc[i].sale_start > 0 {
                lemma_screen_candidates_contains(sc[i], sc[i].sale_start as i64);
                assert(c.contains(sc[i].sale_start as i64));
            }
            assert forall|j: int| 0 <= j < sc[i].ticket_list@.len() implies !(
                #[trigger] sc[i].ticket_list@[j].saleStart matches Some(t) && t > 0) by {
                if let Some(t) = sc[i].ticket_list@[j].saleStart {
                    if t > 0 {
                        lemma_screen_candidates_contains(sc[i], t as i64);
                        assert(c.contains(t as i64));
                    }
                }
            }
        }
    }
}

} // verus!
