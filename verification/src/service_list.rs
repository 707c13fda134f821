use vstd::prelude::*;

use crate::service_manager::{is_running_status, ServiceInfo};
use crate::text::{
    compare_str, lemma_lex_order_basics, lemma_lex_order_transitive, lex_order, str_eq,
};

verus! {

/// Display order of two services: running services first, then by name
/// (`-1`: `a` first, `0`: same rank, `1`: `b` first).
pub open spec fn service_order(a: ServiceInfo, b: ServiceInfo) -> int {
    let ra = is_running_status(a.status@);
    let rb = is_running_status(b.status@);
    if ra && !rb {
        -1
    } else if !ra && rb {
        1
    } else {
        lex_order(a.name@, b.name@)
    }
}

/// Whether the services stand in display order.
pub open spec fn display_sorted(s: Seq<ServiceInfo>) -> bool {
    forall|i: int, j: int| 0 <= i < j < s.len() ==> service_order(s[i], s[j]) <= 0
}

/// The services of `s` that rank with `x`, in their order in `s`.
pub open spec fn ties(s: Seq<ServiceInfo>, x: ServiceInfo) -> Seq<ServiceInfo>
    decreases s.len(),
{
    if s.len() == 0 {
        s
    } else if service_order(s.last(), x) == 0 {
        ties(s.drop_last(), x).push(s.last())
    } else {
        ties(s.drop_last(), x)
    }
}

/// The result of a stable sort of `input` into display order: `out` is in
/// display order, and the services of each rank come in the order they had in
/// `input`.
pub open spec fn stably_sorted_from(out: Seq<ServiceInfo>, input: Seq<ServiceInfo>) -> bool {
    &&& display_sorted(out)
    &&& out.len() == input.len()
    &&& forall|x: ServiceInfo| #[trigger] ties(out, x) == ties(input, x)
}

/// `service_order` is antisymmetric and ranks equal exactly the services
/// with the same running state and name.
pub proof fn lemma_service_order_basics(a: ServiceInfo, b: ServiceInfo)
    ensures
        service_order(a, b) == -service_order(b, a),
        -1 <= service_order(a, b) <= 1,
        service_order(a, b) == 0 <==> (is_running_status(a.status@) == is_running_status(
            b.status@) && a.name@ == b.name@),
{
    lemma_lex_order_basics(a.name@, b.name@);
}

/// `service_order(a, b) <= 0` is transitive, strictly when one step is strict.
pub proof fn lemma_service_order_transitive(a: ServiceInfo, b: ServiceInfo, c: ServiceInfo)
    requires
        service_order(a, b) <= 0,
        service_order(b, c) <= 0,
    ensures
        service_order(a, c) <= 0,
        service_order(a, b) < 0 || service_order(b, c) < 0 ==> service_order(a, c) < 0,
{
    lemma_service_order_basics(a, b);
    lemma_service_order_basics(b, c);
    lemma_service_order_basics(a, c);
    let ra = is_running_status(a.status@);
    let rb = is_running_status(b.status@);
    let rc = is_running_status(c.status@);
    if ra == rb && rb == rc {
        lemma_lex_order_transitive(a.name@, b.name@, c.name@);
    }
}

proof fn lemma_ties_concat(a: Seq<ServiceInfo>, b: Seq<ServiceInfo>, x: ServiceInfo)
    ensures
        ties(a + b, x) == ties(a, x) + ties(b, x),
    decreases b.len(),
{
    if b.len() == 0 {
        assert(a + b =~= a);
        assert(ties(a, x) + ties(b, x) =~= ties(a, x));
    } else {
        lemma_ties_concat(a, b.drop_last(), x);
        assert((a + b).drop_last() =~= a + b.drop_last());
        assert((a + b).last() == b.last());
        if service_order(b.last(), x) == 0 {
            assert(ties(a, x) + ties(b.drop_last(), x).push(b.last()) =~= (ties(a, x) + ties(
                b.drop_last(),
                x,
            )).push(b.last()));
        }
    }
}

proof fn lemma_ties_none(s: Seq<ServiceInfo>, x: ServiceInfo)
    requires
        forall|k: int| 0 <= k < s.len() ==> service_order(#[trigger] s[k], x) != 0,
    ensures
        ties(s, x) == Seq::<ServiceInfo>::empty(),
    decreases s.len(),
{
    if s.len() > 0 {
        assert(service_order(s[s.len() - 1], x) != 0);
        let front = s.drop_last();
        assert forall|k: int| 0 <= k < front.len() implies service_order(#[trigger] front[k], x)
            != 0 by {
            assert(front[k] == s[k]);
        }
        lemma_ties_none(front, x);
    }
}

proof fn lemma_ties_one(v: ServiceInfo, x: ServiceInfo)
    ensures
        ties(seq![v], x) == (if service_order(v, x) == 0 {
            seq![v]
        } else {
            Seq::<ServiceInfo>::empty()
        }),
{
    let s = seq![v];
    assert(s.drop_last() =~= Seq::<ServiceInfo>::empty());
    assert(s.last() == v);
    assert(ties(Seq::<ServiceInfo>::empty(), x) == Seq::<ServiceInfo>::empty());
    assert(Seq::<ServiceInfo>::empty().push(v) =~= seq![v]);
}

/// Whether `a` comes strictly before `b` in display order.
pub fn service_precedes(a: &ServiceInfo, b: &ServiceInfo) -> (res: bool)
    ensures
        res == (service_order(*a, *b) < 0),
{
    let ra = a.is_running();
    let rb = b.is_running();
    if ra && !rb {
        true
    } else if !ra && rb {
        false
    } else {
        compare_str(a.name.as_str(), b.name.as_str()) < 0
    }
}

/// Inserts `v` into the display-ordered `out` after every service that does
/// not come after it.
fn insert_in_order(out: &mut Vec<ServiceInfo>, v: ServiceInfo)
    requires
        display_sorted(old(out)@),
    ensures
        display_sorted(final(out)@),
        final(out)@.len() == old(out)@.len() + 1,
        forall|x: ServiceInfo|
            #[trigger] ties(final(out)@, x) == ties(old(out)@, x) + (if service_order(v, x) == 0 {
                seq![v]
            } else {
                Seq::<ServiceInfo>::empty()
            }),
{
    let ghost before = out@;
    let mut p: usize = 0;
    while p < out.len() && !service_precedes(&v, &out[p])
        invariant
            out@ == before,
            p <= out.len(),
            forall|k: int| 0 <= k < p ==> service_order(v, #[trigger] before[k]) >= 0,
        decreases out.len() - p,
    {
        p = p + 1;
    }
    out.insert(p, v);
    proof {
        let after = out@;
        let head = before.take(p as int);
        let tail = before.skip(p as int);
        assert(after =~= head + seq![v] + tail);
        assert(before =~= head + tail);
        assert forall|k: int| 0 <= k < tail.len() implies service_order(v, #[trigger] tail[k])
            < 0 by {
            assert(tail[k] == before[p + k]);
            assert(service_order(v, before[p as int]) < 0);
            if k > 0 {
                lemma_service_order_transitive(v, before[p as int], before[p + k]);
            }
        }
        assert forall|i: int, j: int| 0 <= i < j < after.len() implies service_order(
            after[i],
            after[j],
        ) <= 0 by {
            if j < p {
                assert(after[i] == before[i] && after[j] == before[j]);
            } else if j == p {
                assert(after[i] == before[i]);
                lemma_service_order_basics(v, before[i]);
            } else if i == p {
                assert(after[j] == tail[j - p - 1]);
            } else if i < p {
                assert(after[i] == before[i] && after[j] == before[j - 1]);
            } else {
                assert(after[i] == before[i - 1] && after[j] == before[j - 1]);
            }
        }
        assert forall|x: ServiceInfo| #[trigger]
            ties(after, x) == ties(before, x) + (if service_order(v, x) == 0 {
                seq![v]
            } else {
                Seq::<ServiceInfo>::empty()
            }) by {
            lemma_ties_concat(head + seq![v], tail, x);
            lemma_ties_concat(head, seq![v], x);
            lemma_ties_concat(head, tail, x);
            lemma_ties_one(v, x);
            if service_order(v, x) == 0 {
                assert forall|k: int| 0 <= k < tail.len() implies service_order(
                    #[trigger] tail[k],
                    x,
                ) != 0 by {
                    lemma_service_order_basics(tail[k], x);
                    lemma_service_order_basics(v, x);
                    lemma_service_order_basics(v, tail[k]);
                }
                lemma_ties_none(tail, x);
                assert(ties(head, x) + Seq::<ServiceInfo>::empty() =~= ties(head, x));
                assert(ties(head, x) + seq![v] + Seq::<ServiceInfo>::empty() =~= ties(head, x)
                    + seq![v]);
            } else {
                assert(ties(head, x) + Seq::<ServiceInfo>::empty() =~= ties(head, x));
                assert(ties(before, x) + Seq::<ServiceInfo>::empty() =~= ties(before, x));
            }
        }
    }
}

/// Sorts services for display: running services first, then by name; the
/// sort is stable, as `slice::sort_by` is.
pub fn sort_services(services: Vec<ServiceInfo>) -> (sorted: Vec<ServiceInfo>)
    ensures
        stably_sorted_from(sorted@, services@),
{
    let ghost input = services@;
    assert(input.len() == services.len());
    let mut rest = services;
    let mut out: Vec<ServiceInfo> = Vec::new();
    let mut i: usize = 0;
    while rest.len() > 0
        invariant
            i <= input.len(),
            input.len() <= usize::MAX,
            rest@ == input.skip(i as int),
            display_sorted(out@),
            out@.len() == i,
            forall|x: ServiceInfo| #[trigger] ties(out@, x) == ties(input.take(i as int), x),
        decreases rest.len(),
    {
        let v = rest.remove(0);
        assert(v == input[i as int]);
        let ghost prev = out@;
        insert_in_order(&mut out, v);
        proof {
            let taken = input.take(i + 1);
            assert(taken.drop_last() =~= input.take(i as int));
            assert(taken.last() == v);
            assert forall|x: ServiceInfo| #[trigger] ties(out@, x) == ties(taken, x) by {
                assert(ties(prev, x) == ties(input.take(i as int), x));
                if service_order(v, x) == 0 {
                    assert(ties(taken, x) == ties(input.take(i as int), x).push(v));
                    assert(ties(prev, x) + seq![v] =~= ties(prev, x).push(v));
                } else {
                    assert(ties(prev, x) + Seq::<ServiceInfo>::empty() =~= ties(prev, x));
                }
            }
            assert(rest@ =~= input.skip(i + 1));
        }
        i = i + 1;
    }
    assert(input.take(i as int) =~= input);
    out
}

/// The number of services of `s` whose status word is `status`.
pub open spec fn count_status(s: Seq<ServiceInfo>, status: Seq<char>) -> nat
    decreases s.len(),
{
    if s.len() == 0 {
        0
    } else {
        count_status(s.drop_last(), status) + (if s.last().status@ == status {
            1nat
        } else {
            0nat
        })
    }
}

proof fn lemma_count_status_bound(s: Seq<ServiceInfo>, status: Seq<char>)
    ensures
        count_status(s, status) <= s.len(),
    decreases s.len(),
{
    if s.len() > 0 {
        lemma_count_status_bound(s.drop_last(), status);
    }
}

/// How many services have the status word `status`.
pub fn count_with_status(services: &Vec<ServiceInfo>, status: &str) -> (n: usize)
    ensures
        n == count_status(services@, status@),
{
    let mut n: usize = 0;
    let mut i: usize = 0;
    while i < services.len()
        invariant
            i <= services.len(),
            n == count_status(services@.take(i as int), status@),
        decreases services.len() - i,
    {
        proof {
            lemma_count_status_bound(services@.take(i as int), status@);
        }
        if str_eq(services[i].status.as_str(), status) {
            n = n + 1;
        }
        assert(services@.take(i + 1).drop_last() =~= services@.take(i as int));
        i = i + 1;
    }
    assert(services@.take(i as int) =~= services@);
    n
}

/// Whether position `j` of `s` holds the first service named `name`.
pub open spec fn first_named(s: Seq<ServiceInfo>, name: Seq<char>, j: int) -> bool {
    &&& 0 <= j < s.len()
    &&& s[j].name@ == name
    &&& forall|k: int| 0 <= k < j ==> (#[trigger] s[k]).name@ != name
}

/// The position of the first service named `name` (`Iterator::position`).
pub fn position_of_name(services: &Vec<ServiceInfo>, name: &str) -> (pos: Option<usize>)
    ensures
        match pos {
            Some(j) => first_named(services@, name@, j as int),
            None => forall|k: int| 0 <= k < services@.len() ==> (#[trigger] services@[k]).name@
                != name@,
        },
{
    let mut i: usize = 0;
    while i < services.len()
        invariant
            i <= services.len(),
            forall|k: int| 0 <= k < i ==> (#[trigger] services@[k]).name@ != name@,
        decreases services.len() - i,
    {
        if str_eq(services[i].name.as_str(), name) {
            return Some(i);
        }
        i = i + 1;
    }
    None
}

proof fn lemma_ties_members(s: Seq<ServiceInfo>, x: ServiceInfo, i: int)
    requires
        0 <= i < ties(s, x).len(),
    ensures
        exists|k: int| 0 <= k < s.len() && s[k] == ties(s, x)[i] && service_order(s[k], x) == 0,
    decreases s.len(),
{
    let front = s.drop_last();
    if service_order(s.last(), x) == 0 && i == ties(s, x).len() - 1 {
        assert(s[s.len() - 1] == s.last());
    } else {
        lemma_ties_members(front, x, i);
        let k = choose|k: int|
            0 <= k < front.len() && front[k] == ties(front, x)[i] && service_order(front[k], x)
                == 0;
        assert(s[k] == front[k]);
    }
}

proof fn lemma_unique_order(a: Seq<ServiceInfo>, b: Seq<ServiceInfo>)
    requires
        display_sorted(a),
        display_sorted(b),
        a.len() == b.len(),
        forall|x: ServiceInfo| #[trigger] ties(a, x) == ties(b, x),
    ensures
        a == b,
    decreases a.len(),
{
    if a.len() == 0 {
        assert(a =~= b);
    } else {
        let la = a.last();
        let lb = b.last();
        lemma_service_order_basics(la, la);
        lemma_service_order_basics(lb, lb);
        assert(ties(a, la) == ties(a.drop_last(), la).push(la));
        assert(ties(b, lb) == ties(b.drop_last(), lb).push(lb));
        let ta = ties(a, la);
        assert(ties(b, la) == ta);
        lemma_ties_members(b, la, ta.len() - 1);
        let kb = choose|k: int|
            0 <= k < b.len() && b[k] == ties(b, la)[ta.len() - 1] && service_order(b[k], la) == 0;
        let tb = ties(b, lb);
        assert(ties(a, lb) == tb);
        lemma_ties_members(a, lb, tb.len() - 1);
        let ka = choose|k: int|
            0 <= k < a.len() && a[k] == ties(a, lb)[tb.len() - 1] && service_order(a[k], lb) == 0;
        if kb < b.len() - 1 {
            assert(service_order(b[kb], b[b.len() - 1]) <= 0);
        }
        lemma_service_order_basics(b[kb], la);
        lemma_service_order_transitive(la, b[kb], lb);
        if ka < a.len() - 1 {
            assert(service_order(a[ka], a[a.len() - 1]) <= 0);
        }
        lemma_service_order_basics(a[ka], lb);
        lemma_service_order_transitive(lb, a[ka], la);
        lemma_service_order_basics(la, lb);
        assert(service_order(lb, la) == 0);
        assert(ties(b, la) == ties(b.drop_last(), la).push(lb));
        assert(la == lb);
        let a0 = a.drop_last();
        let b0 = b.drop_last();
        assert forall|x: ServiceInfo| #[trigger] ties(a0, x) == ties(b0, x) by {
            assert(ties(a, x) == ties(b, x));
            if service_order(la, x) == 0 {
                assert(ties(a0, x) =~= ties(a, x).drop_last());
                assert(ties(b0, x) =~= ties(b, x).drop_last());
            }
        }
        assert(display_sorted(a0)) by {
            assert forall|i: int, j: int| 0 <= i < j < a0.len() implies service_order(
                a0[i],
                a0[j],
            ) <= 0 by {
                assert(a0[i] == a[i] && a0[j] == a[j]);
            }
        }
        assert(display_sorted(b0)) by {
            assert forall|i: int, j: int| 0 <= i < j < b0.len() implies service_order(
                b0[i],
                b0[j],
            ) <= 0 by {
                assert(b0[i] == b[i] && b0[j] == b[j]);
            }
        }
        lemma_unique_order(a0, b0);
        assert(a =~= a0.push(la));
        assert(b =~= b0.push(lb));
    }
}

/// Law: the display order of a listing is determined by the listing: two
/// stable sorts of the same services give the same sequence.
pub proof fn law_display_order_unique(
    a: Seq<ServiceInfo>,
    b: Seq<ServiceInfo>,
    input: Seq<ServiceInfo>,
)
    requires
        stably_sorted_from(a, input),
        stably_sorted_from(b, input),
    ensures
        a == b,
{
    assert forall|x: ServiceInfo| #[trigger] ties(a, x) == ties(b, x) by {
        assert(ties(a, x) == ties(input, x));
        assert(ties(b, x) == ties(input, x));
    }
    lemma_unique_order(a, b);
}

/// Law: sorting services that are already in display order leaves them as
/// they are.
pub proof fn law_sorting_sorted_is_identity(out: Seq<ServiceInfo>, input: Seq<ServiceInfo>)
    requires
        display_sorted(input),
        stably_sorted_from(out, input),
    ensures
        out == input,
{
    law_display_order_unique(out, input, input);
}

/// Law: adding a service to a list adds one to the count of its own status
/// and leaves the counts of the other statuses as they were.
pub proof fn law_count_status_push(s: Seq<ServiceInfo>, x: ServiceInfo, status: Seq<char>)
    ensures
        count_status(s.push(x), status) == count_status(s, status) + (if x.status@ == status {
            1int
        } else {
            0int
        }),
{
    assert(s.push(x).drop_last() =~= s);
}

/// Whether a service has the status word `status`.
pub open spec fn has_status(status: Seq<char>) -> spec_fn(ServiceInfo) -> bool {
    |x: ServiceInfo| x.status@ == status
}

/// Law: the count of a status is the number of services that have it, that is
/// the length of the list filtered on it.
pub proof fn law_count_status_is_filter_len(s: Seq<ServiceInfo>, status: Seq<char>)
    ensures
        count_status(s, status) == s.filter(has_status(status)).len(),
    decreases s.len(),
{
    reveal(Seq::filter);
    if s.len() > 0 {
        law_count_status_is_filter_len(s.drop_last(), status);
    }
}

/// Law: when every service has the status, all of them are counted; when
/// none has it, none is.
pub proof fn law_count_status_all_or_none(s: Seq<ServiceInfo>, status: Seq<char>)
    ensures
        (forall|i: int| 0 <= i < s.len() ==> (#[trigger] s[i]).status@ == status) ==> count_status(
            s,
            status,
        ) == s.len(),
        (forall|i: int| 0 <= i < s.len() ==> (#[trigger] s[i]).status@ != status) ==> count_status(
            s,
            status,
        ) == 0,
    decreases s.len(),
{
    if s.len() > 0 {
        let front = s.drop_last();
        law_count_status_all_or_none(front, status);
        if forall|i: int| 0 <= i < s.len() ==> (#[trigger] s[i]).status@ == status {
            assert forall|i: int| 0 <= i < front.len() implies (#[trigger] front[i]).status@
                == status by {
                assert(front[i] == s[i]);
            }
            assert(s[s.len() - 1] == s.last());
        }
        if forall|i: int| 0 <= i < s.len() ==> (#[trigger] s[i]).status@ != status {
            assert forall|i: int| 0 <= i < front.len() implies (#[trigger] front[i]).status@
                != status by {
                assert(front[i] == s[i]);
            }
            assert(s[s.len() - 1] == s.last());
        }
    }
}

} // verus!
