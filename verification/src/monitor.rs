use vstd::prelude::*;

use crate::text::{
    chars_of, joined, lemma_split_chars_nonempty, split_chars, string_from_chars,
    string_views, trim_chars, trim_end_chars, trim_start_chars, trim_vec,
};

verus! {

/// The trimmed, non-empty pieces among `pieces`, in order.
pub open spec fn nonempty_trimmed(pieces: Seq<Seq<char>>) -> Seq<Seq<char>>
    decreases pieces.len(),
{
    if pieces.len() == 0 {
        Seq::empty()
    } else {
        let rest = nonempty_trimmed(pieces.drop_last());
        let t = trim_chars(pieces.last());
        if t.len() == 0 {
            rest
        } else {
            rest.push(t)
        }
    }
}

/// The service names that a comma-separated list holds: each piece between
/// commas, trimmed of white space, empty pieces left out.
pub open spec fn service_list(s: Seq<char>) -> Seq<Seq<char>> {
    nonempty_trimmed(split_chars(s, ','))
}

/// Reads the `--services` argument of the monitor: splits it at commas, trims
/// each piece and drops the empty ones.
pub fn parse_service_list(s: &str) -> (names: Vec<String>)
    ensures
        string_views(names@) == service_list(s@),
{
    let chars = chars_of(s);
    let mut names: Vec<String> = Vec::new();
    let mut current: Vec<char> = Vec::new();
    let mut i: usize = 0;
    proof {
        assert(chars@.take(0) =~= Seq::<char>::empty());
    }
    while i < chars.len()
        invariant
            chars@ == s@,
            i <= chars.len(),
            split_chars(chars@.take(i as int), ',').len() >= 1,
            split_chars(chars@.take(i as int), ',').last() == current@,
            string_views(names@) == nonempty_trimmed(
                split_chars(chars@.take(i as int), ',').drop_last(),
            ),
        decreases chars.len() - i,
    {
        let c = chars[i];
        let ghost before = split_chars(chars@.take(i as int), ',');
        assert(chars@.take(i + 1).drop_last() =~= chars@.take(i as int));
        if c == ',' {
            let t = trim_vec(&current);
            if t.len() > 0 {
                names.push(string_from_chars(&t));
            }
            current = Vec::new();
            proof {
                let after = split_chars(chars@.take(i + 1), ',');
                assert(after == before.push(Seq::empty()));
                assert(after.drop_last() =~= before);
                assert(string_views(names@) =~= nonempty_trimmed(before));
            }
        } else {
            current.push(c);
            proof {
                let after = split_chars(chars@.take(i + 1), ',');
                assert(after.drop_last() =~= before.drop_last());
            }
        }
        i = i + 1;
    }
    let t = trim_vec(&current);
    if t.len() > 0 {
        names.push(string_from_chars(&t));
    }
    proof {
        assert(chars@.take(i as int) =~= s@);
        let all = split_chars(s@, ',');
        assert(all.drop_last().push(all.last()) =~= all);
        assert(string_views(names@) =~= nonempty_trimmed(all));
    }
    names
}

/// What the monitor does with a service after asking whether it runs.
#[derive(Debug, Clone, Copy, PartialEq, Eq)]
pub enum MonitorStep {
    /// The service runs: stop it.
    StopService,
    /// The service does not run: nothing to do.
    LeaveAlone,
    /// The query failed: report the error.
    ReportError,
}

/// The monitor's decision for one service, from the result of asking whether
/// it runs.
pub fn monitor_step(check: &Result<bool, String>) -> (step: MonitorStep)
    ensures
        step == (match check {
            Ok(true) => MonitorStep::StopService,
            Ok(false) => MonitorStep::LeaveAlone,
            Err(_) => MonitorStep::ReportError,
        }),
{
    match check {
        Ok(true) => MonitorStep::StopService,
        Ok(false) => MonitorStep::LeaveAlone,
        Err(_) => MonitorStep::ReportError,
    }
}

/// Appending text without separators extends the last piece.
proof fn lemma_split_append_plain(z: Seq<char>, l: Seq<char>, sep: char)
    requires
        !l.contains(sep),
    ensures
        split_chars(z + l, sep) == split_chars(z, sep).update(
            split_chars(z, sep).len() - 1,
            split_chars(z, sep).last() + l,
        ),
    decreases l.len(),
{
    lemma_split_chars_nonempty(z, sep);
    if l.len() == 0 {
        assert(z + l =~= z);
        assert(split_chars(z, sep).last() + l =~= split_chars(z, sep).last());
        assert(split_chars(z, sep).update(split_chars(z, sep).len() - 1, split_chars(z, sep).last())
            =~= split_chars(z, sep));
    } else {
        let l0 = l.drop_last();
        assert(!l0.contains(sep)) by {
            if l0.contains(sep) {
                let k = choose|k: int| 0 <= k < l0.len() && l0[k] == sep;
                assert(l[k] == sep);
            }
        }
        assert(l.last() != sep) by {
            assert(l[l.len() - 1] == l.last());
        }
        lemma_split_append_plain(z, l0, sep);
        assert((z + l).drop_last() =~= z + l0);
        assert((z + l).last() == l.last());
        let p = split_chars(z, sep);
        let q = split_chars(z + l0, sep);
        assert(q == p.update(p.len() - 1, p.last() + l0));
        assert(q.len() == p.len());
        assert(q.last() == p.last() + l0);
        assert(split_chars(z + l, sep) == q.update(q.len() - 1, q.last().push(l.last())));
        assert(p.last() + l0 + seq![l.last()] =~= p.last() + l);
        assert((p.last() + l0).push(l.last()) =~= p.last() + l);
        assert(split_chars(z + l, sep) =~= p.update(p.len() - 1, p.last() + l));
    }
}

/// Joining pieces free of `sep` with `sep` and splitting again gives the pieces back.
proof fn lemma_split_joined(parts: Seq<Seq<char>>, sep: char)
    requires
        parts.len() >= 1,
        forall|i: int| 0 <= i < parts.len() ==> !(#[trigger] parts[i]).contains(sep),
    ensures
        split_chars(joined(parts, seq![sep]), sep) == parts,
    decreases parts.len(),
{
    if parts.len() == 1 {
        lemma_split_append_plain(Seq::empty(), parts[0], sep);
        assert(Seq::<char>::empty() + parts[0] =~= parts[0]);
        assert(split_chars(Seq::empty(), sep) == seq![Seq::<char>::empty()]);
        assert(split_chars(parts[0], sep) =~= parts);
    } else {
        let front = parts.drop_last();
        assert forall|i: int| 0 <= i < front.len() implies !(#[trigger] front[i]).contains(sep) by {
            assert(front[i] == parts[i]);
        }
        lemma_split_joined(front, sep);
        let head = joined(front, seq![sep]) + seq![sep];
        assert(head.drop_last() =~= joined(front, seq![sep]));
        assert(split_chars(head, sep) == front.push(Seq::empty()));
        assert(!parts.last().contains(sep)) by {
            assert(parts[parts.len() - 1] == parts.last());
        }
        lemma_split_append_plain(head, parts.last(), sep);
        assert(joined(parts, seq![sep]) =~= head + parts.last());
        assert(Seq::<char>::empty() + parts.last() =~= parts.last());
        assert(front.push(Seq::empty()).update(front.len() as int, parts.last()) =~= parts);
    }
}

/// Pieces that are already trimmed and non-empty all stay.
proof fn lemma_nonempty_trimmed_keeps(parts: Seq<Seq<char>>)
    requires
        forall|i: int|
            0 <= i < parts.len() ==> (#[trigger] parts[i]).len() > 0 && trim_chars(parts[i])
                == parts[i],
    ensures
        nonempty_trimmed(parts) == parts,
    decreases parts.len(),
{
    if parts.len() > 0 {
        let front = parts.drop_last();
        assert forall|i: int| 0 <= i < front.len() implies (#[trigger] front[i]).len() > 0
            && trim_chars(front[i]) == front[i] by {
            assert(front[i] == parts[i]);
        }
        lemma_nonempty_trimmed_keeps(front);
        assert(parts[parts.len() - 1] == parts.last());
        assert(front.push(parts.last()) =~= parts);
    }
}

/// Law: a list of service names, each non-empty, already trimmed and free of
/// commas, written with commas between them (the `--services` form), reads
/// back as the same list.
pub proof fn law_service_list_round_trip(names: Seq<Seq<char>>)
    requires
        forall|i: int|
            0 <= i < names.len() ==> (#[trigger] names[i]).len() > 0 && trim_chars(names[i])
                == names[i] && !names[i].contains(','),
    ensures
        service_list(joined(names, seq![','])) == names,
{
    if names.len() == 0 {
        assert(split_chars(Seq::empty(), ',') == seq![Seq::<char>::empty()]);
        assert(trim_start_chars(Seq::<char>::empty()) == Seq::<char>::empty());
        assert(trim_end_chars(Seq::<char>::empty()) == Seq::<char>::empty());
        let pieces = seq![Seq::<char>::empty()];
        assert(pieces.drop_last() =~= Seq::<Seq<char>>::empty());
        assert(pieces.last() == Seq::<char>::empty());
        assert(trim_chars(pieces.last()).len() == 0);
        assert(nonempty_trimmed(pieces) == nonempty_trimmed(pieces.drop_last()));
        assert(joined(names, seq![',']) == Seq::<char>::empty());
        assert(names =~= Seq::<Seq<char>>::empty());
    } else {
        lemma_split_joined(names, ',');
        lemma_nonempty_trimmed_keeps(names);
    }
}

} // verus!
