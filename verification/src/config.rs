use vstd::prelude::*;

use crate::text::{str_eq, string_views};

verus! {

/// `names` with `name` added at the end, unless it is already there.
pub open spec fn inserted(names: Seq<Seq<char>>, name: Seq<char>) -> Seq<Seq<char>> {
    if names.contains(name) {
        names
    } else {
        names.push(name)
    }
}

/// `names` without `name`, the others kept in order.
pub open spec fn without(names: Seq<Seq<char>>, name: Seq<char>) -> Seq<Seq<char>>
    decreases names.len(),
{
    if names.len() == 0 {
        names
    } else if names.last() == name {
        without(names.drop_last(), name)
    } else {
        without(names.drop_last(), name).push(names.last())
    }
}

/// `names` with each name kept only where it first occurs, in order.
pub open spec fn first_occurrences(names: Seq<Seq<char>>) -> Seq<Seq<char>>
    decreases names.len(),
{
    if names.len() == 0 {
        names
    } else {
        inserted(first_occurrences(names.drop_last()), names.last())
    }
}

/// The services to keep stopped: a set of service names, kept in the order in
/// which they were added.
pub struct Blacklist {
    names: Vec<String>,
}

impl View for Blacklist {
    type V = Seq<Seq<char>>;

    closed spec fn view(&self) -> Seq<Seq<char>> {
        string_views(self.names@)
    }
}

proof fn lemma_push_contains(s: Seq<Seq<char>>, x: Seq<char>, o: Seq<char>)
    ensures
        s.push(x).contains(o) <==> (s.contains(o) || x == o),
{
    if s.push(x).contains(o) {
        let k = choose|k: int| 0 <= k < s.push(x).len() && s.push(x)[k] == o;
        if k < s.len() {
            assert(s[k] == o);
        }
    }
    if s.contains(o) {
        let k = choose|k: int| 0 <= k < s.len() && s[k] == o;
        assert(s.push(x)[k] == o);
    }
    if x == o {
        assert(s.push(x)[s.len() as int] == o);
    }
}

proof fn lemma_without_contains(names: Seq<Seq<char>>, name: Seq<char>, other: Seq<char>)
    ensures
        without(names, name).contains(other) <==> (names.contains(other) && other != name),
    decreases names.len(),
{
    if names.len() > 0 {
        let front = names.drop_last();
        lemma_without_contains(front, name, other);
        assert(names =~= front.push(names.last()));
        lemma_push_contains(front, names.last(), other);
        if names.last() != name {
            lemma_push_contains(without(front, name), names.last(), other);
        }
    }
}

proof fn lemma_without_absent(names: Seq<Seq<char>>, name: Seq<char>)
    requires
        !names.contains(name),
    ensures
        without(names, name) == names,
    decreases names.len(),
{
    if names.len() > 0 {
        let front = names.drop_last();
        assert(!front.contains(name)) by {
            if front.contains(name) {
                let i = choose|i: int| 0 <= i < front.len() && front[i] == name;
                assert(names[i] == name);
            }
        }
        lemma_without_absent(front, name);
        assert(names.last() != name) by {
            assert(names[names.len() - 1] == names.last());
        }
        assert(front.push(names.last()) =~= names);
    }
}

proof fn lemma_without_no_duplicates(names: Seq<Seq<char>>, name: Seq<char>)
    requires
        names.no_duplicates(),
    ensures
        without(names, name).no_duplicates(),
    decreases names.len(),
{
    if names.len() > 0 {
        let front = names.drop_last();
        assert(front.no_duplicates());
        lemma_without_no_duplicates(front, name);
        if names.last() != name {
            lemma_without_contains(front, name, names.last());
            assert(!front.contains(names.last())) by {
                if front.contains(names.last()) {
                    let i = choose|i: int| 0 <= i < front.len() && front[i] == names.last();
                    assert(names[i] == names[names.len() - 1]);
                }
            }
            let w = without(front, name);
            assert forall|i: int, j: int|
                0 <= i < w.push(names.last()).len() && 0 <= j < w.push(names.last()).len() && i
                    != j implies w.push(names.last())[i] != w.push(names.last())[j] by {
                if i == w.len() {
                    assert(w.contains(w[j]));
                } else if j == w.len() {
                    assert(w.contains(w[i]));
                }
            }
        }
    }
}

impl Blacklist {
    #[verifier::type_invariant]
    spec fn well_formed(self) -> bool {
        string_views(self.names@).no_duplicates()
    }

    /// An empty blacklist.
    pub fn new() -> (b: Blacklist)
        ensures
            b@ == Seq::<Seq<char>>::empty(),
            b@.no_duplicates(),
    {
        let b = Blacklist { names: Vec::new() };
        assert(b@ =~= Seq::<Seq<char>>::empty());
        b
    }

    /// The number of blacklisted services.
    pub fn len(&self) -> (n: usize)
        ensures
            n == self@.len(),
    {
        self.names.len()
    }

    /// Whether no service is blacklisted.
    pub fn is_empty(&self) -> (res: bool)
        ensures
            res == (self@.len() == 0),
    {
        self.names.len() == 0
    }

    /// Whether `name` is blacklisted.
    pub fn contains(&self, name: &str) -> (res: bool)
        ensures
            res == self@.contains(name@),
    {
        let mut i: usize = 0;
        while i < self.names.len()
            invariant
                i <= self.names.len(),
                forall|k: int| 0 <= k < i ==> self@[k] != name@,
            decreases self.names.len() - i,
        {
            if str_eq(self.names[i].as_str(), name) {
                assert(self@[i as int] == name@);
                return true;
            }
            i = i + 1;
        }
        false
    }

    /// Adds `name`; returns whether it was not there before (as `HashSet::insert`).
    pub fn insert(&mut self, name: String) -> (added: bool)
        ensures
            added == !old(self)@.contains(name@),
            final(self)@ == inserted(old(self)@, name@),
            final(self)@.no_duplicates(),
    {
        proof {
            use_type_invariant(&*self);
        }
        if self.contains(name.as_str()) {
            false
        } else {
            let ghost before = self@;
            let mut names: Vec<String> = Vec::new();
            std::mem::swap(&mut names, &mut self.names);
            names.push(name);
            assert(string_views(names@) =~= before.push(name@));
            assert(string_views(names@).no_duplicates()) by {
                let v = string_views(names@);
                assert forall|i: int, j: int|
                    0 <= i < v.len() && 0 <= j < v.len() && i != j implies v[i] != v[j] by {
                    if i == v.len() - 1 {
                        assert(before.contains(v[j]));
                    } else if j == v.len() - 1 {
                        assert(before.contains(v[i]));
                    }
                }
            }
            self.names = names;
            true
        }
    }

    /// Removes `name`; returns whether it was there (as `HashSet::remove`).
    pub fn remove(&mut self, name: &str) -> (removed: bool)
        ensures
            removed == old(self)@.contains(name@),
            final(self)@ == without(old(self)@, name@),
            final(self)@.no_duplicates(),
    {
        proof {
            use_type_invariant(&*self);
        }
        let ghost before = self@;
        let mut kept: Vec<String> = Vec::new();
        let mut found = false;
        let mut i: usize = 0;
        while i < self.names.len()
            invariant
                before == self@,
                before.no_duplicates(),
                i <= self.names.len(),
                string_views(kept@) == without(before.take(i as int), name@),
                found == before.take(i as int).contains(name@),
            decreases self.names.len() - i,
        {
            let n = self.names[i].clone();
            let same = str_eq(n.as_str(), name);
            let ghost prefix = before.take(i as int);
            assert(before.take(i + 1) =~= prefix.push(before[i as int]));
            assert(before.take(i + 1).drop_last() =~= prefix);
            if same {
                found = true;
            } else {
                kept.push(n);
                assert(string_views(kept@) =~= without(prefix, name@).push(before[i as int]));
            }
            proof {
                assert(n@ == before[i as int]);
                lemma_push_contains(prefix, before[i as int], name@);
            }
            i = i + 1;
        }
        assert(before.take(i as int) =~= before);
        proof {
            lemma_without_no_duplicates(before, name@);
        }
        self.names = kept;
        found
    }

    /// The blacklisted names, each once, in the order in which they were added.
    pub fn names(&self) -> (v: Vec<String>)
        ensures
            string_views(v@) == self@,
            string_views(v@).no_duplicates(),
    {
        proof {
            use_type_invariant(self);
        }
        let mut v: Vec<String> = Vec::new();
        let mut i: usize = 0;
        while i < self.names.len()
            invariant
                i <= self.names.len(),
                string_views(v@) == self@.take(i as int),
            decreases self.names.len() - i,
        {
            let ghost prev = v@;
            let n = self.names[i].clone();
            assert(n@ == self.names@[i as int]@);
            v.push(n);
            assert(string_views(v@) =~= string_views(prev).push(n@));
            assert(self@.take(i + 1) =~= self@.take(i as int).push(self@[i as int]));
            i = i + 1;
        }
        assert(self@.take(i as int) =~= self@);
        v
    }
}

/// The saved settings: the blacklist.
pub struct Config {
    pub blacklisted_services: Blacklist,
}

impl Config {
    /// Settings with an empty blacklist.
    pub fn new() -> (c: Config)
        ensures
            c.blacklisted_services@ == Seq::<Seq<char>>::empty(),
    {
        Config { blacklisted_services: Blacklist::new() }
    }

    /// Settings whose blacklist holds the given names, each once, at the place
    /// of its first occurrence.
    pub fn from_names(names: Vec<String>) -> (c: Config)
        ensures
            c.blacklisted_services@ == first_occurrences(string_views(names@)),
            c.blacklisted_services@.no_duplicates(),
            forall|n: Seq<char>|
                c.blacklisted_services@.contains(n) <==> string_views(names@).contains(n),
    {
        let mut b = Blacklist::new();
        let mut i: usize = 0;
        while i < names.len()
            invariant
                i <= names.len(),
                b@ == first_occurrences(string_views(names@).take(i as int)),
                b@.no_duplicates(),
            decreases names.len() - i,
        {
            b.insert(names[i].clone());
            proof {
                let views = string_views(names@);
                let taken = views.take(i + 1);
                assert(taken.drop_last() =~= views.take(i as int));
                assert(taken.last() == names@[i as int]@);
            }
            i = i + 1;
        }
        proof {
            assert(string_views(names@).take(i as int) =~= string_views(names@));
            assert forall|n: Seq<char>|
                b@.contains(n) <==> string_views(names@).contains(n) by {
                lemma_first_occurrences_contains(string_views(names@), n);
            }
        }
        Config { blacklisted_services: b }
    }
}

proof fn lemma_first_occurrences_contains(names: Seq<Seq<char>>, n: Seq<char>)
    ensures
        first_occurrences(names).contains(n) <==> names.contains(n),
    decreases names.len(),
{
    if names.len() > 0 {
        let front = names.drop_last();
        lemma_first_occurrences_contains(front, n);
        assert(names =~= front.push(names.last()));
        lemma_push_contains(front, names.last(), n);
        let f = first_occurrences(front);
        if !f.contains(names.last()) {
            lemma_push_contains(f, names.last(), n);
        }
    }
}

/// Law: names that are already distinct all stay, in their order.
pub proof fn law_distinct_names_keep_order(names: Seq<Seq<char>>)
    requires
        names.no_duplicates(),
    ensures
        first_occurrences(names) == names,
    decreases names.len(),
{
    if names.len() > 0 {
        let front = names.drop_last();
        assert(front.no_duplicates());
        law_distinct_names_keep_order(front);
        assert(!front.contains(names.last())) by {
            if front.contains(names.last()) {
                let k = choose|k: int| 0 <= k < front.len() && front[k] == names.last();
                assert(names[k] == names[names.len() - 1]);
            }
        }
        assert(front.push(names.last()) =~= names);
    }
}

/// Law: a name is blacklisted right after it is added.
pub proof fn law_insert_then_contains(names: Seq<Seq<char>>, name: Seq<char>)
    ensures
        inserted(names, name).contains(name),
{
    if !names.contains(name) {
        assert(names.push(name)[names.len() as int] == name);
    }
}

/// Law: adding a name that is already blacklisted changes nothing.
pub proof fn law_insert_idempotent(names: Seq<Seq<char>>, name: Seq<char>)
    requires
        names.contains(name),
    ensures
        inserted(names, name) == names,
{
}

/// Law: after a removal the name is no longer blacklisted, and every other
/// name keeps its membership.
pub proof fn law_remove_forgets(names: Seq<Seq<char>>, name: Seq<char>, other: Seq<char>)
    ensures
        !without(names, name).contains(name),
        other != name ==> (without(names, name).contains(other) <==> names.contains(other)),
{
    lemma_without_contains(names, name, name);
    lemma_without_contains(names, name, other);
}

/// Law: removing a name that was just added to a blacklist without it gives
/// the blacklist back.
pub proof fn law_remove_undoes_insert(names: Seq<Seq<char>>, name: Seq<char>)
    requires
        !names.contains(name),
    ensures
        without(inserted(names, name), name) == names,
{
    lemma_without_absent(names, name);
    let grown = names.push(name);
    assert(grown.drop_last() =~= names);
    assert(grown.last() == name);
}

} // verus!
