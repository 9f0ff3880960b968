//! How often each keyword occurs on a page: a map from keyword to count,
//! kept as a list in which no keyword occurs twice.

use vstd::prelude::*;

verus! {

/// Whether no keyword occurs twice in `s`.
pub open spec fn distinct_names(s: Seq<(Seq<char>, u32)>) -> bool {
    forall|i: int, j: int| 0 <= i < j < s.len() ==> s[i].0 != s[j].0
}

/// Whether `name` occurs in `s`.
pub open spec fn has_name(s: Seq<(Seq<char>, u32)>, name: Seq<char>) -> bool {
    exists|i: int| 0 <= i < s.len() && s[i].0 == name
}

/// `s` with the count of `name` set to `count`: in its place where the
/// keyword is there, at the end where it is not.
pub open spec fn with_count(s: Seq<(Seq<char>, u32)>, name: Seq<char>, count: u32) -> Seq<(Seq<char>, u32)> {
    if has_name(s, name) {
        let i = choose|i: int| 0 <= i < s.len() && s[i].0 == name;
        s.update(i, (name, count))
    } else {
        s.push((name, count))
    }
}

/// The counts of keywords, each keyword at most once.
pub struct KeywordCounts {
    entries: Vec<(String, u32)>,
}

pub open spec fn pairs_view(v: Seq<(String, u32)>) -> Seq<(Seq<char>, u32)> {
    v.map_values(|p: (String, u32)| (p.0@, p.1))
}

impl View for KeywordCounts {
    type V = Seq<(Seq<char>, u32)>;

    closed spec fn view(&self) -> Seq<(Seq<char>, u32)> {
        pairs_view(self.entries@)
    }
}

impl KeywordCounts {
    #[verifier::type_invariant]
    spec fn names_distinct(self) -> bool {
        distinct_names(pairs_view(self.entries@))
    }

    /// No keywords.
    pub fn new() -> (k: KeywordCounts)
        ensures
            k@ == Seq::<(Seq<char>, u32)>::empty(),
            distinct_names(k@),
    {
        let k = KeywordCounts { entries: Vec::new() };
        assert(k@ =~= Seq::<(Seq<char>, u32)>::empty());
        k
    }

    /// How many keywords there are (and, as ever, no keyword occurs twice).
    pub fn len(&self) -> (n: usize)
        ensures
            n == self@.len(),
            distinct_names(self@),
    {
        proof {
            use_type_invariant(self);
        }
        self.entries.len()
    }

    /// The keyword at `i`.
    pub fn name(&self, i: usize) -> (s: &String)
        requires
            i < self@.len(),
        ensures
            s@ == self@[i as int].0,
    {
        &self.entries[i].0
    }

    /// The count of the keyword at `i`.
    pub fn count(&self, i: usize) -> (c: u32)
        requires
            i < self@.len(),
        ensures
            c == self@[i as int].1,
    {
        self.entries[i].1
    }

    /// The keywords and their counts, in order.
    pub fn pairs(&self) -> (v: Vec<(String, u32)>)
        ensures
            pairs_view(v@) == self@,
    {
        let n = self.entries.len();
        let mut v: Vec<(String, u32)> = Vec::new();
        let mut i: usize = 0;
        while i < n
            invariant
                n == self.entries@.len(),
                i <= n,
                pairs_view(v@) == self@.take(i as int),
            decreases n - i,
        {
            assert(self@[i as int] == (self.entries@[i as int].0@, self.entries@[i as int].1));
            let ghost before = v@;
            let name = self.entries[i].0.clone();
            let c = self.entries[i].1;
            v.push((name, c));
            assert(pairs_view(v@) =~= pairs_view(before).push((self.entries@[i as int].0@, c)));
            assert(pairs_view(v@) =~= self@.take(i as int + 1));
            i = i + 1;
        }
        assert(self@.take(n as int) =~= self@);
        v
    }

    /// Sets the count of `name` to `count`, adding the keyword where it is missing.
    pub fn set(&mut self, name: String, count: u32)
        ensures
            final(self)@ == with_count(old(self)@, name@, count),
            distinct_names(final(self)@),
    {
        proof {
            use_type_invariant(&*self);
        }
        let ghost s = old(self)@;
        let mut v: Vec<(String, u32)> = Vec::new();
        core::mem::swap(&mut v, &mut self.entries);
        assert(pairs_view(v@) == s);
        let n = v.len();
        let mut i: usize = 0;
        while i < n
            invariant
                n == v@.len(),
                pairs_view(v@) == s,
                i <= n,
                forall|j: int| 0 <= j < i ==> s[j].0 != name@,
                distinct_names(s),
                s == old(self)@,
            decreases n - i,
        {
            if v[i].0 == name {
                assert(s[i as int].0 == name@);
                let ghost c = choose|j: int| 0 <= j < s.len() && s[j].0 == name@;
                assert(c == i) by {
                    if c != i {
                        if c < i {
                            assert(s[c].0 != s[i as int].0);
                        } else {
                            assert(s[i as int].0 != s[c].0);
                        }
                    }
                }
                v.set(i, (name, count));
                assert(pairs_view(v@) =~= with_count(s, name@, count));
                assert(distinct_names(pairs_view(v@))) by {
                    let t = pairs_view(v@);
                    assert forall|a: int, b: int| 0 <= a < b < t.len() implies t[a].0 != t[b].0 by {
                        assert(t[a].0 == s[a].0 && t[b].0 == s[b].0);
                    }
                }
                self.entries = v;
                return;
            }
            i = i + 1;
        }
        assert(!has_name(s, name@));
        v.push((name, count));
        assert(pairs_view(v@) =~= with_count(s, name@, count));
        assert(distinct_names(pairs_view(v@))) by {
            let t = pairs_view(v@);
            assert forall|a: int, b: int| 0 <= a < b < t.len() implies t[a].0 != t[b].0 by {
                if b == s.len() {
                    assert(t[a].0 == s[a].0);
                } else {
                    assert(t[a].0 == s[a].0 && t[b].0 == s[b].0);
                }
            }
        }
        self.entries = v;
    }
}

} // verus!
