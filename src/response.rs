use vstd::prelude::*;
use crate::records::Action;

verus! {

/// True when no two entries share an address.
pub open spec fn unique_keys(s: Seq<(String, Vec<Action>)>) -> bool {
    forall|i: int, j: int|
        0 <= i < s.len() && 0 <= j < s.len() && (#[trigger] s[i]).0@ == (#[trigger] s[j]).0@
            ==> i == j
}

/// The mapping that a list of (address, actions) entries stands for.
pub open spec fn entries_map(s: Seq<(String, Vec<Action>)>) -> Map<Seq<char>, Seq<Action>> {
    Map::new(
        |k: Seq<char>| exists|j: int| 0 <= j < s.len() && (#[trigger] s[j]).0@ == k,
        |k: Seq<char>| s[choose|j: int| 0 <= j < s.len() && (#[trigger] s[j]).0@ == k].1@,
    )
}

/// The actions of each address of a request, one entry per distinct address.
pub struct Response {
    entries: Vec<(String, Vec<Action>)>,
}

impl View for Response {
    type V = Map<Seq<char>, Seq<Action>>;

    closed spec fn view(&self) -> Map<Seq<char>, Seq<Action>> {
        entries_map(self.entries@)
    }
}

proof fn lemma_entries_map_at(s: Seq<(String, Vec<Action>)>, j: int)
    requires
        unique_keys(s),
        0 <= j < s.len(),
    ensures
        entries_map(s).contains_key(s[j].0@),
        entries_map(s)[s[j].0@] == s[j].1@,
{
    let k = s[j].0@;
    assert(entries_map(s).dom().contains(k));
    let c = choose|c: int| 0 <= c < s.len() && (#[trigger] s[c]).0@ == k;
    assert(c == j);
}

proof fn lemma_entries_map_len(s: Seq<(String, Vec<Action>)>)
    requires
        unique_keys(s),
    ensures
        entries_map(s).dom().finite(),
        entries_map(s).len() == s.len(),
{
    let keys = s.map_values(|e: (String, Vec<Action>)| e.0@);
    assert(keys.no_duplicates()) by {
        assert forall|i: int, j: int| 0 <= i < keys.len() && 0 <= j < keys.len() && i != j
            implies keys[i] != keys[j] by {
            assert(s[i].0@ == keys[i] && s[j].0@ == keys[j]);
        }
    }
    assert forall|k: Seq<char>| entries_map(s).dom().contains(k) <==> keys.to_set().contains(k) by {
        if keys.to_set().contains(k) {
            let j = choose|j: int| 0 <= j < keys.len() && keys[j] == k;
            assert(s[j].0@ == k);
        }
        if entries_map(s).dom().contains(k) {
            let j = choose|j: int| 0 <= j < s.len() && (#[trigger] s[j]).0@ == k;
            assert(keys[j] == k);
        }
    }
    assert(entries_map(s).dom() =~= keys.to_set());
    keys.unique_seq_to_set();
}

impl Response {
    pub closed spec fn wf(&self) -> bool {
        unique_keys(self.entries@)
    }

    pub fn new() -> (r: Response)
        ensures
            r.wf(),
            r@ == Map::<Seq<char>, Seq<Action>>::empty(),
    {
        let r = Response { entries: Vec::new() };
        assert(r@ =~= Map::<Seq<char>, Seq<Action>>::empty());
        r
    }

    /// Sets the actions of `address`, replacing any earlier ones.
    pub fn insert(&mut self, address: String, actions: Vec<Action>)
        requires
            old(self).wf(),
        ensures
            final(self).wf(),
            final(self)@ == old(self)@.insert(address@, actions@),
    {
        let ghost old_entries = self.entries@;
        let ghost k = address@;
        let mut j: usize = 0;
        while j < self.entries.len()
            invariant
                self.entries@ == old_entries,
                k == address@,
                old(self)@ == entries_map(old_entries),
                unique_keys(old_entries),
                j <= old_entries.len(),
                forall|m: int| 0 <= m < j ==> (#[trigger] old_entries[m]).0@ != k,
            decreases old_entries.len() - j,
        {
            let same = self.entries[j].0.eq(&address);
            if same {
                self.entries.set(j, (address, actions));
                proof {
                    let s = self.entries@;
                    assert(unique_keys(s));
                    assert forall|kk: Seq<char>| #[trigger] entries_map(s).contains_key(kk)
                        <==> entries_map(old_entries).insert(k, actions@).contains_key(kk) by {
                        if entries_map(old_entries).contains_key(kk) {
                            let c = choose|c: int| 0 <= c < old_entries.len() && (#[trigger] old_entries[c]).0@ == kk;
                            assert(s[c].0@ == kk);
                        }
                        if entries_map(s).contains_key(kk) {
                            let c = choose|c: int| 0 <= c < s.len() && (#[trigger] s[c]).0@ == kk;
                            assert(old_entries[c].0@ == kk);
                        }
                    }
                    assert forall|kk: Seq<char>| #[trigger] entries_map(s).contains_key(kk)
                        implies entries_map(s)[kk] == entries_map(old_entries).insert(k, actions@)[kk] by {
                        let c = choose|c: int| 0 <= c < s.len() && (#[trigger] s[c]).0@ == kk;
                        lemma_entries_map_at(s, c);
                        if c != j {
                            lemma_entries_map_at(old_entries, c);
                        }
                    }
                    assert(entries_map(s) =~= entries_map(old_entries).insert(k, actions@));
                }
                return;
            }
            j = j + 1;
        }
        self.entries.push((address, actions));
        proof {
            let s = self.entries@;
            let n = old_entries.len() as int;
            assert(s[n].0@ == k);
            assert(unique_keys(s));
            assert forall|kk: Seq<char>| #[trigger] entries_map(s).contains_key(kk)
                <==> entries_map(old_entries).insert(k, actions@).contains_key(kk) by {
                if entries_map(old_entries).contains_key(kk) {
                    let c = choose|c: int| 0 <= c < old_entries.len() && (#[trigger] old_entries[c]).0@ == kk;
                    assert(s[c].0@ == kk);
                }
                if entries_map(s).contains_key(kk) && kk != k {
                    let c = choose|c: int| 0 <= c < s.len() && (#[trigger] s[c]).0@ == kk;
                    assert(old_entries[c].0@ == kk);
                }
            }
            assert forall|kk: Seq<char>| #[trigger] entries_map(s).contains_key(kk)
                implies entries_map(s)[kk] == entries_map(old_entries).insert(k, actions@)[kk] by {
                let c = choose|c: int| 0 <= c < s.len() && (#[trigger] s[c]).0@ == kk;
                lemma_entries_map_at(s, c);
                if c != n {
                    lemma_entries_map_at(old_entries, c);
                }
            }
            assert(entries_map(s) =~= entries_map(old_entries).insert(k, actions@));
        }
    }

    /// The number of distinct addresses in the response.
    pub fn len(&self) -> (r: usize)
        requires
            self.wf(),
        ensures
            self@.dom().finite(),
            r == self@.len(),
    {
        proof {
            lemma_entries_map_len(self.entries@);
        }
        self.entries.len()
    }

    /// The actions of `address`, if the response holds it.
    pub fn get(&self, address: &String) -> (r: Option<&Vec<Action>>)
        requires
            self.wf(),
        ensures
            match r {
                Some(v) => self@.contains_key(address@) && v@ == self@[address@],
                None => !self@.contains_key(address@),
            },
    {
        let mut j: usize = 0;
        while j < self.entries.len()
            invariant
                unique_keys(self.entries@),
                j <= self.entries.len(),
                forall|m: int| 0 <= m < j ==> (#[trigger] self.entries@[m]).0@ != address@,
            decreases self.entries.len() - j,
        {
            if self.entries[j].0.eq(address) {
                proof {
                    lemma_entries_map_at(self.entries@, j as int);
                }
                return Some(&self.entries[j].1);
            }
            j = j + 1;
        }
        None
    }

    /// The entries of the response, one per distinct address.
    pub fn into_entries(self) -> (r: Vec<(String, Vec<Action>)>)
        requires
            self.wf(),
        ensures
            unique_keys(r@),
            entries_map(r@) == self@,
    {
        self.entries
    }
}

} // verus!
