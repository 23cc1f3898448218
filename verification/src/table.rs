use vstd::prelude::*;

verus! {

/// The map that a list of (name, value) entries stands for: a later entry
/// for a name replaces an earlier one.
pub open spec fn entries_map<V>(s: Seq<(String, V)>) -> Map<Seq<char>, V>
    decreases s.len(),
{
    if s.len() == 0 {
        Map::empty()
    } else {
        entries_map(s.drop_last()).insert(s.last().0@, s.last().1)
    }
}

/// A map from names to values.
#[derive(Debug)]
pub struct Table<V> {
    entries: Vec<(String, V)>,
}

impl<V> View for Table<V> {
    type V = Map<Seq<char>, V>;

    closed spec fn view(&self) -> Map<Seq<char>, V> {
        entries_map(self.entries@)
    }
}

proof fn lemma_absent<V>(s: Seq<(String, V)>, k: Seq<char>)
    requires
        forall|i: int| 0 <= i < s.len() ==> (#[trigger] s[i]).0@ != k,
    ensures
        !entries_map(s).contains_key(k),
    decreases s.len(),
{
    if s.len() > 0 {
        assert(s.last() == s[s.len() - 1]);
        lemma_absent(s.drop_last(), k);
    }
}

proof fn lemma_found<V>(s: Seq<(String, V)>, j: int, k: Seq<char>)
    requires
        0 <= j < s.len(),
        s[j].0@ == k,
        forall|i: int| j < i < s.len() ==> (#[trigger] s[i]).0@ != k,
    ensures
        entries_map(s).contains_key(k),
        entries_map(s)[k] == s[j].1,
    decreases s.len(),
{
    if j < s.len() - 1 {
        assert(s.last() == s[s.len() - 1]);
        lemma_found(s.drop_last(), j, k);
    }
}

proof fn lemma_update<V>(s: Seq<(String, V)>, j: int, key: String, v: V)
    requires
        0 <= j < s.len(),
        s[j].0@ == key@,
        forall|i: int| j < i < s.len() ==> (#[trigger] s[i]).0@ != key@,
    ensures
        entries_map(s.update(j, (key, v))) =~= entries_map(s).insert(key@, v),
    decreases s.len(),
{
    let s2 = s.update(j, (key, v));
    if j == s.len() - 1 {
        assert(s2.drop_last() =~= s.drop_last());
    } else {
        assert(s2.drop_last() =~= s.drop_last().update(j, (key, v)));
        assert(s.last() == s[s.len() - 1]);
        lemma_update(s.drop_last(), j, key, v);
    }
}

impl<V> Table<V> {
    /// An empty table.
    pub fn new() -> (r: Self)
        ensures
            r@ == Map::<Seq<char>, V>::empty(),
    {
        Table { entries: Vec::new() }
    }

    /// Where the entry for `key` stands, if there is one.
    fn find(&self, key: &str) -> (r: Option<usize>)
        ensures
            match r {
                Some(j) => j < self.entries@.len() && self.entries@[j as int].0@ == key@
                    && forall|i: int| j < i < self.entries@.len() ==> (#[trigger] self.entries@[i]).0@ != key@,
                None => forall|i: int| 0 <= i < self.entries@.len() ==> (#[trigger] self.entries@[i]).0@ != key@,
            },
    {
        let mut i = self.entries.len();
        while i > 0
            invariant
                i <= self.entries@.len(),
                forall|m: int| i <= m < self.entries@.len() ==> (#[trigger] self.entries@[m]).0@ != key@,
            decreases i,
        {
            let k = self.entries[i - 1].0.as_str();
            if str_equal(k, key) {
                return Some(i - 1);
            }
            i = i - 1;
        }
        None
    }

    /// The value stored for `key`.
    pub fn get(&self, key: &str) -> (r: Option<&V>)
        ensures
            match r {
                Some(v) => self@.contains_key(key@) && self@[key@] == *v,
                None => !self@.contains_key(key@),
            },
    {
        match self.find(key) {
            Some(j) => {
                proof { lemma_found(self.entries@, j as int, key@); }
                Some(&self.entries[j].1)
            },
            None => {
                proof { lemma_absent(self.entries@, key@); }
                None
            },
        }
    }

    /// Whether the table holds `key`.
    pub fn contains(&self, key: &str) -> (r: bool)
        ensures
            r == self@.contains_key(key@),
    {
        self.get(key).is_some()
    }

    /// Stores `v` for `key`, replacing any value stored for it.
    pub fn set(&mut self, key: String, v: V)
        ensures
            final(self)@ == old(self)@.insert(key@, v),
    {
        match self.find(key.as_str()) {
            Some(j) => {
                proof { lemma_update(self.entries@, j as int, key, v); }
                self.entries.set(j, (key, v));
            },
            None => {
                let ghost s = self.entries@;
                self.entries.push((key, v));
                assert(self.entries@.drop_last() =~= s);
            },
        }
    }
}

/// Whether two strings have the same characters.
pub fn str_equal(a: &str, b: &str) -> (r: bool)
    ensures
        r == (a@ == b@),
{
    let x = crate::text::chars_of(a);
    let y = crate::text::chars_of(b);
    if x.len() != y.len() {
        return false;
    }
    let mut i: usize = 0;
    while i < x.len()
        invariant
            i <= x.len() == y.len(),
            x@ == a@,
            y@ == b@,
            forall|m: int| 0 <= m < i ==> x@[m] == y@[m],
        decreases x.len() - i,
    {
        if x[i] != y[i] {
            return false;
        }
        i = i + 1;
    }
    assert(x@ =~= y@);
    true
}

/// Another pointer to the value of an `Rc` (`Rc::clone`): claimed to point to
/// the same value.
#[verifier::external_body]
pub(crate) fn rc_clone<T>(r: &std::rc::Rc<T>) -> (res: std::rc::Rc<T>)
    ensures
        res == *r,
{
    std::rc::Rc::clone(r)
}

impl<T> Table<std::rc::Rc<T>> {
    /// A copy of the table whose values point to the same data.
    pub fn copy(&self) -> (r: Self)
        ensures
            r@ == self@,
    {
        let mut v: Vec<(String, std::rc::Rc<T>)> = Vec::new();
        let mut i: usize = 0;
        while i < self.entries.len()
            invariant
                i <= self.entries@.len(),
                v@ == self.entries@.take(i as int),
            decreases self.entries.len() - i,
        {
            let k = self.entries[i].0.clone();
            let x = rc_clone(&self.entries[i].1);
            v.push((k, x));
            i = i + 1;
            assert(v@ =~= self.entries@.take(i as int));
        }
        assert(self.entries@.take(i as int) =~= self.entries@);
        Table { entries: v }
    }
}

} // verus!
