use vstd::prelude::*;

verus! {

/// `a` sorts strictly before `b`, deciding at index `i`: the two agree below `i`,
/// and at `i` either `a` has ended while `b` goes on, or `a`'s character is smaller.
pub open spec fn key_lt_at(a: Seq<char>, b: Seq<char>, i: int) -> bool {
    &&& 0 <= i <= a.len()
    &&& i <= b.len()
    &&& forall|j: int| 0 <= j < i ==> a[j] == b[j]
    &&& ((i == a.len() && i < b.len()) || (i < a.len() && i < b.len() && (a[i] as u32) < (
        b[i] as u32)))
}

/// Lexicographic order on keys, by character code.
pub open spec fn key_lt(a: Seq<char>, b: Seq<char>) -> bool {
    exists|i: int| key_lt_at(a, b, i)
}

/// No key sorts before itself.
pub proof fn lemma_key_lt_irreflexive(a: Seq<char>)
    ensures
        !key_lt(a, a),
{
}

/// The key order is transitive.
pub proof fn lemma_key_lt_transitive(a: Seq<char>, b: Seq<char>, c: Seq<char>)
    requires
        key_lt(a, b),
        key_lt(b, c),
    ensures
        key_lt(a, c),
{
    let i = choose|i: int| key_lt_at(a, b, i);
    let j = choose|j: int| key_lt_at(b, c, j);
    if i < j {
        assert(key_lt_at(a, c, i));
    } else if j < i {
        assert(key_lt_at(a, c, j));
    } else {
        assert(key_lt_at(a, c, i));
    }
}

/// Compares two keys: negative when `a` sorts first, zero when equal, positive
/// when `b` sorts first.
pub fn compare_keys(a: &str, b: &str) -> (r: i8)
    ensures
        r < 0 <==> key_lt(a@, b@),
        r == 0 <==> a@ == b@,
        r > 0 <==> key_lt(b@, a@),
{
    proof {
        if key_lt(a@, b@) && key_lt(b@, a@) {
            lemma_key_lt_transitive(a@, b@, a@);
        }
        lemma_key_lt_irreflexive(a@);
    }
    let la = a.unicode_len();
    let lb = b.unicode_len();
    let mut i: usize = 0;
    while i < la && i < lb
        invariant
            la == a@.len(),
            lb == b@.len(),
            i <= la,
            i <= lb,
            forall|j: int| 0 <= j < i ==> a@[j] == b@[j],
        decreases la - i,
    {
        let ca = a.get_char(i);
        let cb = b.get_char(i);
        if (ca as u32) < (cb as u32) {
            assert(key_lt_at(a@, b@, i as int));
            return -1;
        }
        if (cb as u32) < (ca as u32) {
            assert(key_lt_at(b@, a@, i as int));
            return 1;
        }
        assert((ca as u32) == (cb as u32));
        assert(ca == cb);
        i = i + 1;
    }
    if la < lb {
        assert(key_lt_at(a@, b@, i as int));
        -1
    } else if lb < la {
        assert(key_lt_at(b@, a@, i as int));
        1
    } else {
        assert(a@ =~= b@);
        0
    }
}

/// A finite map from string keys to values, stored as entries in strictly
/// increasing key order, so that equal maps have equal representations.
#[derive(Debug, PartialEq, Eq, Hash)]
pub struct OrderedMap<V> {
    entries: Vec<(String, V)>,
}

/// Keys strictly increase along the sequence.
pub open spec fn keys_sorted<V>(s: Seq<(Seq<char>, V)>) -> bool {
    forall|i: int, j: int| 0 <= i < j < s.len() ==> key_lt(#[trigger] s[i].0, #[trigger] s[j].0)
}

/// The map that a sequence of (key, value) entries denotes.
pub open spec fn entries_map<V>(s: Seq<(Seq<char>, V)>) -> Map<Seq<char>, V> {
    Map::new(
        |k: Seq<char>| exists|i: int| 0 <= i < s.len() && #[trigger] s[i].0 == k,
        |k: Seq<char>| s[choose|i: int| 0 <= i < s.len() && #[trigger] s[i].0 == k].1,
    )
}

/// In a sorted sequence each entry is what the denoted map holds under its key.
pub proof fn lemma_entry_in_map<V>(s: Seq<(Seq<char>, V)>, i: int)
    requires
        keys_sorted(s),
        0 <= i < s.len(),
    ensures
        entries_map(s).contains_key(s[i].0),
        entries_map(s)[s[i].0] == s[i].1,
{
    let k = s[i].0;
    assert(entries_map(s).contains_key(k));
    let i2 = choose|i2: int| 0 <= i2 < s.len() && #[trigger] s[i2].0 == k;
    if i2 < i {
        assert(key_lt(s[i2].0, s[i].0));
        lemma_key_lt_irreflexive(k);
    } else if i < i2 {
        assert(key_lt(s[i].0, s[i2].0));
        lemma_key_lt_irreflexive(k);
    }
}

/// Two sorted entry sequences that denote the same map are the same sequence.
pub proof fn lemma_entries_determined<V>(a: Seq<(Seq<char>, V)>, b: Seq<(Seq<char>, V)>)
    requires
        keys_sorted(a),
        keys_sorted(b),
        entries_map(a) == entries_map(b),
    ensures
        a == b,
    decreases a.len(),
{
    if a.len() == 0 {
        if b.len() > 0 {
            assert(entries_map(b).contains_key(b[0].0));
        }
        assert(a =~= b);
    } else {
        assert(entries_map(a).contains_key(a[0].0));
        let ka = a[0].0;
        let j = choose|j: int| 0 <= j < b.len() && #[trigger] b[j].0 == ka;
        let kb = b[0].0;
        assert(entries_map(b).contains_key(kb));
        let m = choose|m: int| 0 <= m < a.len() && #[trigger] a[m].0 == kb;
        if j > 0 && m > 0 {
            assert(key_lt(b[0].0, b[j].0));
            assert(key_lt(a[0].0, a[m].0));
            lemma_key_lt_transitive(ka, kb, ka);
            lemma_key_lt_irreflexive(ka);
        }
        assert(ka == kb);
        lemma_entry_in_map(a, 0);
        lemma_entry_in_map(b, 0);
        let ta = a.drop_first();
        let tb = b.drop_first();
        assert forall|k: Seq<char>| #[trigger] entries_map(ta).contains_key(k) == entries_map(tb).contains_key(k) by {
            if entries_map(ta).contains_key(k) {
                let i = choose|i: int| 0 <= i < ta.len() && #[trigger] ta[i].0 == k;
                assert(a[i + 1].0 == k);
                assert(key_lt(a[0].0, a[i + 1].0));
                lemma_key_lt_irreflexive(k);
                assert(entries_map(a).contains_key(k));
                let i2 = choose|i2: int| 0 <= i2 < b.len() && #[trigger] b[i2].0 == k;
                assert(i2 != 0);
                assert(tb[i2 - 1].0 == k);
            }
            if entries_map(tb).contains_key(k) {
                let i = choose|i: int| 0 <= i < tb.len() && #[trigger] tb[i].0 == k;
                assert(b[i + 1].0 == k);
                assert(key_lt(b[0].0, b[i + 1].0));
                lemma_key_lt_irreflexive(k);
                assert(entries_map(b).contains_key(k));
                let i2 = choose|i2: int| 0 <= i2 < a.len() && #[trigger] a[i2].0 == k;
                assert(i2 != 0);
                assert(ta[i2 - 1].0 == k);
            }
        }
        assert(keys_sorted(ta)) by {
            assert forall|x: int, y: int| 0 <= x < y < ta.len() implies key_lt(#[trigger] ta[x].0, #[trigger] ta[y].0) by {
                assert(key_lt(a[x + 1].0, a[y + 1].0));
            }
        }
        assert(keys_sorted(tb)) by {
            assert forall|x: int, y: int| 0 <= x < y < tb.len() implies key_lt(#[trigger] tb[x].0, #[trigger] tb[y].0) by {
                assert(key_lt(b[x + 1].0, b[y + 1].0));
            }
        }
        assert forall|k: Seq<char>| #[trigger] entries_map(ta).contains_key(k) implies entries_map(ta)[k] == entries_map(tb)[k] by {
            let i = choose|i: int| 0 <= i < ta.len() && #[trigger] ta[i].0 == k;
            let i2 = choose|i2: int| 0 <= i2 < tb.len() && #[trigger] tb[i2].0 == k;
            lemma_entry_in_map(ta, i);
            lemma_entry_in_map(tb, i2);
            lemma_entry_in_map(a, i + 1);
            lemma_entry_in_map(b, i2 + 1);
            assert(a[i + 1] == ta[i]);
            assert(b[i2 + 1] == tb[i2]);
        }
        assert(entries_map(ta) =~= entries_map(tb));
        lemma_entries_determined(ta, tb);
        assert(a =~= b) by {
            assert forall|i: int| 0 <= i < a.len() implies a[i] == b[i] by {
                if i > 0 {
                    assert(a[i] == ta[i - 1]);
                    assert(b[i] == tb[i - 1]);
                }
            }
        }
    }
}

impl<V> OrderedMap<V> {
    #[verifier::type_invariant]
    spec fn inv(self) -> bool {
        keys_sorted(self.entries_view())
    }

    /// The entries as (key, value) pairs, in key order.
    pub closed spec fn entries_view(self) -> Seq<(Seq<char>, V)> {
        self.entries@.map_values(|e: (String, V)| (e.0@, e.1))
    }

    /// The map from keys to values.
    pub open spec fn map_view(self) -> Map<Seq<char>, V> {
        entries_map(self.entries_view())
    }

    /// Makes the ordering of the keys known to the caller's proof.
    pub fn reveal_sorted(&self)
        ensures
            keys_sorted(self.entries_view()),
    {
        proof {
            use_type_invariant(self);
        }
    }

    pub fn new() -> (r: Self)
        ensures
            r.entries_view().len() == 0,
            r.map_view() == Map::<Seq<char>, V>::empty(),
    {
        let r = OrderedMap { entries: Vec::new() };
        assert(r.map_view() =~= Map::<Seq<char>, V>::empty());
        r
    }

    pub fn len(&self) -> (r: usize)
        ensures
            r == self.entries_view().len(),
    {
        self.entries.len()
    }

    pub fn key_at(&self, i: usize) -> (r: &String)
        requires
            i < self.entries_view().len(),
        ensures
            r@ == self.entries_view()[i as int].0,
    {
        &self.entries[i].0
    }

    pub fn value_at(&self, i: usize) -> (r: &V)
        requires
            i < self.entries_view().len(),
        ensures
            *r == self.entries_view()[i as int].1,
    {
        &self.entries[i].1
    }

    /// Position of `key`, or where it would be inserted.
    fn search(&self, key: &str) -> (r: (usize, bool))
        ensures
            r.0 <= self.entries_view().len(),
            forall|j: int| 0 <= j < r.0 ==> key_lt(#[trigger] self.entries_view()[j].0, key@),
            r.1 ==> r.0 < self.entries_view().len() && self.entries_view()[r.0 as int].0 == key@,
            !r.1 ==> forall|j: int|
                r.0 <= j < self.entries_view().len() ==> key_lt(key@, #[trigger] self.entries_view()[j].0),
    {
        proof {
            use_type_invariant(self);
        }
        let n = self.entries.len();
        let mut i: usize = 0;
        while i < n
            invariant
                n == self.entries_view().len(),
                i <= n,
                forall|j: int| 0 <= j < i ==> key_lt(#[trigger] self.entries_view()[j].0, key@),
                forall|i: int, j: int|
                    0 <= i < j < self.entries_view().len() ==> key_lt(
                        #[trigger] self.entries_view()[i].0,
                        #[trigger] self.entries_view()[j].0,
                    ),
            decreases n - i,
        {
            let c = compare_keys(self.entries[i].0.as_str(), key);
            if c == 0 {
                return (i, true);
            }
            if c > 0 {
                assert forall|j: int| i <= j < self.entries_view().len() implies key_lt(
                    key@,
                    #[trigger] self.entries_view()[j].0,
                ) by {
                    if j > i {
                        lemma_key_lt_transitive(
                            key@,
                            self.entries_view()[i as int].0,
                            self.entries_view()[j].0,
                        );
                    }
                }
                return (i, false);
            }
            i = i + 1;
        }
        (i, false)
    }

    /// Position of `key` among the entries, if present.
    pub fn find(&self, key: &str) -> (r: Option<usize>)
        ensures
            match r {
                Some(i) => i < self.entries_view().len() && self.entries_view()[i as int].0 == key@,
                None => !self.map_view().contains_key(key@),
            },
    {
        let (i, found) = self.search(key);
        if found {
            Some(i)
        } else {
            proof {
                use_type_invariant(self);
                if self.map_view().contains_key(key@) {
                    let j = choose|j: int| 0 <= j < self.entries_view().len() && #[trigger] self.entries_view()[j].0 == key@;
                    lemma_key_lt_irreflexive(key@);
                    if j < i {
                        assert(key_lt(self.entries_view()[j].0, key@));
                    } else {
                        assert(key_lt(key@, self.entries_view()[j].0));
                    }
                }
            }
            None
        }
    }
}

impl<V: Copy> OrderedMap<V> {
    /// A copy holding the same entries.
    pub fn duplicate(&self) -> (r: Self)
        ensures
            r.entries_view() == self.entries_view(),
            r.map_view() == self.map_view(),
    {
        proof {
            use_type_invariant(self);
        }
        let n = self.entries.len();
        let mut entries: Vec<(String, V)> = Vec::new();
        let mut j: usize = 0;
        while j < n
            invariant
                j <= n,
                n == self.entries_view().len(),
                entries@.len() == j,
                forall|m: int| 0 <= m < j ==> (#[trigger] entries@[m]).0@ == self.entries_view()[m].0 && entries@[m].1 == self.entries_view()[m].1,
            decreases n - j,
        {
            entries.push((self.entries[j].0.clone(), self.entries[j].1));
            j = j + 1;
        }
        proof {
            assert(entries@.map_values(|e: (String, V)| (e.0@, e.1)) =~= self.entries_view());
        }
        OrderedMap { entries }
    }

    /// The value stored under `key`.
    pub fn get(&self, key: &str) -> (r: Option<V>)
        ensures
            r == if self.map_view().contains_key(key@) {
                Some(self.map_view()[key@])
            } else {
                None::<V>
            },
    {
        match self.find(key) {
            Some(i) => {
                proof {
                    use_type_invariant(self);
                    lemma_entry_in_map(self.entries_view(), i as int);
                }
                Some(self.entries[i].1)
            },
            None => None,
        }
    }

    /// Inserts `value` under `key`, replacing any value already there.
    pub fn insert(&mut self, key: &str, value: V)
        ensures
            final(self).map_view() == old(self).map_view().insert(key@, value),
    {
        proof {
            use_type_invariant(&*self);
        }
        let ghost old_map = self.map_view();
        let ghost old_entries = self.entries_view();
        let (i, found) = self.search(key);
        let n = self.entries.len();
        let mut entries: Vec<(String, V)> = Vec::new();
        let mut j: usize = 0;
        while j < i
            invariant
                j <= i <= n,
                n == old_entries.len(),
                old_entries == self.entries_view(),
                entries@.len() == j,
                forall|m: int| 0 <= m < j ==> (#[trigger] entries@[m]).0@ == old_entries[m].0 && entries@[m].1 == old_entries[m].1,
            decreases i - j,
        {
            entries.push((self.entries[j].0.clone(), self.entries[j].1));
            j = j + 1;
        }
        entries.push((key.to_owned(), value));
        let mut j: usize = if found { i + 1 } else { i };
        while j < n
            invariant
                i <= j <= n,
                found ==> i < j,
                n == old_entries.len(),
                old_entries == self.entries_view(),
                entries@.len() == j + 1 - (if found { 1int } else { 0int }),
                forall|m: int| 0 <= m < i ==> (#[trigger] entries@[m]).0@ == old_entries[m].0 && entries@[m].1 == old_entries[m].1,
                entries@[i as int].0@ == key@,
                entries@[i as int].1 == value,
                forall|m: int| i < m < entries@.len() ==> (#[trigger] entries@[m]).0@ == old_entries[m - 1 + (if found { 1int } else { 0int })].0
                    && entries@[m].1 == old_entries[m - 1 + (if found { 1int } else { 0int })].1,
            decreases n - j,
        {
            entries.push((self.entries[j].0.clone(), self.entries[j].1));
            j = j + 1;
        }
        let ghost new_view = entries@.map_values(|e: (String, V)| (e.0@, e.1));
        proof {
            if found {
                assert(new_view =~= old_entries.update(i as int, (key@, value)));
            } else {
                assert(new_view =~= old_entries.insert(i as int, (key@, value)));
            }
            assert forall|a: int, b: int| 0 <= a < b < new_view.len() implies key_lt(#[trigger] new_view[a].0, #[trigger] new_view[b].0) by {
                if found {
                    if a != i && b != i {
                        assert(key_lt(old_entries[a].0, old_entries[b].0));
                    } else if a == i {
                        assert(key_lt(old_entries[a].0, old_entries[b].0));
                    } else {
                        assert(key_lt(old_entries[a].0, old_entries[b].0));
                    }
                } else {
                    if b < i {
                        assert(key_lt(old_entries[a].0, old_entries[b].0));
                    } else if a > i {
                        assert(key_lt(old_entries[a - 1].0, old_entries[b - 1].0));
                    } else if a == i {
                        assert(key_lt(key@, old_entries[b - 1].0));
                    } else if b == i {
                        assert(key_lt(old_entries[a].0, key@));
                    } else {
                        lemma_key_lt_transitive(old_entries[a].0, key@, old_entries[b - 1].0);
                    }
                }
            }
        }
        *self = OrderedMap { entries };
        proof {
            assert(self.entries_view() == new_view);
        }
        proof {
            let new_entries = self.entries_view();
            use_type_invariant(&*self);
            assert forall|k: Seq<char>| #![auto]
                self.map_view().contains_key(k) == old_map.insert(key@, value).contains_key(k)
            by {
                if k != key@ && old_map.contains_key(k) {
                    let j = choose|j: int| 0 <= j < old_entries.len() && #[trigger] old_entries[j].0 == k;
                    if found {
                        assert(new_entries[j].0 == k);
                    } else if j < i {
                        assert(new_entries[j].0 == k);
                    } else {
                        assert(new_entries[j + 1].0 == k);
                    }
                }
                if self.map_view().contains_key(k) && k != key@ {
                    let j = choose|j: int| 0 <= j < new_entries.len() && #[trigger] new_entries[j].0 == k;
                    if found {
                        assert(old_entries[j].0 == k);
                    } else if j < i {
                        assert(old_entries[j].0 == k);
                    } else {
                        assert(old_entries[j - 1].0 == k);
                    }
                }
                assert(new_entries[i as int].0 == key@);
            }
            assert forall|k: Seq<char>| #[trigger] self.map_view().contains_key(k) implies
                self.map_view()[k] == old_map.insert(key@, value)[k]
            by {
                let j = choose|j: int| 0 <= j < new_entries.len() && #[trigger] new_entries[j].0 == k;
                lemma_entry_in_map(new_entries, j);
                if k != key@ {
                    let j0: int = if found || j < i { j } else { j - 1 };
                    assert(old_entries[j0].0 == k);
                    lemma_entry_in_map(old_entries, j0);
                }
            }
            assert(self.map_view() =~= old_map.insert(key@, value));
        }
    }
}

impl<V: Copy> Clone for OrderedMap<V> {
    fn clone(&self) -> Self {
        self.duplicate()
    }
}

} // verus!
