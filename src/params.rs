//! Request parameters: a mapping from names to values whose entries are read
//! back in ascending byte order of their names.
use vstd::prelude::*;
use vstd::string::*;
use vstd::utf8::*;

verus! {

/// A name and its value, as text.
pub type Entry = (Seq<char>, Seq<char>);

/// Strict lexicographic order on byte strings (a proper prefix comes first).
pub open spec fn bytes_lt(a: Seq<u8>, b: Seq<u8>) -> bool
    decreases a.len(),
{
    if a.len() == 0 {
        b.len() > 0
    } else if b.len() == 0 {
        false
    } else if a[0] != b[0] {
        a[0] < b[0]
    } else {
        bytes_lt(a.drop_first(), b.drop_first())
    }
}

/// Names are ordered by the bytes of their UTF-8 form, as `str` compares.
pub open spec fn key_lt(a: Seq<char>, b: Seq<char>) -> bool {
    bytes_lt(encode_utf8(a), encode_utf8(b))
}

/// No name occurs twice.
pub open spec fn keys_distinct(s: Seq<Entry>) -> bool {
    forall|i: int, j: int| 0 <= i < j < s.len() ==> s[i].0 != s[j].0
}

/// The mapping built by inserting the entries in order, a later entry
/// replacing an earlier one of the same name.
pub open spec fn map_of(s: Seq<Entry>) -> Map<Seq<char>, Seq<char>>
    decreases s.len(),
{
    if s.len() == 0 {
        Map::empty()
    } else {
        map_of(s.drop_last()).insert(s.last().0, s.last().1)
    }
}

/// `k` is a name of `m` that comes before every other name of `m`.
pub open spec fn is_least_key(m: Map<Seq<char>, Seq<char>>, k: Seq<char>) -> bool {
    &&& m.dom().contains(k)
    &&& forall|k2: Seq<char>| m.dom().contains(k2) && k2 != k ==> key_lt(k, k2)
}

/// The entries of a finite mapping in ascending order of their names.
pub open spec fn ordered_entries(m: Map<Seq<char>, Seq<char>>) -> Seq<Entry>
    decreases m.dom().len(),
{
    if m.dom().finite() && m.dom().len() > 0 && exists|k: Seq<char>| is_least_key(m, k) {
        let k = choose|k: Seq<char>| is_least_key(m, k);
        seq![(k, m[k])] + ordered_entries(m.remove(k))
    } else {
        seq![]
    }
}

proof fn lemma_bytes_lt_irreflexive(a: Seq<u8>)
    ensures
        !bytes_lt(a, a),
    decreases a.len(),
{
    if a.len() > 0 {
        lemma_bytes_lt_irreflexive(a.drop_first());
    }
}

proof fn lemma_bytes_lt_transitive(a: Seq<u8>, b: Seq<u8>, c: Seq<u8>)
    requires
        bytes_lt(a, b),
        bytes_lt(b, c),
    ensures
        bytes_lt(a, c),
    decreases a.len(),
{
    if a.len() > 0 && b.len() > 0 && c.len() > 0 && a[0] == b[0] && b[0] == c[0] {
        lemma_bytes_lt_transitive(a.drop_first(), b.drop_first(), c.drop_first());
    }
}

proof fn lemma_bytes_lt_total(a: Seq<u8>, b: Seq<u8>)
    requires
        a != b,
    ensures
        bytes_lt(a, b) || bytes_lt(b, a),
    decreases a.len(),
{
    if a.len() == 0 {
        assert(b.len() > 0) by {
            if b.len() == 0 {
                assert(a =~= b);
            }
        }
    } else if b.len() > 0 && a[0] == b[0] {
        if a.drop_first() == b.drop_first() {
            assert(a =~= seq![a[0]] + a.drop_first());
            assert(b =~= seq![b[0]] + b.drop_first());
        }
        lemma_bytes_lt_total(a.drop_first(), b.drop_first());
    }
}

proof fn lemma_encode_utf8_injective(a: Seq<char>, b: Seq<char>)
    requires
        encode_utf8(a) == encode_utf8(b),
    ensures
        a == b,
{
    encode_utf8_decode_utf8(a);
    encode_utf8_decode_utf8(b);
}

/// The order on names is a strict total order.
pub proof fn lemma_key_order(a: Seq<char>, b: Seq<char>, c: Seq<char>)
    ensures
        !key_lt(a, a),
        key_lt(a, b) && key_lt(b, c) ==> key_lt(a, c),
        a != b ==> key_lt(a, b) || key_lt(b, a),
{
    lemma_bytes_lt_irreflexive(encode_utf8(a));
    if key_lt(a, b) && key_lt(b, c) {
        lemma_bytes_lt_transitive(encode_utf8(a), encode_utf8(b), encode_utf8(c));
    }
    if a != b {
        if encode_utf8(a) == encode_utf8(b) {
            lemma_encode_utf8_injective(a, b);
        }
        lemma_bytes_lt_total(encode_utf8(a), encode_utf8(b));
    }
}

proof fn lemma_least_key_unique(m: Map<Seq<char>, Seq<char>>, k1: Seq<char>, k2: Seq<char>)
    requires
        is_least_key(m, k1),
        is_least_key(m, k2),
    ensures
        k1 == k2,
{
    if k1 != k2 {
        assert(key_lt(k1, k2));
        assert(key_lt(k2, k1));
        lemma_key_order(k1, k2, k1);
    }
}

/// Unfolds `ordered_entries` at its least name.
proof fn lemma_ordered_entries_step(m: Map<Seq<char>, Seq<char>>, k: Seq<char>)
    requires
        m.dom().finite(),
        is_least_key(m, k),
    ensures
        ordered_entries(m) == seq![(k, m[k])] + ordered_entries(m.remove(k)),
{
    let k0 = choose|k0: Seq<char>| is_least_key(m, k0);
    lemma_least_key_unique(m, k0, k);
}

proof fn lemma_map_of_dom(s: Seq<Entry>, k: Seq<char>)
    ensures
        map_of(s).dom().finite(),
        map_of(s).dom().contains(k) <==> exists|i: int| 0 <= i < s.len() && s[i].0 == k,
    decreases s.len(),
{
    if s.len() > 0 {
        lemma_map_of_dom(s.drop_last(), k);
        if map_of(s.drop_last()).dom().contains(k) {
            let i = choose|i: int| 0 <= i < s.len() - 1 && s.drop_last()[i].0 == k;
            assert(s[i].0 == k);
        }
        if exists|i: int| 0 <= i < s.len() && s[i].0 == k {
            let i = choose|i: int| 0 <= i < s.len() && s[i].0 == k;
            if i < s.len() - 1 {
                assert(s.drop_last()[i].0 == k);
            }
        }
    }
}

proof fn lemma_map_of_value(s: Seq<Entry>, i: int)
    requires
        keys_distinct(s),
        0 <= i < s.len(),
    ensures
        map_of(s)[s[i].0] == s[i].1,
    decreases s.len(),
{
    if i < s.len() - 1 {
        assert(s.last().0 != s[i].0);
        assert(keys_distinct(s.drop_last()));
        lemma_map_of_value(s.drop_last(), i);
        assert(s.drop_last()[i] == s[i]);
    }
}

proof fn lemma_map_of_remove(s: Seq<Entry>, i: int)
    requires
        keys_distinct(s),
        0 <= i < s.len(),
    ensures
        keys_distinct(s.remove(i)),
        map_of(s.remove(i)) == map_of(s).remove(s[i].0),
{
    let r = s.remove(i);
    let k0 = s[i].0;
    assert forall|a: int, b: int| 0 <= a < b < r.len() implies r[a].0 != r[b].0 by {
        let sa = if a < i { a } else { a + 1 };
        let sb = if b < i { b } else { b + 1 };
        assert(r[a] == s[sa]);
        assert(r[b] == s[sb]);
    }
    let m = map_of(s).remove(k0);
    assert forall|k: Seq<char>| #[trigger] map_of(r).dom().contains(k) <==> m.dom().contains(k) by {
        lemma_map_of_dom(r, k);
        lemma_map_of_dom(s, k);
        if map_of(r).dom().contains(k) {
            let j = choose|j: int| 0 <= j < r.len() && r[j].0 == k;
            let sj = if j < i { j } else { j + 1 };
            assert(r[j] == s[sj]);
        }
        if m.dom().contains(k) {
            let j = choose|j: int| 0 <= j < s.len() && s[j].0 == k;
            assert(j != i);
            let rj = if j < i { j } else { j - 1 };
            assert(r[rj] == s[j]);
        }
    }
    assert forall|k: Seq<char>| #[trigger] map_of(r).dom().contains(k) implies map_of(r)[k] == m[k] by {
        lemma_map_of_dom(r, k);
        let j = choose|j: int| 0 <= j < r.len() && r[j].0 == k;
        let sj = if j < i { j } else { j + 1 };
        assert(r[j] == s[sj]);
        lemma_map_of_value(r, j);
        lemma_map_of_value(s, sj);
    }
    assert(map_of(r) =~= m);
}

/// A mapping built from pairs with distinct names depends only on which pairs
/// there are, not on the order in which they were inserted.
pub proof fn lemma_insertion_order_irrelevant(a: Seq<Entry>, b: Seq<Entry>)
    requires
        keys_distinct(a),
        keys_distinct(b),
        forall|e: Entry| a.contains(e) <==> b.contains(e),
    ensures
        map_of(a) == map_of(b),
{
    assert forall|k: Seq<char>| #[trigger] map_of(a).dom().contains(k) <==> map_of(b).dom().contains(
        k,
    ) by {
        lemma_map_of_dom(a, k);
        lemma_map_of_dom(b, k);
        if map_of(a).dom().contains(k) {
            let i = choose|i: int| 0 <= i < a.len() && a[i].0 == k;
            assert(a.contains(a[i]));
            let j = choose|j: int| 0 <= j < b.len() && b[j] == a[i];
            assert(b[j].0 == k);
        }
        if map_of(b).dom().contains(k) {
            let i = choose|i: int| 0 <= i < b.len() && b[i].0 == k;
            assert(b.contains(b[i]));
            let j = choose|j: int| 0 <= j < a.len() && a[j] == b[i];
            assert(a[j].0 == k);
        }
    }
    assert forall|k: Seq<char>| #[trigger] map_of(a).dom().contains(k) implies map_of(a)[k] == map_of(
        b,
    )[k] by {
        lemma_map_of_dom(a, k);
        let i = choose|i: int| 0 <= i < a.len() && a[i].0 == k;
        assert(a.contains(a[i]));
        let j = choose|j: int| 0 <= j < b.len() && b[j] == a[i];
        lemma_map_of_value(a, i);
        lemma_map_of_value(b, j);
    }
    assert(map_of(a) =~= map_of(b));
}

/// Owned name/value pairs viewed as text.
pub open spec fn text_pairs(v: Seq<(String, String)>) -> Seq<Entry> {
    v.map_values(|p: (String, String)| (p.0@, p.1@))
}

/// Compares two names by the bytes of their UTF-8 form.
pub fn key_less(a: &str, b: &str) -> (r: bool)
    ensures
        r == key_lt(a@, b@),
{
    let x = a.as_bytes();
    let y = b.as_bytes();
    let mut i: usize = 0;
    assert(x@.skip(0) == x@);
    assert(y@.skip(0) == y@);
    while i < x.len() && i < y.len()
        invariant
            i <= x@.len(),
            i <= y@.len(),
            x@ == encode_utf8(a@),
            y@ == encode_utf8(b@),
            bytes_lt(x@, y@) == bytes_lt(x@.skip(i as int), y@.skip(i as int)),
        decreases x@.len() - i,
    {
        if x[i] != y[i] {
            return x[i] < y[i];
        }
        assert(x@.skip(i as int).drop_first() == x@.skip(i + 1));
        assert(y@.skip(i as int).drop_first() == y@.skip(i + 1));
        i += 1;
    }
    i < y.len()
}

/// The position of the entry with the least name.
fn least_index(rest: &Vec<(String, String)>) -> (m: usize)
    requires
        rest@.len() > 0,
        keys_distinct(text_pairs(rest@)),
    ensures
        m < rest@.len(),
        forall|j: int|
            0 <= j < rest@.len() && j != m ==> key_lt(
                text_pairs(rest@)[m as int].0,
                #[trigger] text_pairs(rest@)[j].0,
            ),
{
    let ghost p = text_pairs(rest@);
    let mut best: usize = 0;
    let mut j: usize = 1;
    while j < rest.len()
        invariant
            p == text_pairs(rest@),
            keys_distinct(p),
            best < j <= rest@.len(),
            forall|t: int| 0 <= t < j && t != best ==> key_lt(p[best as int].0, #[trigger] p[t].0),
        decreases rest@.len() - j,
    {
        let ghost old_best = best;
        if key_less(rest[j].0.as_str(), rest[best].0.as_str()) {
            best = j;
            assert forall|t: int| 0 <= t < j + 1 && t != best implies key_lt(
                p[best as int].0,
                #[trigger] p[t].0,
            ) by {
                if t != old_best {
                    lemma_key_order(p[j as int].0, p[old_best as int].0, p[t].0);
                }
            }
        } else {
            assert(p[j as int].0 != p[best as int].0);
            proof {
                lemma_key_order(p[j as int].0, p[best as int].0, p[j as int].0);
            }
        }
        j += 1;
    }
    best
}

/// A set of request parameters: each name has one value.
pub struct Params {
    entries: Vec<(String, String)>,
}

impl Params {
    /// The entries as text, in the order they are held.
    pub closed spec fn pairs(&self) -> Seq<Entry> {
        text_pairs(self.entries@)
    }

    #[verifier::type_invariant]
    closed spec fn names_unique(&self) -> bool {
        keys_distinct(self.pairs())
    }
}

impl View for Params {
    type V = Map<Seq<char>, Seq<char>>;

    closed spec fn view(&self) -> Map<Seq<char>, Seq<char>> {
        map_of(self.pairs())
    }
}

impl Params {
    /// An empty parameter set.
    pub fn new() -> (p: Params)
        ensures
            p@ == Map::<Seq<char>, Seq<char>>::empty(),
    {
        let p = Params { entries: Vec::new() };
        assert(p.pairs() =~= Seq::<Entry>::empty());
        p
    }

    /// Sets the value of `name`, replacing any earlier value.
    pub fn insert(&mut self, name: &str, value: &str)
        ensures
            final(self)@ == old(self)@.insert(name@, value@),
    {
        proof {
            use_type_invariant(&*self);
        }
        let k = name.to_owned();
        let v = value.to_owned();
        let mut entries: Vec<(String, String)> = Vec::new();
        std::mem::swap(&mut entries, &mut self.entries);
        let ghost s = text_pairs(entries@);
        let mut i: usize = 0;
        let mut found = false;
        while i < entries.len()
            invariant_except_break
                !found,
            invariant
                s == text_pairs(entries@),
                i <= entries@.len(),
                forall|t: int| 0 <= t < i ==> #[trigger] s[t].0 != k@,
            ensures
                found ==> i < s.len() && s[i as int].0 == k@,
                !found ==> forall|t: int| 0 <= t < s.len() ==> #[trigger] s[t].0 != k@,
            decreases entries@.len() - i,
        {
            if entries[i].0 == k {
                found = true;
                break;
            }
            i += 1;
        }
        let ghost e: Entry = (k@, v@);
        if found {
            proof {
                lemma_map_of_remove(s, i as int);
            }
            entries.remove(i);
            assert(text_pairs(entries@) =~= s.remove(i as int));
        }
        let ghost base = text_pairs(entries@);
        entries.push((k, v));
        proof {
            assert(text_pairs(entries@) =~= base.push(e));
            assert(base.push(e).drop_last() =~= base);
            assert(keys_distinct(base));
            assert forall|a: int, b: int|
                0 <= a < b < base.push(e).len() implies base.push(e)[a].0 != base.push(e)[b].0 by {
                if b == base.len() {
                    assert(base.push(e)[b] == e);
                    assert(base.push(e)[a] == base[a]);
                    if found {
                        let sa = if a < i { a } else { a + 1 };
                        assert(s.remove(i as int)[a] == s[sa]);
                        assert(s[sa].0 != s[i as int].0);
                    } else {
                        assert(s[a].0 != k@);
                    }
                } else {
                    assert(base.push(e)[a] == base[a]);
                    assert(base.push(e)[b] == base[b]);
                }
            }
            if found {
                assert(map_of(base.push(e)) =~= map_of(s).insert(k@, v@));
            }
        }
        self.entries = entries;
    }

    /// The entries, in ascending byte order of their names.
    pub fn sorted_entries(&self) -> (r: Vec<(String, String)>)
        ensures
            text_pairs(r@) == ordered_entries(self@),
    {
        proof {
            use_type_invariant(self);
        }
        let mut rest: Vec<(String, String)> = Vec::new();
        let mut i: usize = 0;
        while i < self.entries.len()
            invariant
                i <= self.entries@.len(),
                text_pairs(rest@) == self.pairs().take(i as int),
            decreases self.entries@.len() - i,
        {
            let name = self.entries[i].0.clone();
            let value = self.entries[i].1.clone();
            let ghost before = text_pairs(rest@);
            rest.push((name, value));
            assert(self.pairs()[i as int] == (self.entries@[i as int].0@, self.entries@[i as int].1@));
            assert(text_pairs(rest@) =~= before.push(self.pairs()[i as int]));
            assert(self.pairs().take(i + 1) =~= self.pairs().take(i as int).push(self.pairs()[i as int]));
            i += 1;
        }
        assert(self.pairs().take(i as int) =~= self.pairs());
        let mut out: Vec<(String, String)> = Vec::new();
        assert(text_pairs(out@) =~= Seq::<Entry>::empty());
        assert(Seq::<Entry>::empty() + ordered_entries(self@) =~= ordered_entries(self@));
        while rest.len() > 0
            invariant
                keys_distinct(text_pairs(rest@)),
                text_pairs(out@) + ordered_entries(map_of(text_pairs(rest@))) == ordered_entries(
                    self@,
                ),
            decreases rest@.len(),
        {
            let m = least_index(&rest);
            let ghost s = text_pairs(rest@);
            let ghost o = text_pairs(out@);
            proof {
                let mm = map_of(s);
                let k = s[m as int].0;
                lemma_map_of_dom(s, k);
                assert forall|k2: Seq<char>| mm.dom().contains(k2) && k2 != k implies key_lt(
                    k,
                    k2,
                ) by {
                    lemma_map_of_dom(s, k2);
                    let j = choose|j: int| 0 <= j < s.len() && s[j].0 == k2;
                    assert(s[j].0 == k2);
                }
                lemma_ordered_entries_step(mm, k);
                lemma_map_of_value(s, m as int);
                lemma_map_of_remove(s, m as int);
            }
            let e = rest.remove(m);
            out.push(e);
            assert(text_pairs(rest@) =~= s.remove(m as int));
            assert(text_pairs(out@) =~= o.push(s[m as int]));
            assert(o.push(s[m as int]) + ordered_entries(map_of(s.remove(m as int))) =~= o + (seq![
                s[m as int],
            ] + ordered_entries(map_of(s.remove(m as int)))));
        }
        assert(text_pairs(rest@) =~= Seq::<Entry>::empty());
        assert(map_of(text_pairs(rest@)).dom() =~= Set::<Seq<char>>::empty());
        assert(text_pairs(out@) + Seq::<Entry>::empty() =~= text_pairs(out@));
        out
    }
}

} // verus!
