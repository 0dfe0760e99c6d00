//! An insertion-ordered string map and a stable sort over its entries.
//!
//! Both signers receive their query parameters and headers through this
//! type: it keeps entries in insertion order, so canonicalization is a pure
//! function of the call sequence that built the map, with no iteration-order
//! ambiguity anywhere.
use vstd::prelude::*;

verus! {

use vstd::string::StringExecFns;
use vstd::utf8::encode_utf8;
use crate::encoding::form_urlencode;
use crate::encoding::form_urlencoded_of;
use crate::strings::join_pairs;
use crate::strings::join_strs;
use crate::strings::lemma_join_pairs_step;
use crate::strings::lemma_join_strs_step;
use crate::strings::lex_le;
use crate::strings::str_eq;
use crate::strings::str_le;

/// The view of an optional string slice.
pub open spec fn opt_str_view(o: Option<&str>) -> Option<Seq<char>> {
    match o {
        Some(s) => Some(s@),
        None => None,
    }
}

/// The character sequences of a sequence of strings.
pub open spec fn strs_view(v: Seq<String>) -> Seq<Seq<char>> {
    v.map_values(|x: String| x@)
}

/// The character-sequence pairs of a sequence of string pairs.
pub open spec fn pairs_view(s: Seq<(String, String)>) -> Seq<(Seq<char>, Seq<char>)> {
    s.map_values(|p: (String, String)| (p.0@, p.1@))
}

/// Inserting a pair: the first entry with the same key is replaced in
/// place, otherwise the pair is appended.
pub open spec fn entries_insert(
    s: Seq<(Seq<char>, Seq<char>)>,
    k: Seq<char>,
    v: Seq<char>,
) -> Seq<(Seq<char>, Seq<char>)>
    decreases s.len(),
{
    if s.len() == 0 {
        seq![(k, v)]
    } else if s[0].0 == k {
        seq![(k, v)] + s.drop_first()
    } else {
        seq![s[0]] + entries_insert(s.drop_first(), k, v)
    }
}

pub open spec fn contains_key(s: Seq<(Seq<char>, Seq<char>)>, k: Seq<char>) -> bool {
    exists|i: int| 0 <= i < s.len() && s[i].0 == k
}

/// The value of the first entry with the given key, if any.
pub open spec fn lookup(s: Seq<(Seq<char>, Seq<char>)>, k: Seq<char>) -> Option<Seq<char>>
    decreases s.len(),
{
    if s.len() == 0 {
        None
    } else if s[0].0 == k {
        Some(s[0].1)
    } else {
        lookup(s.drop_first(), k)
    }
}

/// A map from string keys to string values that remembers insertion order.
pub struct ParamMap {
    entries: Vec<(String, String)>,
}

impl View for ParamMap {
    type V = Seq<(Seq<char>, Seq<char>)>;

    closed spec fn view(&self) -> Seq<(Seq<char>, Seq<char>)> {
        pairs_view(self.entries@)
    }
}

impl ParamMap {
    /// Keys are pairwise distinct; `insert` preserves this.
    pub open spec fn wf(&self) -> bool {
        forall|i: int, j: int| 0 <= i < j < self@.len() ==> self@[i].0 != self@[j].0
    }

    /// An empty map.
    pub fn new() -> (r: ParamMap)
        ensures
            r@ == Seq::<(Seq<char>, Seq<char>)>::empty(),
            r.wf(),
    {
        let r = ParamMap { entries: Vec::new() };
        proof {
            assert(r@ =~= Seq::<(Seq<char>, Seq<char>)>::empty());
        }
        r
    }

    pub fn len(&self) -> (r: usize)
        ensures
            r == self@.len(),
    {
        self.entries.len()
    }

    pub fn is_empty(&self) -> (r: bool)
        ensures
            r == (self@.len() == 0),
    {
        self.entries.len() == 0
    }

    pub(crate) fn raw_entries(&self) -> (r: &Vec<(String, String)>)
        ensures
            pairs_view(r@) == self@,
    {
        &self.entries
    }

    /// Wraps a vector of entries as a map, keeping their order.
    pub fn from_entries(entries: Vec<(String, String)>) -> (r: ParamMap)
        ensures
            r@ == pairs_view(entries@),
    {
        ParamMap { entries }
    }

    /// The entries of the map, in order, as owned pairs.
    pub fn entries(&self) -> (r: Vec<(String, String)>)
        ensures
            pairs_view(r@) == self@,
    {
        let mut out: Vec<(String, String)> = Vec::new();
        let mut i: usize = 0;
        proof {
            assert(pairs_view(out@) =~= self@.take(0));
        }
        while i < self.entries.len()
            invariant
                i <= self.entries.len(),
                self@.len() == self.entries.len(),
                pairs_view(out@) == self@.take(i as int),
            decreases self.entries.len() - i,
        {
            let key = self.entries[i].0.clone();
            let value = self.entries[i].1.clone();
            let ghost prev = pairs_view(out@);
            out.push((key, value));
            proof {
                assert(self@[i as int] == (self.entries@[i as int].0@, self.entries@[i as int].1@));
                assert(pairs_view(out@) =~= prev.push(self@[i as int]));
                assert(self@.take(i as int + 1) =~= self@.take(i as int).push(self@[i as int]));
            }
            i = i + 1;
        }
        proof {
            assert(self@.take(self@.len() as int) =~= self@);
        }
        out
    }

    /// Looks up the value bound to `key`.
    pub fn get(&self, key: &str) -> (r: Option<&String>)
        ensures
            match r {
                Some(v) => lookup(self@, key@) == Some(v@),
                None => lookup(self@, key@) is None,
            },
    {
        let mut i: usize = 0;
        let n = self.entries.len();
        proof {
            assert(self@.skip(0) =~= self@);
        }
        while i < n
            invariant
                i <= n,
                n == self.entries.len(),
                n == self@.len(),
                lookup(self@, key@) == lookup(self@.skip(i as int), key@),
            decreases n - i,
        {
            proof {
                assert(self@.skip(i as int)[0] == self@[i as int]);
                assert(self@.skip(i as int).drop_first() =~= self@.skip(i as int + 1));
                assert(self@[i as int] == (self.entries@[i as int].0@, self.entries@[i as int].1@));
            }
            if str_eq(self.entries[i].0.as_str(), key) {
                return Some(&self.entries[i].1);
            }
            i = i + 1;
        }
        proof {
            assert(self@.skip(n as int).len() == 0);
        }
        None
    }

    /// Binds `value` to `key`: replaces the value of an existing entry with
    /// the same key, otherwise appends a new entry.
    pub fn insert(&mut self, key: String, value: String)
        ensures
            final(self)@ == entries_insert(old(self)@, key@, value@),
            old(self).wf() ==> final(self).wf(),
    {
        let ghost old_view = self@;
        let mut i: usize = 0;
        let n = self.entries.len();
        while i < n
            invariant
                i <= n,
                n == self.entries.len(),
                self@ == old_view,
                self.entries == old(self).entries,
                forall|j: int| 0 <= j < i ==> #[trigger] self@[j].0 != key@,
            decreases n - i,
        {
            if str_eq(self.entries[i].0.as_str(), key.as_str()) {
                self.entries.remove(i);
                self.entries.insert(i, (key, value));
                proof {
                    lemma_entries_insert_found(old_view, key@, value@, i as int);
                    assert(self@ =~= old_view.take(i as int) + seq![(key@, value@)]
                        + old_view.skip(i as int + 1));
                    if old(self).wf() {
                        lemma_entries_insert_wf(old(self)@, key@, value@);
                    }
                }
                return ;
            }
            i = i + 1;
        }
        self.entries.push((key, value));
        proof {
            lemma_entries_insert_missing(old_view, key@, value@);
            assert(self@ =~= old_view.push((key@, value@)));
            if old(self).wf() {
                lemma_entries_insert_wf(old(self)@, key@, value@);
            }
        }
    }
}

proof fn lemma_entries_insert_found(
    s: Seq<(Seq<char>, Seq<char>)>,
    k: Seq<char>,
    v: Seq<char>,
    i: int,
)
    requires
        0 <= i < s.len(),
        forall|j: int| 0 <= j < i ==> #[trigger] s[j].0 != k,
        s[i].0 == k,
    ensures
        entries_insert(s, k, v) == s.take(i) + seq![(k, v)] + s.skip(i + 1),
    decreases i,
{
    if i == 0 {
        assert(entries_insert(s, k, v) == seq![(k, v)] + s.drop_first());
        assert(seq![(k, v)] + s.drop_first() =~= s.take(0) + seq![(k, v)] + s.skip(1));
    } else {
        assert(s[0].0 != k);
        lemma_entries_insert_found(s.drop_first(), k, v, i - 1);
        assert(entries_insert(s, k, v) == seq![s[0]] + entries_insert(s.drop_first(), k, v));
        assert(seq![s[0]] + (s.drop_first().take(i - 1) + seq![(k, v)] + s.drop_first().skip(i))
            =~= s.take(i) + seq![(k, v)] + s.skip(i + 1));
    }
}

pub proof fn lemma_entries_insert_missing(s: Seq<(Seq<char>, Seq<char>)>, k: Seq<char>, v: Seq<char>)
    requires
        forall|j: int| 0 <= j < s.len() ==> #[trigger] s[j].0 != k,
    ensures
        entries_insert(s, k, v) == s.push((k, v)),
    decreases s.len(),
{
    if s.len() == 0 {
        assert(entries_insert(s, k, v) =~= s.push((k, v)));
    } else {
        assert(s[0].0 != k);
        lemma_entries_insert_missing(s.drop_first(), k, v);
        assert(seq![s[0]] + s.drop_first().push((k, v)) =~= s.push((k, v)));
    }
}

proof fn lemma_entries_insert_keys(
    s: Seq<(Seq<char>, Seq<char>)>,
    k: Seq<char>,
    v: Seq<char>,
    kk: Seq<char>,
)
    ensures
        contains_key(entries_insert(s, k, v), kk) <==> (kk == k || contains_key(s, kk)),
    decreases s.len(),
{
    let r = entries_insert(s, k, v);
    if s.len() == 0 {
        assert(r[0].0 == k);
    } else if s[0].0 == k {
        assert(r == seq![(k, v)] + s.drop_first());
        assert forall|kk2: Seq<char>| contains_key(s.drop_first(), kk2) implies contains_key(
            s,
            kk2,
        ) by {
            let i = choose|i: int| 0 <= i < s.drop_first().len() && s.drop_first()[i].0 == kk2;
            assert(s[i + 1].0 == kk2);
        }
        if contains_key(s, kk) {
            let i = choose|i: int| 0 <= i < s.len() && s[i].0 == kk;
            if i == 0 {
                assert(r[0].0 == k);
            } else {
                assert(r[i].0 == kk);
            }
        }
        if contains_key(r, kk) {
            let i = choose|i: int| 0 <= i < r.len() && r[i].0 == kk;
            if i == 0 {
            } else {
                assert(s[i].0 == kk);
            }
        }
    } else {
        lemma_entries_insert_keys(s.drop_first(), k, v, kk);
        assert(r == seq![s[0]] + entries_insert(s.drop_first(), k, v));
        if contains_key(r, kk) {
            let i = choose|i: int| 0 <= i < r.len() && r[i].0 == kk;
            if i == 0 {
                assert(s[0].0 == kk);
            } else {
                assert(entries_insert(s.drop_first(), k, v)[i - 1].0 == kk);
            }
        }
        if kk == k {
            let i = choose|i: int|
                0 <= i < entries_insert(s.drop_first(), k, v).len() && entries_insert(
                    s.drop_first(),
                    k,
                    v,
                )[i].0 == kk;
            assert(r[i + 1].0 == kk);
        }
        if contains_key(s, kk) {
            let i = choose|i: int| 0 <= i < s.len() && s[i].0 == kk;
            if i == 0 {
                assert(r[0].0 == kk);
            } else {
                assert(contains_key(s.drop_first(), kk)) by {
                    assert(s.drop_first()[i - 1].0 == kk);
                }
                let j = choose|j: int|
                    0 <= j < entries_insert(s.drop_first(), k, v).len() && entries_insert(
                        s.drop_first(),
                        k,
                        v,
                    )[j].0 == kk;
                assert(r[j + 1].0 == kk);
            }
        }
    }
}

proof fn lemma_entries_insert_wf(s: Seq<(Seq<char>, Seq<char>)>, k: Seq<char>, v: Seq<char>)
    requires
        forall|i: int, j: int| 0 <= i < j < s.len() ==> s[i].0 != s[j].0,
    ensures
        forall|i: int, j: int|
            0 <= i < j < entries_insert(s, k, v).len() ==> entries_insert(s, k, v)[i].0
                != entries_insert(s, k, v)[j].0,
    decreases s.len(),
{
    let r = entries_insert(s, k, v);
    if s.len() == 0 {
        assert(r.len() == 1);
    } else if s[0].0 == k {
        assert(r == seq![(k, v)] + s.drop_first());
        assert forall|i: int, j: int| 0 <= i < j < r.len() implies r[i].0 != r[j].0 by {
            if i == 0 {
                assert(r[j].0 == s[j].0);
                assert(s[0].0 != s[j].0);
            } else {
                assert(r[i].0 == s[i].0 && r[j].0 == s[j].0);
            }
        }
    } else {
        let tail = entries_insert(s.drop_first(), k, v);
        lemma_entries_insert_wf(s.drop_first(), k, v);
        assert(r == seq![s[0]] + tail);
        assert forall|i: int, j: int| 0 <= i < j < r.len() implies r[i].0 != r[j].0 by {
            if i == 0 {
                assert(tail[j - 1].0 == r[j].0);
                lemma_entries_insert_keys(s.drop_first(), k, v, r[j].0);
                if r[j].0 == s[0].0 {
                    if r[j].0 == k {
                    } else {
                        let m = choose|m: int|
                            0 <= m < s.drop_first().len() && s.drop_first()[m].0 == r[j].0;
                        assert(s[m + 1].0 == s[0].0);
                    }
                }
                assert(tail[j - 1].0 == r[j].0);
            } else {
                assert(r[i].0 == tail[i - 1].0 && r[j].0 == tail[j - 1].0);
            }
        }
    }
}

/// Inserting into a sorted run: the new entry goes after every entry whose
/// key is `lex_le` its own, so entries with equal keys keep their original
/// relative order.
pub open spec fn entry_insert_sorted(
    s: Seq<(Seq<char>, Seq<char>)>,
    e: (Seq<char>, Seq<char>),
) -> Seq<(Seq<char>, Seq<char>)>
    decreases s.len(),
{
    if s.len() == 0 {
        seq![e]
    } else if lex_le(s[0].0, e.0) {
        seq![s[0]] + entry_insert_sorted(s.drop_first(), e)
    } else {
        seq![e] + s
    }
}

/// A stable sort of the entries by key under `lex_le`: insertion sort, left
/// to right.
pub open spec fn stable_sorted(s: Seq<(Seq<char>, Seq<char>)>) -> Seq<(Seq<char>, Seq<char>)>
    decreases s.len(),
{
    if s.len() == 0 {
        Seq::empty()
    } else {
        entry_insert_sorted(stable_sorted(s.drop_last()), s.last())
    }
}

proof fn lemma_entry_insert_sorted_at(
    s: Seq<(Seq<char>, Seq<char>)>,
    e: (Seq<char>, Seq<char>),
    p: int,
)
    requires
        0 <= p <= s.len(),
        forall|j: int| 0 <= j < p ==> lex_le(#[trigger] s[j].0, e.0),
        p < s.len() ==> !lex_le(s[p].0, e.0),
    ensures
        entry_insert_sorted(s, e) == s.take(p) + seq![e] + s.skip(p),
    decreases p,
{
    if p == 0 {
        if s.len() == 0 {
            assert(entry_insert_sorted(s, e) =~= s.take(0) + seq![e] + s.skip(0));
        } else {
            assert(!lex_le(s[0].0, e.0));
            assert(entry_insert_sorted(s, e) == seq![e] + s);
            assert(seq![e] + s =~= s.take(0) + seq![e] + s.skip(0));
        }
    } else {
        assert(lex_le(s[0].0, e.0));
        lemma_entry_insert_sorted_at(s.drop_first(), e, p - 1);
        assert(entry_insert_sorted(s, e) == seq![s[0]] + entry_insert_sorted(s.drop_first(), e));
        assert(seq![s[0]] + (s.drop_first().take(p - 1) + seq![e] + s.drop_first().skip(p - 1))
            =~= s.take(p) + seq![e] + s.skip(p));
    }
}

/// Entries in nondecreasing key order under `lex_le`.
pub open spec fn entries_sorted(s: Seq<(Seq<char>, Seq<char>)>) -> bool {
    forall|i: int, j: int| 0 <= i < j < s.len() ==> lex_le(#[trigger] s[i].0, #[trigger] s[j].0)
}

proof fn lemma_insert_sorted_elements(s: Seq<(Seq<char>, Seq<char>)>, e: (Seq<char>, Seq<char>))
    ensures
        entry_insert_sorted(s, e).len() == s.len() + 1,
        forall|i: int|
            0 <= i < entry_insert_sorted(s, e).len() ==> #[trigger] entry_insert_sorted(s, e)[i]
                == e || exists|j: int| 0 <= j < s.len() && entry_insert_sorted(s, e)[i] == s[j],
    decreases s.len(),
{
    let r = entry_insert_sorted(s, e);
    if s.len() == 0 {
    } else if lex_le(s[0].0, e.0) {
        lemma_insert_sorted_elements(s.drop_first(), e);
        let tail = entry_insert_sorted(s.drop_first(), e);
        assert forall|i: int| 0 <= i < r.len() implies #[trigger] r[i] == e || exists|j: int|
            0 <= j < s.len() && r[i] == s[j] by {
            if i == 0 {
                assert(r[0] == s[0]);
            } else {
                assert(r[i] == tail[i - 1]);
                if tail[i - 1] != e {
                    let j = choose|j: int| 0 <= j < s.drop_first().len() && tail[i - 1]
                        == s.drop_first()[j];
                    assert(r[i] == s[j + 1]);
                }
            }
        }
    } else {
        assert forall|i: int| 0 <= i < r.len() implies #[trigger] r[i] == e || exists|j: int|
            0 <= j < s.len() && r[i] == s[j] by {
            if i > 0 {
                assert(r[i] == s[i - 1]);
            }
        }
    }
}

proof fn lemma_insert_sorted_keeps_sorted(s: Seq<(Seq<char>, Seq<char>)>, e: (Seq<char>, Seq<char>))
    requires
        entries_sorted(s),
    ensures
        entries_sorted(entry_insert_sorted(s, e)),
    decreases s.len(),
{
    let r = entry_insert_sorted(s, e);
    if s.len() == 0 {
    } else if lex_le(s[0].0, e.0) {
        assert(entries_sorted(s.drop_first()));
        lemma_insert_sorted_keeps_sorted(s.drop_first(), e);
        lemma_insert_sorted_elements(s.drop_first(), e);
        let tail = entry_insert_sorted(s.drop_first(), e);
        // the head is `lex_le` every element of the inserted tail
        assert forall|i: int, j: int| 0 <= i < j < r.len() implies lex_le(
            #[trigger] r[i].0,
            #[trigger] r[j].0,
        ) by {
            if i == 0 {
                assert(r[j] == tail[j - 1]);
                if tail[j - 1] == e {
                } else {
                    let m = choose|m: int| 0 <= m < s.drop_first().len() && tail[j - 1]
                        == s.drop_first()[m];
                    assert(s.drop_first()[m] == s[m + 1]);
                    assert(lex_le(s[0].0, s[m + 1].0));
                }
            } else {
                assert(r[i] == tail[i - 1] && r[j] == tail[j - 1]);
            }
        }
    } else {
        crate::strings::lemma_lex_le_total(s[0].0, e.0);
        assert forall|i: int, j: int| 0 <= i < j < r.len() implies lex_le(
            #[trigger] r[i].0,
            #[trigger] r[j].0,
        ) by {
            if i == 0 {
                assert(r[j] == s[j - 1]);
                if j > 1 {
                    crate::strings::lemma_lex_le_trans(e.0, s[0].0, s[j - 1].0);
                }
            } else {
                assert(r[i] == s[i - 1] && r[j] == s[j - 1]);
            }
        }
    }
}

/// The stable sort really sorts: its result is in nondecreasing key order.
pub proof fn lemma_stable_sorted_sorted(s: Seq<(Seq<char>, Seq<char>)>)
    ensures
        entries_sorted(stable_sorted(s)),
    decreases s.len(),
{
    if s.len() > 0 {
        lemma_stable_sorted_sorted(s.drop_last());
        lemma_insert_sorted_keeps_sorted(stable_sorted(s.drop_last()), s.last());
    }
}

proof fn lemma_insert_sorted_multiset(s: Seq<(Seq<char>, Seq<char>)>, e: (Seq<char>, Seq<char>))
    ensures
        entry_insert_sorted(s, e).to_multiset() == s.to_multiset().insert(e),
    decreases s.len(),
{
    broadcast use vstd::seq_lib::group_to_multiset_ensures;
    broadcast use vstd::seq_lib::lemma_multiset_commutative;
    broadcast use vstd::multiset::group_multiset_axioms;

    let r = entry_insert_sorted(s, e);
    if s.len() == 0 {
        assert(seq![e] =~= Seq::<(Seq<char>, Seq<char>)>::empty().push(e));
        assert(r.to_multiset() =~= s.to_multiset().insert(e));
    } else if lex_le(s[0].0, e.0) {
        lemma_insert_sorted_multiset(s.drop_first(), e);
        assert(r == seq![s[0]] + entry_insert_sorted(s.drop_first(), e));
        assert(seq![s[0]] =~= Seq::<(Seq<char>, Seq<char>)>::empty().push(s[0]));
        assert(seq![s[0]] + s.drop_first() =~= s);
        assert(r.to_multiset() =~= s.to_multiset().insert(e));
    } else {
        assert(r == seq![e] + s);
        assert(seq![e] =~= Seq::<(Seq<char>, Seq<char>)>::empty().push(e));
        assert(r.to_multiset() =~= s.to_multiset().insert(e));
    }
}

/// The stable sort is a permutation: no entry appears or disappears.
pub proof fn lemma_stable_sorted_permutes(s: Seq<(Seq<char>, Seq<char>)>)
    ensures
        stable_sorted(s).to_multiset() == s.to_multiset(),
    decreases s.len(),
{
    broadcast use vstd::seq_lib::group_to_multiset_ensures;

    if s.len() > 0 {
        lemma_stable_sorted_permutes(s.drop_last());
        lemma_insert_sorted_multiset(stable_sorted(s.drop_last()), s.last());
        assert(s.drop_last().push(s.last()) =~= s);
        assert(s.drop_last().push(s.last()).to_multiset() =~= s.drop_last().to_multiset().insert(
            s.last(),
        ));
    }
}

proof fn lemma_insert_sorted_encodes_values(
    s: Seq<(Seq<char>, Seq<char>)>,
    e: (Seq<char>, Seq<char>),
)
    ensures
        entry_insert_sorted(value_encoded_entries(s), (e.0, form_urlencoded_of(encode_utf8(e.1))))
            == value_encoded_entries(entry_insert_sorted(s, e)),
    decreases s.len(),
{
    let enc_e = (e.0, form_urlencoded_of(encode_utf8(e.1)));
    let enc_s = value_encoded_entries(s);
    if s.len() == 0 {
        assert(entry_insert_sorted(enc_s, enc_e) =~= value_encoded_entries(seq![e]));
        assert(entry_insert_sorted(s, e) == seq![e]);
    } else {
        assert(enc_s[0] == (s[0].0, form_urlencoded_of(encode_utf8(s[0].1))));
        assert(enc_s.drop_first() =~= value_encoded_entries(s.drop_first()));
        if lex_le(s[0].0, e.0) {
            lemma_insert_sorted_encodes_values(s.drop_first(), e);
            assert(entry_insert_sorted(enc_s, enc_e) == seq![enc_s[0]] + entry_insert_sorted(
                enc_s.drop_first(),
                enc_e,
            ));
            assert(seq![enc_s[0]] + value_encoded_entries(entry_insert_sorted(s.drop_first(), e))
                =~= value_encoded_entries(seq![s[0]] + entry_insert_sorted(s.drop_first(), e)));
        } else {
            assert(entry_insert_sorted(enc_s, enc_e) == seq![enc_e] + enc_s);
            assert(seq![enc_e] + enc_s =~= value_encoded_entries(seq![e] + s));
        }
    }
}

/// Sorting commutes with percent-encoding the values: the sort reads only
/// the keys, so encoding values before or after it gives the same entries.
pub proof fn lemma_sort_encodes_values(s: Seq<(Seq<char>, Seq<char>)>)
    ensures
        stable_sorted(value_encoded_entries(s)) == value_encoded_entries(stable_sorted(s)),
    decreases s.len(),
{
    let enc_s = value_encoded_entries(s);
    if s.len() == 0 {
        assert(stable_sorted(enc_s) =~= value_encoded_entries(stable_sorted(s)));
    } else {
        lemma_sort_encodes_values(s.drop_last());
        assert(enc_s.drop_last() =~= value_encoded_entries(s.drop_last()));
        assert(enc_s.last() == (s.last().0, form_urlencoded_of(encode_utf8(s.last().1))));
        lemma_insert_sorted_encodes_values(stable_sorted(s.drop_last()), s.last());
        assert(stable_sorted(enc_s) == entry_insert_sorted(
            stable_sorted(enc_s.drop_last()),
            enc_s.last(),
        ));
    }
}

/// Sorts entries by key, stably, under `lex_le`.
pub(crate) fn sort_entries(v: Vec<(String, String)>) -> (r: Vec<(String, String)>)
    ensures
        pairs_view(r@) == stable_sorted(pairs_view(v@)),
{
    let mut out: Vec<(String, String)> = Vec::new();
    let mut idx: usize = 0;
    proof {
        assert(pairs_view(v@).take(0) =~= Seq::<(Seq<char>, Seq<char>)>::empty());
        assert(pairs_view(out@) =~= Seq::<(Seq<char>, Seq<char>)>::empty());
    }
    while idx < v.len()
        invariant
            idx <= v.len(),
            pairs_view(out@) == stable_sorted(pairs_view(v@).take(idx as int)),
        decreases v.len() - idx,
    {
        let key = v[idx].0.clone();
        let value = v[idx].1.clone();
        let ghost pre = pairs_view(out@);
        let mut pos: usize = 0;
        while pos < out.len() && str_le(out[pos].0.as_str(), key.as_str())
            invariant
                pos <= out.len(),
                pairs_view(out@) == pre,
                forall|j: int| 0 <= j < pos ==> lex_le(#[trigger] pairs_view(out@)[j].0, key@),
            decreases out.len() - pos,
        {
            pos = pos + 1;
        }
        out.insert(pos, (key, value));
        proof {
            lemma_entry_insert_sorted_at(pre, (key@, value@), pos as int);
            assert(pairs_view(out@) =~= pre.take(pos as int) + seq![(key@, value@)] + pre.skip(
                pos as int,
            ));
            assert(pairs_view(v@).take(idx + 1).drop_last() =~= pairs_view(v@).take(idx as int));
            assert(pairs_view(v@).take(idx + 1).last() == (key@, value@));
        }
        idx = idx + 1;
    }
    proof {
        assert(pairs_view(v@).take(v@.len() as int) =~= pairs_view(v@));
    }
    out
}

/// The keys of a sequence of entries, in order.
pub open spec fn keys_of(s: Seq<(Seq<char>, Seq<char>)>) -> Seq<Seq<char>> {
    s.map_values(|p: (Seq<char>, Seq<char>)| p.0)
}

/// Joins entries as `key=value`, separated by `sep`.
pub(crate) fn join_entries(v: &Vec<(String, String)>, sep: &str) -> (r: String)
    ensures
        r@ == join_pairs(pairs_view(v@), sep@),
{
    let mut out = String::new();
    let mut i: usize = 0;
    proof {
        assert(pairs_view(v@).take(0) =~= Seq::<(Seq<char>, Seq<char>)>::empty());
    }
    while i < v.len()
        invariant
            i <= v.len(),
            out@ == join_pairs(pairs_view(v@).take(i as int), sep@),
        decreases v.len() - i,
    {
        if i > 0 {
            out.append(sep);
        }
        out.append(v[i].0.as_str());
        out.append("=");
        out.append(v[i].1.as_str());
        proof {
            reveal_strlit("=");
            lemma_join_pairs_step(pairs_view(v@), sep@, i as int);
            assert("="@ =~= seq!['=']);
            assert(out@ =~= join_pairs(pairs_view(v@).take(i as int + 1), sep@));
        }
        i = i + 1;
    }
    proof {
        assert(pairs_view(v@).take(v@.len() as int) =~= pairs_view(v@));
    }
    out
}

/// Joins the keys of the entries, separated by `sep`.
pub(crate) fn join_entry_keys(v: &Vec<(String, String)>, sep: &str) -> (r: String)
    ensures
        r@ == join_strs(keys_of(pairs_view(v@)), sep@),
{
    let ghost ks = keys_of(pairs_view(v@));
    let mut out = String::new();
    let mut i: usize = 0;
    proof {
        assert(ks.take(0) =~= Seq::<Seq<char>>::empty());
    }
    while i < v.len()
        invariant
            i <= v.len(),
            ks == keys_of(pairs_view(v@)),
            v@.len() == ks.len(),
            out@ == join_strs(ks.take(i as int), sep@),
        decreases v.len() - i,
    {
        if i > 0 {
            out.append(sep);
        }
        out.append(v[i].0.as_str());
        proof {
            lemma_join_strs_step(ks, sep@, i as int);
            assert(out@ =~= join_strs(ks.take(i as int + 1), sep@));
        }
        i = i + 1;
    }
    proof {
        assert(ks.take(ks.len() as int) =~= ks);
    }
    out
}

/// Entries with their values percent-encoded, as the final request URL
/// carries them.
pub open spec fn value_encoded_entries(s: Seq<(Seq<char>, Seq<char>)>) -> Seq<(Seq<char>, Seq<char>)> {
    s.map_values(|p: (Seq<char>, Seq<char>)| (p.0, form_urlencoded_of(encode_utf8(p.1))))
}

/// The query string of the final request: every value percent-encoded at
/// transport time, entries in map order.
pub open spec fn value_encoded_query(s: Seq<(Seq<char>, Seq<char>)>) -> Seq<char> {
    join_pairs(value_encoded_entries(s), "&"@)
}

pub(crate) fn encode_entry_values(m: &ParamMap) -> (r: Vec<(String, String)>)
    ensures
        pairs_view(r@) == value_encoded_entries(m@),
{
    let entries = m.raw_entries();
    let mut out: Vec<(String, String)> = Vec::new();
    let mut i: usize = 0;
    proof {
        assert(pairs_view(out@) =~= value_encoded_entries(m@).take(0));
    }
    while i < entries.len()
        invariant
            i <= entries.len(),
            pairs_view(entries@) == m@,
            pairs_view(out@) == value_encoded_entries(m@).take(i as int),
        decreases entries.len() - i,
    {
        let key = entries[i].0.clone();
        let ev = form_urlencode(entries[i].1.as_str());
        let ghost prev = pairs_view(out@);
        out.push((key, ev));
        proof {
            assert(m@[i as int] == (entries@[i as int].0@, entries@[i as int].1@));
            assert(pairs_view(out@) =~= prev.push((m@[i as int].0, form_urlencoded_of(
                encode_utf8(m@[i as int].1),
            ))));
            assert(value_encoded_entries(m@)[i as int] == (m@[i as int].0, form_urlencoded_of(
                encode_utf8(m@[i as int].1),
            )));
            assert(value_encoded_entries(m@).take(i as int + 1) =~= value_encoded_entries(m@).take(
                i as int,
            ).push(value_encoded_entries(m@)[i as int]));
            assert(pairs_view(out@) == value_encoded_entries(m@).take(i as int + 1));
        }
        i = i + 1;
    }
    proof {
        assert(value_encoded_entries(m@).take(m@.len() as int) =~= value_encoded_entries(m@));
    }
    out
}

} // verus!
