//! An ordered header map: keys are unique, kept in the order of their first
//! insertion, and a later insert of a key replaces its value.

use vstd::prelude::*;

verus! {

/// Header lines as (key, value) pairs of characters.
pub type HeaderSeq = Seq<(Seq<char>, Seq<char>)>;

pub open spec fn keys_unique(h: HeaderSeq) -> bool {
    forall|i: int, j: int| 0 <= i < h.len() && 0 <= j < h.len() && i != j ==> h[i].0 != h[j].0
}

pub open spec fn has_key(h: HeaderSeq, k: Seq<char>) -> bool {
    exists|i: int| 0 <= i < h.len() && h[i].0 == k
}

/// The first position that holds key `k`, where `has_key(h, k)`.
pub open spec fn key_index(h: HeaderSeq, k: Seq<char>) -> int {
    choose|i: int| 0 <= i < h.len() && h[i].0 == k && forall|j: int| 0 <= j < i ==> h[j].0 != k
}

/// The value stored under `k`.
pub open spec fn lookup(h: HeaderSeq, k: Seq<char>) -> Option<Seq<char>> {
    if has_key(h, k) {
        Some(h[key_index(h, k)].1)
    } else {
        None
    }
}

/// `h` after setting `k` to `v`: in place where `k` is present, else at the end.
pub open spec fn insert_header(h: HeaderSeq, k: Seq<char>, v: Seq<char>) -> HeaderSeq {
    if has_key(h, k) {
        h.update(key_index(h, k), (k, v))
    } else {
        h.push((k, v))
    }
}

/// A position holding `k` with none before it is `key_index(h, k)`.
pub proof fn lemma_key_index(h: HeaderSeq, k: Seq<char>, i: int)
    requires
        0 <= i < h.len(),
        h[i].0 == k,
        forall|j: int| 0 <= j < i ==> h[j].0 != k,
    ensures
        has_key(h, k),
        key_index(h, k) == i,
{
    let c = key_index(h, k);
    assert(0 <= c < h.len() && h[c].0 == k && forall|j: int| 0 <= j < c ==> h[j].0 != k);
    if c < i {
        assert(h[c].0 != k);
    }
    if c > i {
        assert(h[i].0 != k);
    }
}

proof fn lemma_key_index_below(h: HeaderSeq, k: Seq<char>, w: int)
    requires
        0 <= w < h.len(),
        h[w].0 == k,
    ensures
        0 <= key_index(h, k) <= w,
        h[key_index(h, k)].0 == k,
        forall|j: int| 0 <= j < key_index(h, k) ==> h[j].0 != k,
    decreases w,
{
    if exists|i: int| 0 <= i < w && h[i].0 == k {
        let w2 = choose|i: int| 0 <= i < w && h[i].0 == k;
        lemma_key_index_below(h, k, w2);
    } else {
        lemma_key_index(h, k, w);
    }
}

proof fn lemma_key_index_exists(h: HeaderSeq, k: Seq<char>)
    requires
        has_key(h, k),
    ensures
        0 <= key_index(h, k) < h.len(),
        h[key_index(h, k)].0 == k,
        forall|j: int| 0 <= j < key_index(h, k) ==> h[j].0 != k,
{
    let w = choose|i: int| 0 <= i < h.len() && h[i].0 == k;
    lemma_key_index_below(h, k, w);
}

pub proof fn lemma_insert_header(h: HeaderSeq, k: Seq<char>, v: Seq<char>)
    ensures
        keys_unique(h) ==> keys_unique(insert_header(h, k, v)),
        lookup(insert_header(h, k, v), k) == Some(v),
        forall|k2: Seq<char>| k2 != k ==> lookup(insert_header(h, k, v), k2) == lookup(h, k2),
{
    let h2 = insert_header(h, k, v);
    if has_key(h, k) {
        lemma_key_index_exists(h, k);
        lemma_key_index(h2, k, key_index(h, k));
    } else {
        lemma_key_index(h2, k, h.len() as int);
    }
    assert forall|k2: Seq<char>| k2 != k implies lookup(h2, k2) == lookup(h, k2) by {
        if has_key(h, k2) {
            lemma_key_index_exists(h, k2);
            lemma_key_index(h2, k2, key_index(h, k2));
        }
        if has_key(h2, k2) {
            lemma_key_index_exists(h2, k2);
            lemma_key_index(h, k2, key_index(h2, k2));
        }
    }
}

/// The header lines, each `key: value` followed by CRLF, in order.
pub open spec fn headers_text(h: HeaderSeq) -> Seq<char>
    decreases h.len(),
{
    if h.len() == 0 {
        Seq::empty()
    } else {
        headers_text(h.drop_last()) + h.last().0 + ": "@ + h.last().1 + "\r\n"@
    }
}

#[derive(Debug, Clone)]
pub struct HeaderMap {
    entries: Vec<(String, String)>,
}

impl View for HeaderMap {
    type V = HeaderSeq;

    closed spec fn view(&self) -> HeaderSeq {
        self.entries@.map_values(|e: (String, String)| (e.0@, e.1@))
    }
}

impl HeaderMap {
    pub closed spec fn wf(&self) -> bool {
        keys_unique(self@)
    }

    pub fn new() -> (r: HeaderMap)
        ensures
            r@ == Seq::<(Seq<char>, Seq<char>)>::empty(),
            r.wf(),
    {
        let r = HeaderMap { entries: Vec::new() };
        assert(r@ =~= Seq::<(Seq<char>, Seq<char>)>::empty());
        r
    }

    pub fn len(&self) -> (r: usize)
        ensures
            r == self@.len(),
    {
        self.entries.len()
    }

    /// The position of `key`, if present.
    fn position(&self, key: &String) -> (r: Option<usize>)
        ensures
            match r {
                Some(i) => i < self@.len() && has_key(self@, key@) && i == key_index(self@, key@),
                None => !has_key(self@, key@),
            },
    {
        let mut i: usize = 0;
        while i < self.entries.len()
            invariant
                i <= self@.len(),
                self@.len() == self.entries@.len(),
                forall|j: int| 0 <= j < i ==> self@[j].0 != key@,
            decreases self@.len() - i,
        {
            if self.entries[i].0 == *key {
                proof {
                    lemma_key_index(self@, key@, i as int);
                }
                return Some(i);
            }
            i = i + 1;
        }
        None
    }

    /// Sets `key` to `value`, replacing an earlier value of the same key.
    pub fn insert(&mut self, key: String, value: String)
        ensures
            old(self).wf() ==> final(self).wf(),
            final(self)@ == insert_header(old(self)@, key@, value@),
    {
        proof {
            lemma_insert_header(self@, key@, value@);
        }
        let ghost k = key@;
        let ghost v = value@;
        match self.position(&key) {
            Some(i) => {
                self.entries[i] = (key, value);
                assert(self@ =~= insert_header(old(self)@, k, v));
            },
            None => {
                self.entries.push((key, value));
                assert(self@ =~= insert_header(old(self)@, k, v));
            },
        }
    }

    /// The value stored under `key`.
    pub fn get(&self, key: &str) -> (r: Option<String>)
        ensures
            match r {
                Some(v) => lookup(self@, key@) == Some(v@),
                None => lookup(self@, key@) is None,
            },
    {
        let k = key.to_owned();
        match self.position(&k) {
            Some(i) => Some(self.entries[i].1.clone()),
            None => None,
        }
    }

    /// The header lines as text, each `key: value` and CRLF, in order.
    pub fn to_text(&self) -> (r: String)
        ensures
            r@ == headers_text(self@),
    {
        let mut out = String::new();
        let mut i: usize = 0;
        while i < self.entries.len()
            invariant
                i <= self@.len(),
                self@.len() == self.entries@.len(),
                out@ == headers_text(self@.subrange(0, i as int)),
            decreases self@.len() - i,
        {
            out.append(self.entries[i].0.as_str());
            out.append(": ");
            out.append(self.entries[i].1.as_str());
            out.append("\r\n");
            proof {
                let h = self@.subrange(0, i + 1);
                assert(h.drop_last() =~= self@.subrange(0, i as int));
                assert(out@ =~= headers_text(h));
            }
            i = i + 1;
        }
        assert(self@.subrange(0, self@.len() as int) =~= self@);
        out
    }
}

} // verus!
