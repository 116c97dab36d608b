use vstd::prelude::*;

use crate::crypto::{lower_of, to_lowercase};
use crate::database::Database;
use crate::preamble::bytes_equal;
use crate::record::{records_view, Record, RecordView};
use vstd::utf8::encode_utf8;

verus! {

broadcast use vstd::std_specs::hash::group_hash_axioms;

/// Whether `needle` occurs as a contiguous run of `hay`.
pub open spec fn contains_seq(hay: Seq<u8>, needle: Seq<u8>) -> bool {
    exists|i: int| 0 <= i <= hay.len() - needle.len() && #[trigger] hay.subrange(i, i + needle.len()) == needle
}

/// Byte-wise lexicographic order, the order of `str`.
pub open spec fn seq_lt(a: Seq<u8>, b: Seq<u8>) -> bool
    decreases a.len(),
{
    if a.len() == 0 {
        b.len() > 0
    } else if b.len() == 0 {
        false
    } else if a[0] != b[0] {
        a[0] < b[0]
    } else {
        seq_lt(a.drop_first(), b.drop_first())
    }
}

/// The order of search results: by title, then by identifier.
pub open spec fn key_lt(ta: Seq<u8>, ua: u128, tb: Seq<u8>, ub: u128) -> bool {
    seq_lt(ta, tb) || (ta == tb && ua < ub)
}

/// Whether the lower-case form of one of the searched attributes of `r` holds
/// the UTF-8 bytes `q`.
pub open spec fn record_matches(r: RecordView, q: Seq<u8>) -> bool {
    ||| contains_seq(encode_utf8(lower_of(r.title)), q)
    ||| contains_seq(encode_utf8(lower_of(r.username)), q)
    ||| contains_seq(encode_utf8(lower_of(r.group)), q)
    ||| contains_seq(encode_utf8(lower_of(r.url)), q)
    ||| contains_seq(encode_utf8(lower_of(r.notes)), q)
}

pub proof fn lemma_seq_lt_transitive(a: Seq<u8>, b: Seq<u8>, c: Seq<u8>)
    requires
        seq_lt(a, b),
        seq_lt(b, c),
    ensures
        seq_lt(a, c),
    decreases a.len(),
{
    if a.len() > 0 && b.len() > 0 && c.len() > 0 && a[0] == b[0] && b[0] == c[0] {
        lemma_seq_lt_transitive(a.drop_first(), b.drop_first(), c.drop_first());
    }
}

pub proof fn lemma_seq_lt_total(a: Seq<u8>, b: Seq<u8>)
    requires
        a != b,
        !seq_lt(a, b),
    ensures
        seq_lt(b, a),
    decreases a.len(),
{
    if a.len() == 0 {
        assert(b.len() == 0);
        assert(a =~= b);
    } else if b.len() > 0 && a[0] == b[0] {
        if a.drop_first() == b.drop_first() {
            assert(a =~= seq![a[0]] + a.drop_first());
            assert(b =~= seq![b[0]] + b.drop_first());
        }
        lemma_seq_lt_total(a.drop_first(), b.drop_first());
    }
}

pub proof fn lemma_key_lt_transitive(
    ta: Seq<u8>,
    ua: u128,
    tb: Seq<u8>,
    ub: u128,
    tc: Seq<u8>,
    uc: u128,
)
    requires
        key_lt(ta, ua, tb, ub),
        key_lt(tb, ub, tc, uc),
    ensures
        key_lt(ta, ua, tc, uc),
{
    if seq_lt(ta, tb) && seq_lt(tb, tc) {
        lemma_seq_lt_transitive(ta, tb, tc);
    }
}

pub proof fn lemma_key_lt_total(ta: Seq<u8>, ua: u128, tb: Seq<u8>, ub: u128)
    requires
        ua != ub,
        !key_lt(ta, ua, tb, ub),
    ensures
        key_lt(tb, ub, ta, ua),
{
    if ta != tb {
        lemma_seq_lt_total(ta, tb);
    }
}

/// Whether `needle` occurs as a contiguous run of `hay`.
pub fn contains_bytes(hay: &[u8], needle: &[u8]) -> (r: bool)
    ensures
        r == contains_seq(hay@, needle@),
{
    if needle.len() > hay.len() {
        return false;
    }
    let n = needle.len();
    let last = hay.len() - n;
    let mut i: usize = 0;
    loop
        invariant
            hay@.len() <= usize::MAX,
            n == needle@.len(),
            i <= last,
            last == hay@.len() - needle@.len(),
            forall|j: int| 0 <= j < i ==> #[trigger] hay@.subrange(j, j + needle@.len()) != needle@,
        decreases last - i,
    {
        if bytes_equal(&hay[i..i + n], needle) {
            return true;
        }
        if i == last {
            return false;
        }
        i = i + 1;
    }
}

/// Whether `a` comes before `b` in byte-wise lexicographic order.
pub fn bytes_less(a: &[u8], b: &[u8]) -> (r: bool)
    ensures
        r == seq_lt(a@, b@),
{
    let mut i: usize = 0;
    assert(a@.skip(0) =~= a@);
    assert(b@.skip(0) =~= b@);
    while i < a.len() && i < b.len()
        invariant
            i <= a@.len(),
            i <= b@.len(),
            seq_lt(a@, b@) == seq_lt(a@.skip(i as int), b@.skip(i as int)),
        decreases a@.len() - i,
    {
        if a[i] != b[i] {
            return a[i] < b[i];
        }
        assert(a@.skip(i as int).drop_first() =~= a@.skip(i + 1));
        assert(b@.skip(i as int).drop_first() =~= b@.skip(i + 1));
        i = i + 1;
    }
    i < b.len()
}

/// Whether the lower-case form of `field` holds the bytes `lowered_query`.
fn field_matches(field: &String, lowered_query: &[u8]) -> (r: bool)
    ensures
        r == contains_seq(encode_utf8(lower_of(field@)), lowered_query@),
{
    let lowered = to_lowercase(field.as_str());
    contains_bytes(lowered.as_str().as_bytes(), lowered_query)
}

/// Whether one of the searched attributes of `r` holds the lower-case query bytes.
fn matches(r: &Record, lowered_query: &[u8]) -> (b: bool)
    ensures
        b == record_matches(r@, lowered_query@),
{
    field_matches(&r.title, lowered_query) || field_matches(&r.username, lowered_query)
        || field_matches(&r.group, lowered_query) || field_matches(&r.url, lowered_query)
        || field_matches(&r.notes, lowered_query)
}

/// Where a result with title bytes `title` and identifier `k` goes among the
/// ordered results `out`: after every result before it, before the others.
fn insertion_point(out: &Vec<(u128, &Record)>, title: &[u8], k: u128) -> (p: usize)
    ensures
        p <= out@.len(),
        forall|i: int|
            0 <= i < p ==> !key_lt(title@, k, encode_utf8(#[trigger] out@[i].1@.title), out@[i].0),
        p < out@.len() ==> key_lt(title@, k, encode_utf8(out@[p as int].1@.title), out@[p as int].0),
{
    let mut p: usize = 0;
    while p < out.len()
        invariant
            p <= out@.len(),
            forall|i: int|
                0 <= i < p ==> !key_lt(
                    title@,
                    k,
                    encode_utf8(#[trigger] out@[i].1@.title),
                    out@[i].0,
                ),
        decreases out@.len() - p,
    {
        let other = out[p].1.title.as_str().as_bytes();
        if bytes_less(title, other) || (bytes_equal(title, other) && k < out[p].0) {
            return p;
        }
        p = p + 1;
    }
    p
}

/// Whether the results are strictly ordered by title bytes, then identifier.
pub open spec fn sorted_results(s: Seq<(u128, &Record)>) -> bool {
    forall|i: int, j: int|
        0 <= i < j < s.len() ==> key_lt(
            encode_utf8(#[trigger] s[i].1@.title),
            s[i].0,
            encode_utf8(#[trigger] s[j].1@.title),
            s[j].0,
        )
}

/// Inserts the result `(k, rec)` at its place among the ordered results `out`.
fn insert_sorted<'a>(out: &mut Vec<(u128, &'a Record)>, k: u128, rec: &'a Record)
    requires
        sorted_results(old(out)@),
        forall|i: int| 0 <= i < old(out)@.len() ==> #[trigger] old(out)@[i].0 != k,
    ensures
        sorted_results(final(out)@),
        exists|p: int| 0 <= p < final(out)@.len() && final(out)@[p] == (k, rec),
        forall|i: int|
            #![trigger old(out)@[i]]
            0 <= i < old(out)@.len() ==> exists|i2: int|
                0 <= i2 < final(out)@.len() && final(out)@[i2] == old(out)@[i],
        forall|i: int|
            #![trigger final(out)@[i]]
            0 <= i < final(out)@.len() ==> final(out)@[i] == (k, rec) || exists|i2: int|
                0 <= i2 < old(out)@.len() && old(out)@[i2] == final(out)@[i],
{
    let title = rec.title.as_str().as_bytes();
    let p = insertion_point(out, title, k);
    let ghost old_out = out@;
    proof {
        assert forall|i: int| 0 <= i < p implies key_lt(
            encode_utf8(#[trigger] old_out[i].1@.title),
            old_out[i].0,
            title@,
            k,
        ) by {
            lemma_key_lt_total(title@, k, encode_utf8(old_out[i].1@.title), old_out[i].0);
        }
        assert forall|i: int| p <= i < old_out.len() implies key_lt(
            title@,
            k,
            encode_utf8(#[trigger] old_out[i].1@.title),
            old_out[i].0,
        ) by {
            if i > p {
                lemma_key_lt_transitive(
                    title@,
                    k,
                    encode_utf8(old_out[p as int].1@.title),
                    old_out[p as int].0,
                    encode_utf8(old_out[i].1@.title),
                    old_out[i].0,
                );
            }
        }
    }
    proof {
        lemma_sorted_insert(old_out, (k, rec), p as int);
    }
    out.insert(p, (k, rec));
    proof {
        assert(out@[p as int] == (k, rec));
        assert forall|i: int| #![trigger old_out[i]] 0 <= i < old_out.len() implies exists|i2: int|
            0 <= i2 < out@.len() && out@[i2] == old_out[i] by {
            if i < p {
                assert(out@[i] == old_out[i]);
            } else {
                assert(out@[i + 1] == old_out[i]);
            }
        }
        assert forall|i: int| #![trigger out@[i]] 0 <= i < out@.len() implies out@[i] == (k, rec)
            || exists|i2: int| 0 <= i2 < old_out.len() && old_out[i2] == out@[i] by {
            if i < p {
                assert(old_out[i] == out@[i]);
            } else if i > p {
                assert(old_out[i - 1] == out@[i]);
            }
        }
    }
}

proof fn lemma_sorted_insert<'a>(s: Seq<(u128, &'a Record)>, x: (u128, &'a Record), p: int)
    requires
        sorted_results(s),
        0 <= p <= s.len(),
        forall|i: int|
            0 <= i < p ==> key_lt(encode_utf8(#[trigger] s[i].1@.title), s[i].0, encode_utf8(x.1@.title), x.0),
        forall|i: int|
            p <= i < s.len() ==> key_lt(encode_utf8(x.1@.title), x.0, encode_utf8(#[trigger] s[i].1@.title), s[i].0),
    ensures
        sorted_results(s.insert(p, x)),
{
    let t = s.insert(p, x);
    assert forall|i: int, j: int| 0 <= i < j < t.len() implies key_lt(
        encode_utf8(#[trigger] t[i].1@.title),
        t[i].0,
        encode_utf8(#[trigger] t[j].1@.title),
        t[j].0,
    ) by {
        if j < p {
            assert(t[i] == s[i] && t[j] == s[j]);
        } else if j == p {
            assert(t[i] == s[i]);
        } else if i == p {
            assert(t[j] == s[j - 1]);
        } else if i < p {
            assert(t[i] == s[i] && t[j] == s[j - 1]);
            lemma_key_lt_transitive(
                encode_utf8(s[i].1@.title),
                s[i].0,
                encode_utf8(x.1@.title),
                x.0,
                encode_utf8(s[j - 1].1@.title),
                s[j - 1].0,
            );
        } else {
            assert(t[i] == s[i - 1] && t[j] == s[j - 1]);
        }
    }
}

impl Database {
    /// The records whose title, username, group, URL or notes hold `query`
    /// regardless of case, ordered by title and then by identifier. An empty
    /// query selects every record.
    pub fn record_search<'a>(&'a self, query: &str) -> (r: Vec<(u128, &'a Record)>)
        ensures
            forall|i: int|
                0 <= i < r@.len() ==> {
                    &&& self.records@.contains_key(#[trigger] r@[i].0)
                    &&& r@[i].1@ == records_view(self.records@)[r@[i].0]
                    &&& record_matches(r@[i].1@, encode_utf8(lower_of(query@)))
                },
            forall|k: u128|
                self.records@.contains_key(k) && record_matches(
                    records_view(self.records@)[k],
                    encode_utf8(lower_of(query@)),
                ) ==> exists|i: int| 0 <= i < r@.len() && #[trigger] r@[i].0 == k,
            query@.len() == 0 ==> forall|k: u128|
                self.records@.contains_key(k) ==> exists|i: int|
                    0 <= i < r@.len() && #[trigger] r@[i].0 == k,
            forall|i: int, j: int|
                0 <= i < j < r@.len() ==> key_lt(
                    encode_utf8(#[trigger] r@[i].1@.title),
                    r@[i].0,
                    encode_utf8(#[trigger] r@[j].1@.title),
                    r@[j].0,
                ),
    {
        let lowered = to_lowercase(query);
        let q = lowered.as_str().as_bytes();
        let mut out: Vec<(u128, &'a Record)> = Vec::new();
        let ghost m = self.records@;
        for entry in it: self.records.iter()
            invariant
                m == self.records@,
                q@ == encode_utf8(lower_of(query@)),
                it.seq().no_duplicates(),
                forall|j: int|
                    0 <= j < it.seq().len() ==> m.contains_key(*(#[trigger] it.seq()[j]).0)
                        && m[*it.seq()[j].0] == *it.seq()[j].1,
                forall|kk: u128| #[trigger] m.contains_key(kk) ==> it.seq().contains((&kk, &m[kk])),
                forall|i: int|
                    0 <= i < out@.len() ==> {
                        &&& m.contains_key(#[trigger] out@[i].0)
                        &&& out@[i].1@ == m[out@[i].0]@
                        &&& record_matches(out@[i].1@, q@)
                        &&& exists|j: int| 0 <= j < it.index() && *(#[trigger] it.seq()[j]).0 == out@[i].0
                    },
                forall|kk: u128|
                    #[trigger] m.contains_key(kk) && record_matches(m[kk]@, q@) ==> (exists|i: int|
                        0 <= i < out@.len() && #[trigger] out@[i].0 == kk) || (exists|j: int|
                        it.index() <= j < it.seq().len() && *(#[trigger] it.seq()[j]).0 == kk),
                sorted_results(out@),
        {
            let ghost idx = it.index();
            let (k, rec) = entry;
            assert(it.seq()[idx] == entry);
            if matches(rec, q) {
                let ghost old_out = out@;
                proof {
                    assert forall|i: int| 0 <= i < old_out.len() implies #[trigger] old_out[i].0 != *k by {
                        let j = choose|j: int| 0 <= j < idx && *(#[trigger] it.seq()[j]).0 == old_out[i].0;
                        if old_out[i].0 == *k {
                            assert(it.seq()[j] == it.seq()[idx]);
                        }
                    }
                }
                insert_sorted(&mut out, *k, rec);
                proof {
                    assert forall|i: int| #![trigger out@[i]] 0 <= i < out@.len() implies exists|j: int|
                        0 <= j < idx + 1 && *(#[trigger] it.seq()[j]).0 == out@[i].0 by {
                        if out@[i] != (*k, rec) {
                            let i2 = choose|i2: int| 0 <= i2 < old_out.len() && old_out[i2] == out@[i];
                            assert(old_out[i2] == out@[i]);
                        }
                    }
                }
            }
            proof {
                assert forall|kk: u128|
                    #[trigger] m.contains_key(kk) && record_matches(m[kk]@, q@) && !(exists|i: int|
                        0 <= i < out@.len() && #[trigger] out@[i].0 == kk) implies (exists|j: int|
                        idx + 1 <= j < it.seq().len() && *(#[trigger] it.seq()[j]).0 == kk) by {
                    let j = choose|j: int| idx <= j < it.seq().len() && *(#[trigger] it.seq()[j]).0 == kk;
                    if j == idx {
                        assert(*k == kk);
                        assert(rec@ == m[kk]@);
                    }
                }
            }
        }
        proof {
            if query@.len() == 0 {
                assert(q@ =~= Seq::<u8>::empty());
                assert forall|kk: u128| m.contains_key(kk) implies record_matches(records_view(m)[kk], q@) by {
                    let t = encode_utf8(lower_of(records_view(m)[kk].title));
                    assert(t.subrange(0, 0 + q@.len() as int) =~= q@);
                    assert(contains_seq(t, q@));
                }
            }
        }
        out
    }
}

} // verus!
