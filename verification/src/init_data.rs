//! The query string that a Telegram Mini App hands over as its init data,
//! seen as bytes: `key=value` fields separated by '&'.
//!
//! The fields are looked up like a map built from the fields in order (a later
//! field with the same key wins), and the "data check string" that Telegram
//! signs is the list of fields without the hash, sorted, joined by newlines.
use vstd::prelude::*;
use vstd::relations::{sorted_by, total_ordering};

verus! {

broadcast use vstd::seq_lib::group_to_multiset_ensures;

pub const AMPERSAND: u8 = 38;

pub const EQUALS: u8 = 61;

pub const NEWLINE: u8 = 10;

/// The byte sequences held by a vector of byte vectors.
pub open spec fn seqs_of(v: Seq<Vec<u8>>) -> Seq<Seq<u8>> {
    v.map_values(|x: Vec<u8>| x@)
}

/// `s` cut at every `sep`: the pieces between separators, in order, with an
/// empty piece before a leading separator, between two adjacent separators
/// and after a trailing one (like `str::split` on a one-byte separator).
pub open spec fn spec_split(s: Seq<u8>, sep: u8) -> Seq<Seq<u8>>
    decreases s.len(),
{
    if s.len() == 0 {
        seq![Seq::<u8>::empty()]
    } else {
        let r = spec_split(s.drop_last(), sep);
        if s.last() == sep {
            r.push(Seq::<u8>::empty())
        } else {
            r.update(r.len() - 1, r.last().push(s.last()))
        }
    }
}

/// `i` is the position of the first `b` in `s`.
pub open spec fn is_first(s: Seq<u8>, b: u8, i: int) -> bool {
    &&& 0 <= i < s.len()
    &&& s[i] == b
    &&& forall|j: int| 0 <= j < i ==> s[j] != b
}

/// The position of the first `b` in `s`, or the length of `s` when there is none.
pub open spec fn spec_find(s: Seq<u8>, b: u8) -> int {
    if exists|i: int| is_first(s, b, i) {
        choose|i: int| is_first(s, b, i)
    } else {
        s.len() as int
    }
}

/// `s` split at its first `sep` into what comes before and what comes after
/// (like `str::split_once`), or nothing when `sep` does not occur.
pub open spec fn spec_split_once(s: Seq<u8>, sep: u8) -> Option<(Seq<u8>, Seq<u8>)> {
    let i = spec_find(s, sep);
    if i < s.len() {
        Some((s.take(i), s.skip(i + 1)))
    } else {
        None
    }
}

/// The value of field `key` among `fields`: the value of the last field whose
/// key is `key`. Fields without '=' are skipped.
pub open spec fn spec_field(fields: Seq<Seq<u8>>, key: Seq<u8>) -> Option<Seq<u8>>
    decreases fields.len(),
{
    if fields.len() == 0 {
        None
    } else {
        match spec_split_once(fields.last(), EQUALS) {
            Some((k, v)) if k == key => Some(v),
            _ => spec_field(fields.drop_last(), key),
        }
    }
}

/// The bytes of "hash".
pub open spec fn hash_key() -> Seq<u8> {
    seq![104u8, 97u8, 115u8, 104u8]
}

/// The bytes of "auth_date".
pub open spec fn auth_date_key() -> Seq<u8> {
    seq![97u8, 117u8, 116u8, 104u8, 95u8, 100u8, 97u8, 116u8, 101u8]
}

/// The bytes of "user".
pub open spec fn user_key() -> Seq<u8> {
    seq![117u8, 115u8, 101u8, 114u8]
}

/// A field that takes part in the data check string: one that does not start
/// with "hash".
pub open spec fn is_signed_field(f: Seq<u8>) -> bool {
    !(f.len() >= 4 && f.take(4) == hash_key())
}

/// Byte-wise lexicographic order, the order of `str`.
pub open spec fn lex_le(a: Seq<u8>, b: Seq<u8>) -> bool
    decreases a.len(),
{
    if a.len() == 0 {
        true
    } else if b.len() == 0 {
        false
    } else if a[0] < b[0] {
        true
    } else if a[0] > b[0] {
        false
    } else {
        lex_le(a.drop_first(), b.drop_first())
    }
}

pub open spec fn signed_pred() -> spec_fn(Seq<u8>) -> bool {
    |f: Seq<u8>| is_signed_field(f)
}

pub open spec fn lex_order() -> spec_fn(Seq<u8>, Seq<u8>) -> bool {
    |a: Seq<u8>, b: Seq<u8>| lex_le(a, b)
}

/// `pieces` joined with `sep` between each two of them.
pub open spec fn spec_join(pieces: Seq<Seq<u8>>, sep: u8) -> Seq<u8>
    decreases pieces.len(),
{
    if pieces.len() == 0 {
        seq![]
    } else if pieces.len() == 1 {
        pieces[0]
    } else {
        spec_join(pieces.drop_last(), sep) + seq![sep] + pieces.last()
    }
}

/// The data check string of init data cut into `fields`: the fields that do
/// not start with "hash", sorted, joined by newlines.
pub open spec fn spec_data_check_string(fields: Seq<Seq<u8>>) -> Seq<u8> {
    spec_join(fields.filter(signed_pred()).sort_by(lex_order()), NEWLINE)
}

proof fn lemma_split_nonempty(s: Seq<u8>, sep: u8)
    ensures
        spec_split(s, sep).len() >= 1,
    decreases s.len(),
{
    if s.len() > 0 {
        lemma_split_nonempty(s.drop_last(), sep);
    }
}

proof fn lemma_lex_reflexive(a: Seq<u8>)
    ensures
        lex_le(a, a),
    decreases a.len(),
{
    if a.len() > 0 {
        lemma_lex_reflexive(a.drop_first());
    }
}

proof fn lemma_lex_antisymmetric(a: Seq<u8>, b: Seq<u8>)
    requires
        lex_le(a, b),
        lex_le(b, a),
    ensures
        a == b,
    decreases a.len(),
{
    if a.len() > 0 && b.len() > 0 {
        lemma_lex_antisymmetric(a.drop_first(), b.drop_first());
        assert(a =~= seq![a[0]] + a.drop_first());
        assert(b =~= seq![b[0]] + b.drop_first());
    } else {
        assert(a =~= b);
    }
}

proof fn lemma_lex_transitive(a: Seq<u8>, b: Seq<u8>, c: Seq<u8>)
    requires
        lex_le(a, b),
        lex_le(b, c),
    ensures
        lex_le(a, c),
    decreases a.len(),
{
    if a.len() > 0 && b.len() > 0 && c.len() > 0 {
        if a[0] == b[0] && b[0] == c[0] {
            lemma_lex_transitive(a.drop_first(), b.drop_first(), c.drop_first());
        }
    }
}

proof fn lemma_lex_connected(a: Seq<u8>, b: Seq<u8>)
    ensures
        lex_le(a, b) || lex_le(b, a),
    decreases a.len(),
{
    if a.len() > 0 && b.len() > 0 {
        lemma_lex_connected(a.drop_first(), b.drop_first());
    }
}

/// The byte-wise lexicographic order is a total order.
pub proof fn lemma_lex_total()
    ensures
        total_ordering(lex_order()),
{
    let r = lex_order();
    assert forall|x: Seq<u8>| #[trigger] r(x, x) by {
        lemma_lex_reflexive(x);
    }
    assert forall|x: Seq<u8>, y: Seq<u8>| #[trigger] r(x, y) && #[trigger] r(y, x) implies x == y by {
        lemma_lex_antisymmetric(x, y);
    }
    assert forall|x: Seq<u8>, y: Seq<u8>, z: Seq<u8>| #[trigger] r(x, y) && #[trigger] r(y, z) implies r(
        x,
        z,
    ) by {
        lemma_lex_transitive(x, y, z);
    }
    assert forall|x: Seq<u8>, y: Seq<u8>| #[trigger] r(x, y) || #[trigger] r(y, x) by {
        lemma_lex_connected(x, y);
    }
}

proof fn lemma_filter_count(s: Seq<Seq<u8>>, x: Seq<u8>)
    ensures
        s.filter(signed_pred()).to_multiset().count(x) == if is_signed_field(x) {
            s.to_multiset().count(x)
        } else {
            0
        },
    decreases s.len(),
{
    reveal(Seq::filter);
    broadcast use vstd::multiset::group_multiset_axioms;

    if s.len() == 0 {
        assert(s.filter(signed_pred()) =~= Seq::<Seq<u8>>::empty());
    } else {
        lemma_filter_count(s.drop_last(), x);
        assert(s =~= s.drop_last().push(s.last()));
    }
}

/// The data check string does not depend on the order of the fields: init
/// data whose fields are the same, in any order, is signed the same way.
pub proof fn lemma_data_check_string_order_free(a: Seq<Seq<u8>>, b: Seq<Seq<u8>>)
    requires
        a.to_multiset() == b.to_multiset(),
    ensures
        spec_data_check_string(a) == spec_data_check_string(b),
{
    let fa = a.filter(signed_pred());
    let fb = b.filter(signed_pred());
    assert forall|x: Seq<u8>| fa.to_multiset().count(x) == fb.to_multiset().count(x) by {
        lemma_filter_count(a, x);
        lemma_filter_count(b, x);
    }
    assert(fa.to_multiset() =~= fb.to_multiset());
    lemma_lex_total();
    fa.lemma_sort_by_ensures(lex_order());
    fb.lemma_sort_by_ensures(lex_order());
    vstd::seq_lib::lemma_sorted_unique(fa.sort_by(lex_order()), fb.sort_by(lex_order()), lex_order());
}

/// The signature does not cover itself: a field that starts with "hash",
/// added anywhere, leaves the data check string as it is.
pub proof fn lemma_hash_field_unsigned(fields: Seq<Seq<u8>>, i: int, hash: Seq<u8>)
    requires
        0 <= i <= fields.len(),
        hash.len() >= 4,
        hash.take(4) == hash_key(),
    ensures
        spec_data_check_string(fields.insert(i, hash)) == spec_data_check_string(fields),
{
    let with = fields.insert(i, hash);
    let fa = with.filter(signed_pred());
    let fb = fields.filter(signed_pred());
    assert forall|x: Seq<u8>| fa.to_multiset().count(x) == fb.to_multiset().count(x) by {
        lemma_filter_count(with, x);
        lemma_filter_count(fields, x);
        if x == hash {
            assert(!is_signed_field(x));
        }
    }
    assert(fa.to_multiset() =~= fb.to_multiset());
    lemma_lex_total();
    fa.lemma_sort_by_ensures(lex_order());
    fb.lemma_sort_by_ensures(lex_order());
    vstd::seq_lib::lemma_sorted_unique(fa.sort_by(lex_order()), fb.sort_by(lex_order()), lex_order());
}

/// Every field takes part in the data check string except those that start
/// with "hash": a `signature` field, or any other, is signed.
pub proof fn lemma_only_hash_fields_unsigned(f: Seq<u8>)
    ensures
        is_signed_field(f) <==> !(f.len() >= 4 && f[0] == 104u8 && f[1] == 97u8 && f[2] == 115u8
            && f[3] == 104u8),
{
    if f.len() >= 4 {
        if f.take(4) == hash_key() {
            assert(f.take(4)[0] == f[0] && f.take(4)[1] == f[1] && f.take(4)[2] == f[2]
                && f.take(4)[3] == f[3]);
        }
        if f[0] == 104u8 && f[1] == 97u8 && f[2] == 115u8 && f[3] == 104u8 {
            assert(f.take(4) =~= hash_key());
        }
    }
}

/// The data check string is, one per line and in byte-wise order, every
/// field that does not start with "hash", as often as it occurs among the
/// fields, and nothing else.
pub proof fn lemma_data_check_string_lines(fields: Seq<Seq<u8>>)
    ensures
        exists|lines: Seq<Seq<u8>>|
            {
                &&& #[trigger] sorted_by(lines, lex_order())
                &&& forall|f: Seq<u8>|
                    #[trigger] lines.to_multiset().count(f) == if f.len() >= 4 && f[0] == 104u8
                        && f[1] == 97u8 && f[2] == 115u8 && f[3] == 104u8 {
                        0
                    } else {
                        fields.to_multiset().count(f)
                    }
                &&& spec_data_check_string(fields) == spec_join(lines, NEWLINE)
            },
{
    let kept = fields.filter(signed_pred());
    let lines = kept.sort_by(lex_order());
    lemma_lex_total();
    kept.lemma_sort_by_ensures(lex_order());
    assert forall|f: Seq<u8>| #[trigger] lines.to_multiset().count(f) == if f.len() >= 4 && f[0]
        == 104u8 && f[1] == 97u8 && f[2] == 115u8 && f[3] == 104u8 {
        0
    } else {
        fields.to_multiset().count(f)
    } by {
        lemma_filter_count(fields, f);
        lemma_only_hash_fields_unsigned(f);
    }
    assert(sorted_by(lines, lex_order()));
}

/// Cuts `s` at every `sep`.
pub fn split_bytes(s: &Vec<u8>, sep: u8) -> (pieces: Vec<Vec<u8>>)
    ensures
        seqs_of(pieces@) == spec_split(s@, sep),
{
    let mut done: Vec<Vec<u8>> = Vec::new();
    let mut cur: Vec<u8> = Vec::new();
    let mut i: usize = 0;
    assert(s@.take(0) =~= Seq::<u8>::empty());
    assert(seqs_of(done@).push(cur@) =~= spec_split(s@.take(0), sep));
    while i < s.len()
        invariant
            i <= s.len(),
            seqs_of(done@).push(cur@) == spec_split(s@.take(i as int), sep),
        decreases s.len() - i,
    {
        let b = s[i];
        let ghost prefix = s@.take(i as int);
        assert(s@.take(i + 1).drop_last() =~= prefix);
        assert(s@.take(i + 1).last() == b);
        proof {
            lemma_split_nonempty(prefix, sep);
        }
        if b == sep {
            let finished = cur;
            done.push(finished);
            cur = Vec::new();
            assert(seqs_of(done@).push(cur@) =~= spec_split(prefix, sep).push(Seq::<u8>::empty()));
        } else {
            let ghost before = seqs_of(done@).push(cur@);
            cur.push(b);
            assert(seqs_of(done@).push(cur@) =~= before.update(
                before.len() - 1,
                before.last().push(b),
            ));
        }
        i = i + 1;
    }
    assert(s@.take(s.len() as int) =~= s@);
    done.push(cur);
    assert(seqs_of(done@) =~= spec_split(s@, sep));
    done
}

/// The position of the first `b` in `s`, or the length of `s`.
pub fn find_byte(s: &[u8], b: u8) -> (r: usize)
    ensures
        r == spec_find(s@, b),
{
    let mut i: usize = 0;
    while i < s.len()
        invariant
            i <= s.len(),
            forall|j: int| 0 <= j < i ==> s@[j] != b,
        decreases s.len() - i,
    {
        if s[i] == b {
            assert(is_first(s@, b, i as int));
            let ghost k = choose|k: int| is_first(s@, b, k);
            assert(k == i) by {
                if k < i {
                    assert(s@[k] != b);
                } else if k > i {
                    assert(s@[i as int] != b);
                }
            }
            return i;
        }
        i = i + 1;
    }
    assert(!exists|k: int| is_first(s@, b, k));
    i
}

/// Whether two byte slices hold the same bytes.
pub fn bytes_eq(a: &[u8], b: &[u8]) -> (r: bool)
    ensures
        r == (a@ == b@),
{
    if a.len() != b.len() {
        return false;
    }
    let mut i: usize = 0;
    while i < a.len()
        invariant
            i <= a.len(),
            a@.len() == b@.len(),
            forall|j: int| 0 <= j < i ==> a@[j] == b@[j],
        decreases a.len() - i,
    {
        if a[i] != b[i] {
            return false;
        }
        i = i + 1;
    }
    assert(a@ =~= b@);
    true
}

/// The bytes of `s` from `start` to `end`, copied.
fn copy_range(s: &[u8], start: usize, end: usize) -> (r: Vec<u8>)
    requires
        start <= end <= s.len(),
    ensures
        r@ == s@.subrange(start as int, end as int),
{
    let mut r: Vec<u8> = Vec::new();
    let mut i = start;
    while i < end
        invariant
            start <= i <= end <= s.len(),
            r@ == s@.subrange(start as int, i as int),
        decreases end - i,
    {
        r.push(s[i]);
        assert(s@.subrange(start as int, i + 1) =~= s@.subrange(start as int, i as int).push(s@[i as int]));
        i = i + 1;
    }
    r
}

/// The value of field `key` among `fields`, copied.
pub fn field_value(fields: &Vec<Vec<u8>>, key: &[u8]) -> (r: Option<Vec<u8>>)
    ensures
        match r {
            Some(v) => spec_field(seqs_of(fields@), key@) == Some(v@),
            None => spec_field(seqs_of(fields@), key@) is None,
        },
{
    let ghost all = seqs_of(fields@);
    let mut j: usize = fields.len();
    assert(all.take(j as int) =~= all);
    while j > 0
        invariant
            j <= fields.len(),
            all == seqs_of(fields@),
            spec_field(all, key@) == spec_field(all.take(j as int), key@),
        decreases j,
    {
        let f = &fields[j - 1];
        let ghost prefix = all.take(j as int);
        assert(prefix.last() == f@);
        assert(prefix.drop_last() =~= all.take(j - 1));
        let eq = find_byte(f.as_slice(), EQUALS);
        if eq < f.len() {
            let k = copy_range(f.as_slice(), 0, eq);
            if bytes_eq(k.as_slice(), key) {
                assert(k@ =~= f@.take(eq as int));
                let v = copy_range(f.as_slice(), eq + 1, f.len());
                assert(v@ =~= f@.skip(eq + 1));
                return Some(v);
            }
            assert(k@ =~= f@.take(eq as int));
        }
        j = j - 1;
    }
    assert(all.take(0) =~= Seq::<Seq<u8>>::empty());
    None
}

/// Whether a field takes part in the data check string.
fn signed_field(f: &[u8]) -> (r: bool)
    ensures
        r == is_signed_field(f@),
{
    if f.len() >= 4 && f[0] == 104 && f[1] == 97 && f[2] == 115 && f[3] == 104 {
        assert(f@.take(4) =~= hash_key());
        false
    } else {
        if f.len() >= 4 {
            assert(f@.take(4)[0] == f@[0]);
            assert(f@.take(4)[1] == f@[1]);
            assert(f@.take(4)[2] == f@[2]);
            assert(f@.take(4)[3] == f@[3]);
        }
        true
    }
}

/// Whether `a` comes before `b` or equals it, byte-wise.
pub fn lex_le_bytes(a: &[u8], b: &[u8]) -> (r: bool)
    ensures
        r == lex_le(a@, b@),
{
    let mut i: usize = 0;
    assert(a@.skip(0) =~= a@);
    assert(b@.skip(0) =~= b@);
    while i < a.len() && i < b.len()
        invariant
            i <= a.len(),
            i <= b.len(),
            lex_le(a@, b@) == lex_le(a@.skip(i as int), b@.skip(i as int)),
        decreases a.len() - i,
    {
        assert(a@.skip(i as int)[0] == a@[i as int]);
        assert(b@.skip(i as int)[0] == b@[i as int]);
        if a[i] < b[i] {
            return true;
        }
        if a[i] > b[i] {
            return false;
        }
        assert(a@.skip(i as int).drop_first() =~= a@.skip(i + 1));
        assert(b@.skip(i as int).drop_first() =~= b@.skip(i + 1));
        i = i + 1;
    }
    if i == a.len() {
        assert(a@.skip(i as int).len() == 0);
        true
    } else {
        assert(b@.skip(i as int).len() == 0);
        assert(a@.skip(i as int).len() > 0);
        false
    }
}

/// A copy of `v`.
fn copy_bytes(v: &Vec<u8>) -> (r: Vec<u8>)
    ensures
        r@ == v@,
{
    let r = copy_range(v.as_slice(), 0, v.len());
    assert(v@.subrange(0, v@.len() as int) =~= v@);
    r
}

/// The fields that take part in the data check string, sorted.
pub fn sorted_signed_fields(fields: &Vec<Vec<u8>>) -> (r: Vec<Vec<u8>>)
    ensures
        seqs_of(r@) == seqs_of(fields@).filter(signed_pred()).sort_by(
            lex_order(),
        ),
{
    let ghost all = seqs_of(fields@);
    let mut rest: Vec<Vec<u8>> = Vec::new();
    let mut i: usize = 0;
    proof {
        reveal(Seq::filter);
    }
    assert(all.take(0).filter(signed_pred()) =~= Seq::<Seq<u8>>::empty());
    while i < fields.len()
        invariant
            i <= fields.len(),
            all == seqs_of(fields@),
            seqs_of(rest@) == all.take(i as int).filter(signed_pred()),
        decreases fields.len() - i,
    {
        let f = &fields[i];
        assert(all.take(i + 1).drop_last() =~= all.take(i as int));
        assert(all.take(i + 1).last() == f@);
        let ghost before = seqs_of(rest@);
        proof {
            reveal(Seq::filter);
        }
        if signed_field(f.as_slice()) {
            let c = copy_bytes(f);
            rest.push(c);
            assert(signed_pred()(f@));
            assert(all.take(i + 1).filter(signed_pred()) == all.take(i as int).filter(signed_pred()).push(f@));
            assert(seqs_of(rest@) =~= before.push(f@));
        } else {
            assert(!signed_pred()(f@));
            assert(all.take(i + 1).filter(signed_pred()) == all.take(i as int).filter(signed_pred()));
        }
        i = i + 1;
    }
    assert(all.take(fields.len() as int) =~= all);
    let ghost filtered = seqs_of(rest@);
    // selection sort: repeatedly move the smallest remaining field to `out`
    let mut out: Vec<Vec<u8>> = Vec::new();
    proof {
        lemma_lex_total();
        assert(seqs_of(out@).to_multiset() =~= vstd::multiset::Multiset::empty());
        assert(seqs_of(out@).to_multiset().add(seqs_of(rest@).to_multiset()) =~= filtered.to_multiset());
    }
    while rest.len() > 0
        invariant
            total_ordering(lex_order()),
            sorted_by(seqs_of(out@), lex_order()),
            seqs_of(out@).to_multiset().add(seqs_of(rest@).to_multiset()) == filtered.to_multiset(),
            forall|a: int, b: int|
                0 <= a < out@.len() && 0 <= b < rest@.len() ==> lex_le(
                    #[trigger] out@[a]@,
                    #[trigger] rest@[b]@,
                ),
        decreases rest.len(),
    {
        let mut m: usize = 0;
        let mut j: usize = 1;
        proof {
            lemma_lex_reflexive(rest@[0]@);
        }
        while j < rest.len()
            invariant
                1 <= j <= rest.len(),
                m < rest.len(),
                total_ordering(lex_order()),
                forall|k: int| 0 <= k < j ==> lex_le(rest@[m as int]@, #[trigger] rest@[k]@),
            decreases rest.len() - j,
        {
            if !lex_le_bytes(rest[m].as_slice(), rest[j].as_slice()) {
                proof {
                    lemma_lex_connected(rest@[m as int]@, rest@[j as int]@);
                    assert forall|k: int| 0 <= k < j + 1 implies lex_le(
                        rest@[j as int]@,
                        #[trigger] rest@[k]@,
                    ) by {
                        if k < j {
                            lemma_lex_transitive(rest@[j as int]@, rest@[m as int]@, rest@[k]@);
                        } else {
                            lemma_lex_reflexive(rest@[k]@);
                        }
                    }
                }
                m = j;
            }
            j = j + 1;
        }
        let ghost old_out = seqs_of(out@);
        let ghost old_rest = seqs_of(rest@);
        let smallest = rest.remove(m);
        proof {
            assert(seqs_of(rest@) =~= old_rest.remove(m as int));
            assert(old_rest[m as int] == smallest@);
        }
        out.push(smallest);
        proof {
            assert(seqs_of(out@) =~= old_out.push(smallest@));
            assert(old_out.push(smallest@).to_multiset() == old_out.to_multiset().insert(smallest@));
            assert(old_rest.remove(m as int).to_multiset() == old_rest.to_multiset().remove(smallest@));
            assert(old_rest.to_multiset().contains(smallest@)) by {
                assert(old_rest.contains(smallest@));
            }
            assert(seqs_of(out@).to_multiset().add(seqs_of(rest@).to_multiset()) =~= filtered.to_multiset());
            assert forall|a: int, b: int|
                0 <= a < seqs_of(out@).len() && 0 <= b < seqs_of(out@).len() && a < b implies (#[trigger] lex_order()(
                seqs_of(out@)[a], seqs_of(out@)[b])) by {
                if b == seqs_of(out@).len() - 1 {
                    assert(lex_le(out@[a]@, old_rest[m as int]));
                }
            }
        }
    }
    proof {
        assert(seqs_of(rest@) =~= Seq::<Seq<u8>>::empty());
        assert(seqs_of(out@).to_multiset() =~= filtered.to_multiset());
        filtered.lemma_sort_by_ensures(lex_order());
        vstd::seq_lib::lemma_sorted_unique(seqs_of(out@), filtered.sort_by(lex_order()), lex_order());
    }
    out
}

/// `pieces` joined with `sep` between each two of them.
pub fn join_bytes(pieces: &Vec<Vec<u8>>, sep: u8) -> (r: Vec<u8>)
    ensures
        r@ == spec_join(seqs_of(pieces@), sep),
{
    let ghost all = seqs_of(pieces@);
    let mut out: Vec<u8> = Vec::new();
    let mut i: usize = 0;
    assert(all.take(0) =~= Seq::<Seq<u8>>::empty());
    while i < pieces.len()
        invariant
            i <= pieces.len(),
            all == seqs_of(pieces@),
            out@ == spec_join(all.take(i as int), sep),
        decreases pieces.len() - i,
    {
        let ghost before = out@;
        assert(all.take(i + 1).drop_last() =~= all.take(i as int));
        assert(all.take(i + 1).last() == pieces@[i as int]@);
        if i > 0 {
            out.push(sep);
        }
        let p = &pieces[i];
        let mut k: usize = 0;
        let ghost mid = out@;
        while k < p.len()
            invariant
                k <= p.len(),
                out@ == mid + p@.take(k as int),
            decreases p.len() - k,
        {
            out.push(p[k]);
            assert(p@.take(k + 1) =~= p@.take(k as int).push(p@[k as int]));
            k = k + 1;
        }
        assert(p@.take(p.len() as int) =~= p@);
        if i == 0 {
            assert(all.take(1) =~= seq![p@]);
            assert(out@ =~= spec_join(all.take(1), sep));
        } else {
            assert(out@ =~= before + seq![sep] + p@);
        }
        i = i + 1;
    }
    assert(all.take(pieces.len() as int) =~= all);
    out
}

/// The data check string of init data cut into `fields`.
pub fn data_check_string(fields: &Vec<Vec<u8>>) -> (r: Vec<u8>)
    ensures
        r@ == spec_data_check_string(seqs_of(fields@)),
{
    let sorted = sorted_signed_fields(fields);
    join_bytes(&sorted, NEWLINE)
}

} // verus!
