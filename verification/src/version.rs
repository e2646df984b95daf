use vstd::prelude::*;

use crate::text::chars_of;

verus! {

/// `a` comes strictly before `b` in lexicographic order: at the first place
/// where they differ `a` is smaller, or `a` is a proper prefix of `b`.
pub open spec fn lex_less(a: Seq<int>, b: Seq<int>) -> bool
    decreases a.len(),
{
    if a.len() == 0 {
        b.len() > 0
    } else if b.len() == 0 {
        false
    } else if a[0] < b[0] {
        true
    } else if a[0] > b[0] {
        false
    } else {
        lex_less(a.drop_first(), b.drop_first())
    }
}

proof fn lemma_lex_irreflexive(a: Seq<int>)
    ensures
        !lex_less(a, a),
    decreases a.len(),
{
    if a.len() > 0 {
        lemma_lex_irreflexive(a.drop_first());
    }
}

proof fn lemma_lex_asymmetric(a: Seq<int>, b: Seq<int>)
    ensures
        lex_less(a, b) ==> !lex_less(b, a),
    decreases a.len(),
{
    if a.len() > 0 && b.len() > 0 {
        lemma_lex_asymmetric(a.drop_first(), b.drop_first());
    }
}

proof fn lemma_lex_transitive(a: Seq<int>, b: Seq<int>, c: Seq<int>)
    ensures
        lex_less(a, b) && lex_less(b, c) ==> lex_less(a, c),
    decreases a.len(),
{
    if a.len() > 0 && b.len() > 0 && c.len() > 0 {
        lemma_lex_transitive(a.drop_first(), b.drop_first(), c.drop_first());
    }
}

proof fn lemma_lex_total(a: Seq<int>, b: Seq<int>)
    ensures
        a != b ==> lex_less(a, b) || lex_less(b, a),
    decreases a.len(),
{
    if a.len() == 0 && b.len() == 0 {
        assert(a =~= b);
    }
    if a.len() > 0 && b.len() > 0 {
        lemma_lex_total(a.drop_first(), b.drop_first());
        if a[0] == b[0] && a.drop_first() == b.drop_first() {
            assert(a =~= seq![a[0]] + a.drop_first());
            assert(b =~= seq![b[0]] + b.drop_first());
        }
    }
}

/// Lexicographic order is a strict total order.
pub proof fn lemma_lex_order(a: Seq<int>, b: Seq<int>, c: Seq<int>)
    ensures
        !lex_less(a, a),
        lex_less(a, b) ==> !lex_less(b, a),
        lex_less(a, b) && lex_less(b, c) ==> lex_less(a, c),
        a != b ==> lex_less(a, b) || lex_less(b, a),
{
    lemma_lex_irreflexive(a);
    lemma_lex_asymmetric(a, b);
    lemma_lex_transitive(a, b, c);
    lemma_lex_total(a, b);
}

/// The values of a sequence of words, as integers.
pub open spec fn ints(v: Seq<u64>) -> Seq<int> {
    v.map_values(|x: u64| x as int)
}

/// Compares two keys lexicographically.
pub fn key_less(a: &Vec<u64>, b: &Vec<u64>) -> (r: bool)
    ensures
        r == lex_less(ints(a@), ints(b@)),
{
    let mut i: usize = 0;
    assert(ints(a@).skip(0) == ints(a@));
    assert(ints(b@).skip(0) == ints(b@));
    while i < a.len() && i < b.len()
        invariant
            i <= a@.len(),
            i <= b@.len(),
            lex_less(ints(a@), ints(b@)) == lex_less(ints(a@).skip(i as int), ints(b@).skip(i as int)),
        decreases a@.len() - i,
    {
        let ghost sa = ints(a@).skip(i as int);
        let ghost sb = ints(b@).skip(i as int);
        assert(sa[0] == a@[i as int] as int);
        assert(sb[0] == b@[i as int] as int);
        if a[i] < b[i] {
            return true;
        }
        if a[i] > b[i] {
            return false;
        }
        assert(sa.drop_first() == ints(a@).skip(i + 1));
        assert(sb.drop_first() == ints(b@).skip(i + 1));
        i = i + 1;
    }
    i < b.len()
}

/// Where `c` first occurs in `s`; `s.len()` when it does not.
pub open spec fn find_char(s: Seq<char>, c: char) -> nat
    decreases s.len(),
{
    if s.len() == 0 {
        0
    } else if s[0] == c {
        0
    } else {
        1 + find_char(s.drop_first(), c)
    }
}

proof fn lemma_find_char(s: Seq<char>, c: char)
    ensures
        find_char(s, c) <= s.len(),
        find_char(s, c) < s.len() ==> s[find_char(s, c) as int] == c,
        forall|i: int| 0 <= i < find_char(s, c) ==> s[i] != c,
    decreases s.len(),
{
    if s.len() > 0 && s[0] != c {
        lemma_find_char(s.drop_first(), c);
        assert forall|i: int| 0 <= i < find_char(s, c) implies s[i] != c by {
            if i > 0 {
                assert(s[i] == s.drop_first()[i - 1]);
            }
        }
    }
}

/// The pieces of `s` between dots, in order (one piece when there is no dot).
pub open spec fn split_at_dots(s: Seq<char>) -> Seq<Seq<char>>
    decreases s.len(),
{
    let i = find_char(s, '.');
    if i >= s.len() {
        seq![s]
    } else {
        seq![s.take(i as int)] + split_at_dots(s.skip(i + 1 as int))
    }
}

/// A decimal digit.
pub open spec fn is_digit(c: char) -> bool {
    '0' <= c && c <= '9'
}

/// A non-empty run of decimal digits.
pub open spec fn is_numeric(p: Seq<char>) -> bool {
    p.len() > 0 && forall|i: int| 0 <= i < p.len() ==> is_digit(#[trigger] p[i])
}

/// `p` without its leading zeros.
pub open spec fn strip_zeros(p: Seq<char>) -> Seq<char>
    decreases p.len(),
{
    if p.len() > 0 && p[0] == '0' {
        strip_zeros(p.drop_first())
    } else {
        p
    }
}

/// The key of one dot-separated identifier of a version. A number is keyed
/// by its count of significant digits, then the digits, so that keys order
/// numbers by value; any other identifier by its characters, closed by a 0,
/// so that keys order such identifiers alphabetically. Numbers come before
/// other identifiers.
pub open spec fn ident_key(p: Seq<char>) -> Seq<int> {
    if is_numeric(p) {
        let d = strip_zeros(p);
        seq![1, d.len() as int] + d.map_values(|c: char| c as int - '0' as int)
    } else {
        seq![2] + p.map_values(|c: char| (c as u32) as int + 1) + seq![0]
    }
}

/// The keys of a list of identifiers, one after the other.
pub open spec fn keys_of(parts: Seq<Seq<char>>) -> Seq<int>
    decreases parts.len(),
{
    if parts.len() == 0 {
        Seq::empty()
    } else {
        ident_key(parts[0]) + keys_of(parts.drop_first())
    }
}

/// A version without a leading `v` (as Go writes versions).
pub open spec fn strip_v(s: Seq<char>) -> Seq<char> {
    if s.len() > 0 && s[0] == 'v' {
        s.drop_first()
    } else {
        s
    }
}

/// The release-order key of a version string, compared lexicographically.
/// Build metadata (from the first `+`) is ignored. The release part (up to
/// the first `-`) is compared identifier by identifier, numbers by value; a
/// shorter release part that is a prefix of a longer one comes first. Equal
/// release parts: a pre-release (text after the first `-`) comes before the
/// release itself, and pre-releases compare identifier by identifier, numbers
/// before other identifiers, fewer identifiers first. This is the precedence
/// of Semantic Versioning.
pub open spec fn version_key(s: Seq<char>) -> Seq<int> {
    let body = strip_v(s);
    let x = body.take(find_char(body, '+') as int);
    let h = find_char(x, '-');
    keys_of(split_at_dots(x.take(h as int))) + seq![0int] + (if h >= x.len() {
        seq![1int]
    } else {
        seq![0int] + keys_of(split_at_dots(x.skip(h + 1 as int)))
    })
}

/// Version `a` was released after version `b`, in release order.
pub open spec fn newer(a: Seq<char>, b: Seq<char>) -> bool {
    lex_less(version_key(b), version_key(a))
}

fn find_from(s: &Vec<char>, lo: usize, hi: usize, c: char) -> (r: usize)
    requires
        lo <= hi <= s@.len(),
    ensures
        lo <= r <= hi,
        r - lo == find_char(s@.subrange(lo as int, hi as int), c),
{
    let mut i = lo;
    while i < hi && s[i] != c
        invariant
            lo <= i <= hi <= s@.len(),
            find_char(s@.subrange(lo as int, hi as int), c) == (i - lo) + find_char(
                s@.subrange(i as int, hi as int),
                c,
            ),
        decreases hi - i,
    {
        assert(s@.subrange(i as int, hi as int).drop_first() == s@.subrange(i + 1, hi as int));
        i = i + 1;
    }
    i
}

proof fn lemma_ints_push(v: Seq<u64>, x: u64)
    ensures
        ints(v.push(x)) == ints(v).push(x as int),
{
    assert(ints(v.push(x)) =~= ints(v).push(x as int));
}

fn push_ident_key(s: &Vec<char>, lo: usize, hi: usize, key: &mut Vec<u64>)
    requires
        lo <= hi <= s@.len(),
    ensures
        ints(final(key)@) == ints(old(key)@) + ident_key(s@.subrange(lo as int, hi as int)),
{
    let ghost p = s@.subrange(lo as int, hi as int);
    let ghost base = ints(key@);
    let mut numeric = lo < hi;
    let mut i = lo;
    while i < hi
        invariant
            lo <= i <= hi <= s@.len(),
            p == s@.subrange(lo as int, hi as int),
            numeric == (lo < hi && forall|j: int| lo <= j < i ==> is_digit(#[trigger] s@[j])),
        decreases hi - i,
    {
        if !('0' <= s[i] && s[i] <= '9') {
            numeric = false;
        }
        i = i + 1;
    }
    assert(numeric == is_numeric(p)) by {
        if numeric {
            assert forall|j: int| 0 <= j < p.len() implies is_digit(#[trigger] p[j]) by {
                assert(p[j] == s@[lo + j]);
            }
        }
        if is_numeric(p) {
            assert forall|j: int| lo <= j < hi implies is_digit(#[trigger] s@[j]) by {
                assert(p[j - lo] == s@[j]);
            }
        }
    }
    if numeric {
        let mut z = lo;
        while z < hi && s[z] == '0'
            invariant
                lo <= z <= hi <= s@.len(),
                strip_zeros(p) == strip_zeros(s@.subrange(z as int, hi as int)),
                p == s@.subrange(lo as int, hi as int),
            decreases hi - z,
        {
            assert(s@.subrange(z as int, hi as int).drop_first() == s@.subrange(z + 1, hi as int));
            z = z + 1;
        }
        let ghost d = s@.subrange(z as int, hi as int);
        assert(strip_zeros(p) == d);
        key.push(1);
        proof { lemma_ints_push(old(key)@, 1); }
        key.push((hi - z) as u64);
        proof { lemma_ints_push(old(key)@.push(1), (hi - z) as u64); }
        let ghost head = ints(key@);
        assert(head == base + seq![1int, d.len() as int]);
        let mut k = z;
        while k < hi
            invariant
                z <= k <= hi <= s@.len(),
                d == s@.subrange(z as int, hi as int),
                forall|j: int| lo <= j < hi ==> is_digit(#[trigger] s@[j]),
                lo <= z,
                ints(key@) == head + s@.subrange(z as int, k as int).map_values(
                    |c: char| c as int - '0' as int,
                ),
            decreases hi - k,
        {
            let ghost before = key@;
            let c = s[k];
            assert(is_digit(s@[k as int]));
            let dv: u64 = (c as u32 - 48) as u64;
            key.push(dv);
            proof {
                lemma_ints_push(before, dv);
                assert(s@.subrange(z as int, k + 1).map_values(|c: char| c as int - '0' as int)
                    =~= s@.subrange(z as int, k as int).map_values(|c: char| c as int - '0' as int).push(
                    c as int - '0' as int));
            }
            k = k + 1;
        }
        assert(ints(key@) =~= base + ident_key(p));
    } else {
        key.push(2);
        proof { lemma_ints_push(old(key)@, 2); }
        let ghost head = ints(key@);
        let mut k = lo;
        while k < hi
            invariant
                lo <= k <= hi <= s@.len(),
                ints(key@) == head + s@.subrange(lo as int, k as int).map_values(|c: char| (c as u32) as int + 1),
            decreases hi - k,
        {
            let ghost before = key@;
            let c = s[k];
            let cv: u64 = (c as u32) as u64 + 1;
            key.push(cv);
            proof {
                lemma_ints_push(before, cv);
                assert(s@.subrange(lo as int, k + 1).map_values(|c: char| (c as u32) as int + 1)
                    =~= s@.subrange(lo as int, k as int).map_values(|c: char| (c as u32) as int + 1).push(
                    (c as u32) as int + 1));
            }
            k = k + 1;
        }
        let ghost before = key@;
        key.push(0);
        proof { lemma_ints_push(before, 0); }
        assert(ints(key@) =~= base + ident_key(p));
    }
}

proof fn lemma_keys_of_cons(p: Seq<char>, rest: Seq<Seq<char>>)
    ensures
        keys_of(seq![p] + rest) == ident_key(p) + keys_of(rest),
{
    let ps = seq![p] + rest;
    assert(ps[0] == p);
    assert(ps.drop_first() =~= rest);
}

fn push_parts_keys(s: &Vec<char>, lo: usize, hi: usize, key: &mut Vec<u64>)
    requires
        lo <= hi <= s@.len(),
    ensures
        ints(final(key)@) == ints(old(key)@) + keys_of(split_at_dots(s@.subrange(lo as int, hi as int))),
    decreases hi - lo,
{
    let ghost sub = s@.subrange(lo as int, hi as int);
    let i = find_from(s, lo, hi, '.');
    proof {
        lemma_find_char(sub, '.');
    }
    let ghost before = ints(key@);
    push_ident_key(s, lo, i, key);
    if i < hi {
        let ghost mid = ints(key@);
        push_parts_keys(s, i + 1, hi, key);
        proof {
            let f = (i - lo) as int;
            assert(sub.take(f) == s@.subrange(lo as int, i as int));
            assert(sub.skip(f + 1) == s@.subrange(i + 1, hi as int));
            lemma_keys_of_cons(sub.take(f), split_at_dots(sub.skip(f + 1)));
            assert(ints(key@) =~= before + keys_of(split_at_dots(sub)));
        }
    } else {
        proof {
            assert(sub == s@.subrange(lo as int, i as int));
            lemma_keys_of_cons(sub, Seq::empty());
            assert(seq![sub] + Seq::<Seq<char>>::empty() =~= seq![sub]);
            assert(ident_key(sub) + Seq::<int>::empty() =~= ident_key(sub));
        }
    }
}

/// The release-order key of a version, as words.
pub fn version_key_of(version: &str) -> (key: Vec<u64>)
    ensures
        ints(key@) == version_key(version@),
{
    let s = chars_of(version);
    let n = s.len();
    let lo: usize = if n > 0 && s[0] == 'v' {
        1
    } else {
        0
    };
    let ghost body = strip_v(s@);
    assert(body == s@.subrange(lo as int, n as int));
    let p = find_from(&s, lo, n, '+');
    proof {
        lemma_find_char(body, '+');
    }
    let ghost x = body.take(find_char(body, '+') as int);
    assert(x == s@.subrange(lo as int, p as int));
    let h = find_from(&s, lo, p, '-');
    proof {
        lemma_find_char(x, '-');
    }
    let mut key: Vec<u64> = Vec::new();
    assert(ints(key@) =~= Seq::<int>::empty());
    push_parts_keys(&s, lo, h, &mut key);
    assert(x.take(find_char(x, '-') as int) == s@.subrange(lo as int, h as int));
    let ghost k1 = key@;
    key.push(0);
    proof { lemma_ints_push(k1, 0); }
    if h >= p {
        let ghost k2 = key@;
        key.push(1);
        proof { lemma_ints_push(k2, 1); }
        assert(ints(key@) =~= version_key(version@));
    } else {
        let ghost k2 = key@;
        key.push(0);
        proof { lemma_ints_push(k2, 0); }
        let ghost k3 = ints(key@);
        push_parts_keys(&s, h + 1, p, &mut key);
        assert(x.skip(find_char(x, '-') + 1 as int) == s@.subrange(h + 1, p as int));
        assert(ints(key@) =~= version_key(version@));
    }
    key
}

} // verus!
