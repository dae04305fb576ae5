//! Small verified helpers over strings and character vectors: conversions
//! between `String` and `Vec<char>`, comparisons, searching, splitting,
//! joining, order-preserving deduplication, and decimal rendering.

use vstd::prelude::*;

verus! {

/// First index `i >= from` with `s[i] == c`, if any.
pub open spec fn find_from(s: Seq<char>, from: int, c: char) -> Option<int>
    decreases s.len() - from,
{
    if from < 0 || from >= s.len() {
        None
    } else if s[from] == c {
        Some(from)
    } else {
        find_from(s, from + 1, c)
    }
}

pub proof fn lemma_find_from_props(s: Seq<char>, from: int, c: char)
    requires
        0 <= from <= s.len(),
    ensures
        match find_from(s, from, c) {
            Some(i) => from <= i < s.len() && s[i] == c && (forall|j: int|
                from <= j < i ==> s[j] != c),
            None => forall|j: int| from <= j < s.len() ==> s[j] != c,
        },
    decreases s.len() - from,
{
    if from < s.len() && s[from] != c {
        lemma_find_from_props(s, from + 1, c);
    }
}

/// The views of a sequence of character vectors.
pub open spec fn views(s: Seq<Vec<char>>) -> Seq<Seq<char>> {
    s.map_values(|p: Vec<char>| p@)
}

pub proof fn lemma_views_contains(s: Seq<Vec<char>>, x: Seq<char>)
    ensures
        views(s).contains(x) <==> exists|i: int| 0 <= i < s.len() && #[trigger] s[i]@ == x,
{
    if views(s).contains(x) {
        let i = choose|i: int| 0 <= i < views(s).len() && views(s)[i] == x;
        assert(s[i]@ == x);
    }
    if exists|i: int| 0 <= i < s.len() && #[trigger] s[i]@ == x {
        let i = choose|i: int| 0 <= i < s.len() && #[trigger] s[i]@ == x;
        assert(views(s)[i] == x);
    }
}

/// Convert a string slice into the vector of its characters.
pub fn str_to_chars(s: &str) -> (v: Vec<char>)
    ensures
        v@ == s@,
{
    let n = s.unicode_len();
    let mut v: Vec<char> = Vec::new();
    let mut i: usize = 0;
    while i < n
        invariant
            i <= n,
            n == s@.len(),
            v@ == s@.take(i as int),
        decreases n - i,
    {
        v.push(s.get_char(i));
        i = i + 1;
        proof {
            assert(v@ =~= s@.take(i as int));
        }
    }
    proof {
        assert(v@ =~= s@);
    }
    v
}

/// Append every character of `add` to `out`.
pub fn push_all(out: &mut Vec<char>, add: &Vec<char>)
    ensures
        final(out)@ == old(out)@ + add@,
{
    let mut i: usize = 0;
    let ghost base = out@;
    while i < add.len()
        invariant
            i <= add@.len(),
            out@ == base + add@.take(i as int),
        decreases add@.len() - i,
    {
        out.push(add[i]);
        i = i + 1;
        proof {
            assert(out@ =~= base + add@.take(i as int));
        }
    }
    proof {
        assert(add@.take(add@.len() as int) =~= add@);
    }
}

/// Append every character of the string slice `s` to `out`.
pub fn push_str_chars(out: &mut Vec<char>, s: &str)
    ensures
        final(out)@ == old(out)@ + s@,
{
    let cs = str_to_chars(s);
    push_all(out, &cs);
}

/// Relies on `String: FromIterator<char>`: collecting characters yields the
/// string with exactly those characters in order.
#[verifier::external_body]
pub(crate) fn chars_to_string(v: &Vec<char>) -> (s: String)
    ensures
        s@ == v@,
{
    v.iter().collect()
}

/// Character-wise equality of two string slices.
pub fn str_eq(a: &str, b: &str) -> (r: bool)
    ensures
        r == (a@ == b@),
{
    let an = a.unicode_len();
    let bn = b.unicode_len();
    if an != bn {
        proof {
            assert(a@ != b@);
        }
        return false;
    }
    let mut i: usize = 0;
    while i < an
        invariant
            i <= an,
            an == a@.len(),
            an == b@.len(),
            forall|j: int| 0 <= j < i ==> a@[j] == b@[j],
        decreases an - i,
    {
        if a.get_char(i) != b.get_char(i) {
            return false;
        }
        i = i + 1;
    }
    proof {
        assert(a@ =~= b@);
    }
    true
}

/// Character-wise equality of two character vectors.
pub fn chars_eq(a: &Vec<char>, b: &Vec<char>) -> (r: bool)
    ensures
        r == (a@ == b@),
{
    if a.len() != b.len() {
        return false;
    }
    let mut i: usize = 0;
    while i < a.len()
        invariant
            i <= a@.len(),
            a@.len() == b@.len(),
            forall|j: int| 0 <= j < i ==> a@[j] == b@[j],
        decreases a@.len() - i,
    {
        if a[i] != b[i] {
            return false;
        }
        i = i + 1;
    }
    proof {
        assert(a@ =~= b@);
    }
    true
}

/// Whether `s` starts with the single character `c`.
pub open spec fn starts_with_char(s: Seq<char>, c: char) -> bool {
    s.len() > 0 && s[0] == c
}

pub fn chars_start_with(v: &Vec<char>, c: char) -> (r: bool)
    ensures
        r == starts_with_char(v@, c),
{
    v.len() > 0 && v[0] == c
}

/// Whether `s` ends with the suffix `p`.
pub open spec fn has_suffix(s: Seq<char>, p: Seq<char>) -> bool {
    s.len() >= p.len() && s.skip(s.len() - p.len()) == p
}

pub fn chars_end_with(v: &Vec<char>, p: &Vec<char>) -> (r: bool)
    ensures
        r == has_suffix(v@, p@),
{
    if v.len() < p.len() {
        return false;
    }
    let n: usize = v.len();
    let off: usize = n - p.len();
    let mut i: usize = 0;
    while i < p.len()
        invariant
            i <= p@.len(),
            p@.len() <= v@.len(),
            n == v@.len(),
            off == v@.len() - p@.len(),
            forall|j: int| 0 <= j < i ==> v@[off + j] == p@[j],
        decreases p@.len() - i,
    {
        if v[off + i] != p[i] {
            proof {
                assert(v@.skip(off as int)[i as int] != p@[i as int]);
            }
            return false;
        }
        i = i + 1;
    }
    proof {
        assert(v@.skip(off as int) =~= p@);
    }
    true
}

pub fn find_char(v: &Vec<char>, from: usize, c: char) -> (r: Option<usize>)
    requires
        from <= v@.len(),
    ensures
        match r {
            Some(i) => Some(i as int) == find_from(v@, from as int, c),
            None => find_from(v@, from as int, c) is None,
        },
{
    let mut i: usize = from;
    while i < v.len()
        invariant
            from <= i <= v@.len(),
            find_from(v@, from as int, c) == find_from(v@, i as int, c),
        decreases v@.len() - i,
    {
        if v[i] == c {
            return Some(i);
        }
        i = i + 1;
    }
    None
}

/// The pieces of `s` cut at every occurrence of `sep`; a sequence with no
/// separator is one piece, and `n` separators give `n + 1` pieces.
pub open spec fn split_seq(s: Seq<char>, sep: char) -> Seq<Seq<char>>
    decreases s.len(),
{
    match find_from(s, 0, sep) {
        None => seq![s],
        Some(i) => if 0 <= i < s.len() {
            seq![s.take(i)] + split_seq(s.skip(i + 1), sep)
        } else {
            seq![s]
        },
    }
}

pub proof fn lemma_split_seq_len(s: Seq<char>, sep: char)
    ensures
        split_seq(s, sep).len() >= 1,
    decreases s.len(),
{
    match find_from(s, 0, sep) {
        None => {},
        Some(i) => {
            lemma_find_from_props(s, 0, sep);
            lemma_split_seq_len(s.skip(i + 1), sep);
        },
    }
}

/// Copy a character vector.
pub fn copy_chars(v: &Vec<char>) -> (r: Vec<char>)
    ensures
        r@ == v@,
{
    let mut r: Vec<char> = Vec::new();
    let mut i: usize = 0;
    while i < v.len()
        invariant
            i <= v@.len(),
            r@ == v@.take(i as int),
        decreases v@.len() - i,
    {
        r.push(v[i]);
        i = i + 1;
        proof {
            assert(r@ =~= v@.take(i as int));
        }
    }
    proof {
        assert(r@ =~= v@);
    }
    r
}

/// Copy the characters of `v` at indices `from .. to`.
pub fn sub_chars(v: &Vec<char>, from: usize, to: usize) -> (r: Vec<char>)
    requires
        from <= to <= v@.len(),
    ensures
        r@ == v@.subrange(from as int, to as int),
{
    let mut r: Vec<char> = Vec::new();
    let mut i: usize = from;
    while i < to
        invariant
            from <= i <= to <= v@.len(),
            r@ == v@.subrange(from as int, i as int),
        decreases to - i,
    {
        r.push(v[i]);
        i = i + 1;
        proof {
            assert(r@ =~= v@.subrange(from as int, i as int));
        }
    }
    r
}

pub fn split_chars(v: &Vec<char>, sep: char) -> (r: Vec<Vec<char>>)
    ensures
        views(r@) == split_seq(v@, sep),
        r@.len() >= 1,
{
    let mut out: Vec<Vec<char>> = Vec::new();
    let mut cur: Vec<char> = copy_chars(v);
    loop
        invariant
            split_seq(v@, sep) == views(out@) + split_seq(cur@, sep),
        decreases cur@.len(),
    {
        match find_char(&cur, 0, sep) {
            None => {
                out.push(cur);
                proof {
                    assert(views(out@) =~= views(out@.drop_last()).push(out@.last()@));
                    assert(views(out@) =~= split_seq(v@, sep));
                }
                return out;
            },
            Some(i) => {
                let n: usize = cur.len();
                proof {
                    lemma_find_from_props(cur@, 0, sep);
                    assert(i < n);
                }
                let head = sub_chars(&cur, 0, i);
                let tail = sub_chars(&cur, i + 1, n);
                proof {
                    assert(head@ =~= cur@.take(i as int));
                    assert(tail@ =~= cur@.skip(i as int + 1));
                    assert(split_seq(cur@, sep) == seq![cur@.take(i as int)] + split_seq(
                        cur@.skip(i as int + 1),
                        sep,
                    ));
                }
                out.push(head);
                cur = tail;
                proof {
                    assert(views(out@) =~= views(out@.drop_last()).push(out@.last()@));
                    assert(split_seq(v@, sep) =~= views(out@) + split_seq(cur@, sep));
                }
            },
        }
    }
}

/// The pieces joined back with `sep` between them; inverse of `split_seq`
/// on piece lists that contain no separator.
pub open spec fn join_seq(parts: Seq<Seq<char>>, sep: char) -> Seq<char>
    decreases parts.len(),
{
    if parts.len() == 0 {
        Seq::empty()
    } else if parts.len() == 1 {
        parts[0]
    } else {
        join_seq(parts.drop_last(), sep).push(sep) + parts.last()
    }
}

pub fn join_chars(parts: &Vec<Vec<char>>, sep: char) -> (r: Vec<char>)
    ensures
        r@ == join_seq(views(parts@), sep),
{
    let mut out: Vec<char> = Vec::new();
    let mut i: usize = 0;
    while i < parts.len()
        invariant
            i <= parts@.len(),
            out@ == join_seq(views(parts@.take(i as int)), sep),
        decreases parts@.len() - i,
    {
        if i > 0 {
            out.push(sep);
        }
        let mut j: usize = 0;
        let ghost mid = out@;
        while j < parts[i].len()
            invariant
                j <= parts@[i as int]@.len(),
                i < parts@.len(),
                out@ == mid + parts@[i as int]@.take(j as int),
            decreases parts@[i as int]@.len() - j,
        {
            out.push(parts[i][j]);
            j = j + 1;
            proof {
                assert(out@ =~= mid + parts@[i as int]@.take(j as int));
            }
        }
        i = i + 1;
        proof {
            let ghost ps = views(parts@.take(i as int));
            assert(ps.drop_last() =~= views(parts@.take(i - 1)));
            assert(ps.last() == parts@[i - 1]@);
            assert(parts@[i - 1]@.take(parts@[i - 1]@.len() as int) =~= parts@[i - 1]@);
            assert(out@ =~= join_seq(ps, sep));
        }
    }
    proof {
        assert(parts@.take(parts@.len() as int) =~= parts@);
    }
    out
}

pub proof fn lemma_find_from_exact(s: Seq<char>, from: int, c: char, i: int)
    requires
        0 <= from <= i < s.len(),
        s[i] == c,
        forall|j: int| from <= j < i ==> s[j] != c,
    ensures
        find_from(s, from, c) == Some(i),
    decreases i - from,
{
    if from < i {
        lemma_find_from_exact(s, from + 1, c, i);
    }
}

/// Every piece that splitting produces is free of the separator.
pub proof fn lemma_split_pieces_no_sep(s: Seq<char>, sep: char)
    ensures
        forall|p: int, j: int|
            0 <= p < split_seq(s, sep).len() && 0 <= j < split_seq(s, sep)[p].len()
                ==> #[trigger] split_seq(s, sep)[p][j] != sep,
    decreases s.len(),
{
    lemma_find_from_props(s, 0, sep);
    match find_from(s, 0, sep) {
        None => {},
        Some(i) => {
            lemma_split_pieces_no_sep(s.skip(i + 1), sep);
            assert forall|p: int, j: int|
                0 <= p < split_seq(s, sep).len() && 0 <= j < split_seq(s, sep)[p].len()
                implies #[trigger] split_seq(s, sep)[p][j] != sep by {
                if p == 0 {
                    assert(split_seq(s, sep)[0] == s.take(i));
                    assert(forall|m: int| 0 <= m < i ==> s.take(i)[m] == s[m]);
                } else {
                    assert(split_seq(s, sep)[p] == split_seq(s.skip(i + 1), sep)[p - 1]);
                }
            }
        },
    }
}

/// Joining pieces that hold no separator and splitting again recovers the
/// pieces.
pub proof fn lemma_split_join_inverse(ps: Seq<Seq<char>>, sep: char)
    requires
        ps.len() >= 1,
        forall|p: int, j: int|
            0 <= p < ps.len() && 0 <= j < ps[p].len() ==> #[trigger] ps[p][j] != sep,
    ensures
        split_seq(join_seq(ps, sep), sep) == ps,
    decreases ps.len(),
{
    let s = join_seq(ps, sep);
    if ps.len() == 1 {
        assert(s == ps[0]);
        lemma_find_from_props(s, 0, sep);
        if find_from(s, 0, sep) is Some {
            let i = find_from(s, 0, sep).unwrap();
            assert(ps[0][i] == sep);
        }
        assert(split_seq(s, sep) =~= ps);
    } else {
        lemma_join_front(ps, sep);
        let head = ps[0];
        let rest = join_seq(ps.skip(1), sep);
        assert(s == head + seq![sep] + rest);
        assert(s[head.len() as int] == sep);
        assert forall|j: int| 0 <= j < head.len() implies s[j] != sep by {
            assert(s[j] == head[j]);
        }
        lemma_find_from_exact(s, 0, sep, head.len() as int);
        assert(forall|p: int|
            0 <= p < ps.skip(1).len() ==> ps.skip(1)[p] == ps[p + 1]);
        lemma_split_join_inverse(ps.skip(1), sep);
        assert(s.take(head.len() as int) =~= head);
        assert(s.skip(head.len() as int + 1) =~= rest);
        assert(split_seq(s, sep) == seq![head] + split_seq(rest, sep));
        assert(split_seq(s, sep) =~= ps);
    }
}

/// Joining splits at the front: the first piece, the separator, then the
/// join of the remaining pieces.
proof fn lemma_join_front(ps: Seq<Seq<char>>, sep: char)
    requires
        ps.len() >= 2,
    ensures
        join_seq(ps, sep) == ps[0] + seq![sep] + join_seq(ps.skip(1), sep),
    decreases ps.len(),
{
    if ps.len() == 2 {
        assert(ps.drop_last() =~= seq![ps[0]]);
        assert(join_seq(ps.drop_last(), sep) == ps[0]);
        assert(ps.skip(1) =~= seq![ps[1]]);
        assert(join_seq(ps.skip(1), sep) == ps[1]);
        assert(join_seq(ps, sep) =~= ps[0] + seq![sep] + join_seq(ps.skip(1), sep));
    } else {
        lemma_join_front(ps.drop_last(), sep);
        assert(ps.drop_last()[0] == ps[0]);
        assert(ps.drop_last().skip(1) =~= ps.skip(1).drop_last());
        assert(ps.skip(1).last() == ps.last());
        assert(join_seq(ps.skip(1), sep) == join_seq(ps.skip(1).drop_last(), sep).push(sep)
            + ps.last());
        assert(join_seq(ps, sep) == join_seq(ps.drop_last(), sep).push(sep) + ps.last());
        assert(join_seq(ps, sep) =~= ps[0] + seq![sep] + join_seq(ps.skip(1), sep));
    }
}

/// Deduplicating a sequence that already has no repeats changes nothing.
pub proof fn lemma_dedup_distinct_identity(s: Seq<Seq<char>>)
    requires
        forall|i: int, j: int| 0 <= i < j < s.len() ==> s[i] != s[j],
    ensures
        dedup_seq(s) == s,
    decreases s.len(),
{
    if s.len() > 0 {
        lemma_dedup_distinct_identity(s.drop_last());
        if s.drop_last().contains(s.last()) {
            let k = choose|k: int|
                0 <= k < s.drop_last().len() && s.drop_last()[k] == s.last();
            assert(s[k] == s[s.len() - 1]);
            assert(false);
        }
        assert(dedup_seq(s) =~= s);
    }
}

/// Deduplication is idempotent.
pub proof fn lemma_dedup_idempotent(s: Seq<Seq<char>>)
    ensures
        dedup_seq(dedup_seq(s)) == dedup_seq(s),
{
    lemma_dedup_seq_props(s);
    lemma_dedup_distinct_identity(dedup_seq(s));
}

/// The input with every repeated element removed, keeping each element's
/// first occurrence and the order of those first occurrences.
pub open spec fn dedup_seq(s: Seq<Seq<char>>) -> Seq<Seq<char>>
    decreases s.len(),
{
    if s.len() == 0 {
        Seq::empty()
    } else {
        let d = dedup_seq(s.drop_last());
        if d.contains(s.last()) {
            d
        } else {
            d.push(s.last())
        }
    }
}

pub proof fn lemma_dedup_seq_props(s: Seq<Seq<char>>)
    ensures
        forall|i: int, j: int|
            0 <= i < j < dedup_seq(s).len() ==> dedup_seq(s)[i] != dedup_seq(s)[j],
        forall|x: Seq<char>| dedup_seq(s).contains(x) <==> s.contains(x),
    decreases s.len(),
{
    if s.len() > 0 {
        lemma_dedup_seq_props(s.drop_last());
        let d = dedup_seq(s.drop_last());
        assert forall|x: Seq<char>| dedup_seq(s).contains(x) implies s.contains(x) by {
            if d.contains(x) {
                assert(s.drop_last().contains(x));
                let k = choose|k: int| 0 <= k < s.drop_last().len() && s.drop_last()[k] == x;
                assert(s[k] == x);
                assert(s.contains(x));
            } else {
                assert(dedup_seq(s) == d.push(s.last()));
                let k = choose|k: int| 0 <= k < dedup_seq(s).len() && dedup_seq(s)[k] == x;
                if k < d.len() {
                    assert(d[k] == x);
                    assert(d.contains(x));
                } else {
                    assert(s[s.len() - 1] == x);
                    assert(s.contains(x));
                }
            }
        }
        assert forall|x: Seq<char>| s.contains(x) implies dedup_seq(s).contains(x) by {
            let k = choose|k: int| 0 <= k < s.len() && s[k] == x;
            if k < s.len() - 1 {
                assert(s.drop_last()[k] == x);
                assert(s.drop_last().contains(x));
                assert(d.contains(x));
                let m = choose|m: int| 0 <= m < d.len() && d[m] == x;
                assert(dedup_seq(s)[m] == x);
                assert(dedup_seq(s).contains(x));
            } else {
                if d.contains(x) {
                    let m = choose|m: int| 0 <= m < d.len() && d[m] == x;
                    assert(dedup_seq(s)[m] == x);
                    assert(dedup_seq(s).contains(x));
                } else {
                    assert(dedup_seq(s) == d.push(s.last()));
                    assert(dedup_seq(s).last() == x);
                    assert(dedup_seq(s).contains(x));
                }
            }
        }
    }
}

pub fn dedup_chars(v: &Vec<Vec<char>>) -> (r: Vec<Vec<char>>)
    ensures
        views(r@) == dedup_seq(views(v@)),
{
    let mut out: Vec<Vec<char>> = Vec::new();
    let mut i: usize = 0;
    proof {
        assert(views(v@.take(0)) =~= Seq::<Seq<char>>::empty());
        assert(views(out@) =~= dedup_seq(views(v@.take(0))));
    }
    while i < v.len()
        invariant
            i <= v@.len(),
            views(out@) == dedup_seq(views(v@.take(i as int))),
        decreases v@.len() - i,
    {
        let mut seen = false;
        let mut j: usize = 0;
        while j < out.len()
            invariant
                j <= out@.len(),
                i < v@.len(),
                seen == exists|k: int| 0 <= k < j && #[trigger] out@[k]@ == v@[i as int]@,
            decreases out@.len() - j,
        {
            if chars_eq(&out[j], &v[i]) {
                seen = true;
                proof {
                    assert(out@[j as int]@ == v@[i as int]@);
                }
            }
            j = j + 1;
        }
        proof {
            lemma_views_contains(out@, v@[i as int]@);
            assert(seen == views(out@).contains(v@[i as int]@));
        }
        if !seen {
            let item = copy_chars(&v[i]);
            out.push(item);
        }
        i = i + 1;
        proof {
            let ghost pre = views(v@.take(i as int));
            assert(pre.drop_last() =~= views(v@.take(i - 1)));
            assert(pre.last() == v@[i - 1]@);
            if !seen {
                assert(views(out@) =~= views(out@.drop_last()).push(out@.last()@));
            }
            assert(views(out@) =~= dedup_seq(pre));
        }
    }
    proof {
        assert(v@.take(v@.len() as int) =~= v@);
    }
    out
}

/// The decimal digit character for a value below ten.
pub open spec fn digit_char(d: int) -> char {
    ((48 + d) as u8) as char
}

/// The decimal rendering of a natural number, most significant digit first.
pub open spec fn dec_rep(n: int) -> Seq<char>
    decreases n,
{
    if n < 10 {
        seq![digit_char(if n < 0 { 0 } else { n })]
    } else {
        dec_rep(n / 10).push(digit_char(n % 10))
    }
}

fn push_dec(n: u64, out: &mut Vec<char>)
    ensures
        final(out)@ == old(out)@ + dec_rep(n as int),
    decreases n,
{
    if n < 10 {
        out.push((48 + (n as u8)) as char);
        proof {
            assert(out@ =~= old(out)@ + dec_rep(n as int));
        }
    } else {
        push_dec(n / 10, out);
        out.push((48 + ((n % 10) as u8)) as char);
        proof {
            assert(out@ =~= old(out)@ + dec_rep(n as int));
        }
    }
}

/// The decimal rendering of `n` as a string.
pub fn u64_to_dec(n: u64) -> (r: String)
    ensures
        r@ == dec_rep(n as int),
{
    let mut out: Vec<char> = Vec::new();
    push_dec(n, &mut out);
    proof {
        assert(out@ =~= dec_rep(n as int));
    }
    chars_to_string(&out)
}

} // verus!
