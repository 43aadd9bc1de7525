//! Character-sequence utilities: conversions between strings and character
//! vectors, substring search, splitting, joining, and decimal rendering.
//! All other modules state their contracts over `Seq<char>` views built here.

use vstd::prelude::*;

verus! {

/// Relies on str::chars / Iterator::collect: the vector holds exactly the
/// characters of the string, in order.
#[verifier::external_body]
pub fn str_to_chars(s: &str) -> (r: Vec<char>)
    ensures
        r@ == s@,
{
    s.chars().collect()
}

/// Relies on String's FromIterator<char>: the string holds exactly these
/// characters, in order.
#[verifier::external_body]
pub fn chars_to_string(v: &Vec<char>) -> (r: String)
    ensures
        r@ == v@,
{
    v.iter().collect()
}

/// The needle `n` occurs in `h` at position `i`.
pub open spec fn match_at(h: Seq<char>, n: Seq<char>, i: int) -> bool {
    &&& 0 <= i
    &&& i + n.len() <= h.len()
    &&& h.subrange(i, i + n.len() as int) == n
}

/// Position of the first occurrence of `n` in `h` at or after `i`.
pub open spec fn find_from(h: Seq<char>, n: Seq<char>, i: int) -> Option<int>
    decreases h.len() - i,
{
    if i < 0 || i + n.len() > h.len() {
        None
    } else if match_at(h, n, i) {
        Some(i)
    } else if i >= h.len() {
        None
    } else {
        find_from(h, n, i + 1)
    }
}

pub proof fn lemma_find_from_spec(h: Seq<char>, n: Seq<char>, i: int)
    requires
        0 <= i,
    ensures
        match find_from(h, n, i) {
            Some(j) => match_at(h, n, j) && i <= j && forall|k: int|
                i <= k < j ==> !match_at(h, n, k),
            None => forall|k: int| i <= k ==> !match_at(h, n, k),
        },
    decreases h.len() - i,
{
    if i + n.len() > h.len() {
        assert forall|k: int| i <= k implies !match_at(h, n, k) by {}
    } else if match_at(h, n, i) {
    } else if i >= h.len() {
        assert forall|k: int| i <= k implies !match_at(h, n, k) by {}
    } else {
        lemma_find_from_spec(h, n, i + 1);
    }
}

/// Whether two character ranges agree; used to compare a candidate window
/// against the needle.
fn range_matches(h: &Vec<char>, n: &Vec<char>, at: usize) -> (r: bool)
    requires
        at + n@.len() <= h@.len(),
    ensures
        r == match_at(h@, n@, at as int),
{
    let hlen = h.len();
    let mut j: usize = 0;
    while j < n.len()
        invariant
            0 <= j <= n@.len(),
            at + n@.len() <= h@.len(),
            hlen == h@.len(),
            forall|k: int| 0 <= k < j ==> h@[at + k] == n@[k],
        decreases n@.len() - j,
    {
        if h[at + j] != n[j] {
            assert(h@.subrange(at as int, at + n@.len() as int)[j as int] != n@[j as int]);
            return false;
        }
        j += 1;
    }
    assert(h@.subrange(at as int, at + n@.len() as int) =~= n@);
    true
}

/// First occurrence of `n` in `h` at or after `from`.
pub fn find_sub(h: &Vec<char>, n: &Vec<char>, from: usize) -> (r: Option<usize>)
    ensures
        match r {
            Some(j) => find_from(h@, n@, from as int) == Some(j as int),
            None => find_from(h@, n@, from as int) is None,
        },
{
    if n.len() == 0 {
        if from > h.len() {
            return None;
        }
        proof {
            assert(h@.subrange(from as int, from as int) =~= n@);
        }
        return Some(from);
    }
    if n.len() > h.len() {
        return None;
    }
    let hl: usize = h.len();
    let end = hl - n.len();
    if from > end {
        return None;
    }
    let mut i: usize = from;
    while i <= end
        invariant
            1 <= n@.len() <= h@.len(),
            hl == h@.len(),
            end == h@.len() - n@.len(),
            from <= i <= end + 1,
            find_from(h@, n@, from as int) == find_from(h@, n@, i as int),
        decreases end + 1 - i,
    {
        if range_matches(h, n, i) {
            return Some(i);
        }
        i += 1;
    }
    None
}

/// `p` is a prefix of `s`.
pub open spec fn has_prefix(s: Seq<char>, p: Seq<char>) -> bool {
    p.len() <= s.len() && s.subrange(0, p.len() as int) == p
}

/// Whether `p` is a prefix of `s`.
pub fn starts_with_chars(s: &Vec<char>, p: &Vec<char>) -> (r: bool)
    ensures
        r == has_prefix(s@, p@),
{
    if p.len() > s.len() {
        return false;
    }
    range_matches(s, p, 0)
}

/// `n` occurs somewhere in `h`.
pub open spec fn contains_sub(h: Seq<char>, n: Seq<char>) -> bool {
    find_from(h, n, 0) is Some
}

pub fn contains_chars(h: &Vec<char>, n: &Vec<char>) -> (r: bool)
    ensures
        r == contains_sub(h@, n@),
{
    match find_sub(h, n, 0) {
        Some(_) => true,
        None => false,
    }
}

pub fn chars_eq(a: &Vec<char>, b: &Vec<char>) -> (r: bool)
    ensures
        r == (a@ == b@),
{
    if a.len() != b.len() {
        assert(a@ != b@);
        return false;
    }
    let mut i: usize = 0;
    while i < a.len()
        invariant
            a@.len() == b@.len(),
            0 <= i <= a@.len(),
            forall|k: int| 0 <= k < i ==> a@[k] == b@[k],
        decreases a@.len() - i,
    {
        if a[i] != b[i] {
            return false;
        }
        i += 1;
    }
    proof {
        assert(a@ =~= b@);
    }
    true
}

/// The characters of `v` from `from` (inclusive) to `to` (exclusive).
pub fn subrange_chars(v: &Vec<char>, from: usize, to: usize) -> (r: Vec<char>)
    requires
        from <= to <= v@.len(),
    ensures
        r@ == v@.subrange(from as int, to as int),
{
    let mut r: Vec<char> = Vec::new();
    let mut i: usize = from;
    while i < to
        invariant
            from <= i <= to <= v@.len(),
            r@ == v@.subrange(from as int, i as int),
        decreases to - i,
    {
        r.push(v[i]);
        proof {
            assert(v@.subrange(from as int, i + 1) =~= v@.subrange(from as int, i as int).push(
                v@[i as int],
            ));
        }
        i += 1;
    }
    r
}

/// Appends all of `src` to `dst`.
pub fn append_chars(dst: &mut Vec<char>, src: &Vec<char>)
    ensures
        final(dst)@ == old(dst)@ + src@,
{
    let mut i: usize = 0;
    while i < src.len()
        invariant
            0 <= i <= src@.len(),
            dst@ == old(dst)@ + src@.subrange(0, i as int),
        decreases src@.len() - i,
    {
        dst.push(src[i]);
        proof {
            assert(src@.subrange(0, i + 1) =~= src@.subrange(0, i as int).push(src@[i as int]));
        }
        i += 1;
    }
    proof {
        assert(src@.subrange(0, src@.len() as int) =~= src@);
    }
}

/// Position of the last occurrence of the character `c` in `s`.
pub open spec fn rfind_char(s: Seq<char>, c: char) -> Option<int>
    decreases s.len(),
{
    if s.len() == 0 {
        None
    } else if s.last() == c {
        Some(s.len() - 1)
    } else {
        rfind_char(s.drop_last(), c)
    }
}

pub proof fn lemma_rfind_char_spec(s: Seq<char>, c: char)
    ensures
        match rfind_char(s, c) {
            Some(j) => 0 <= j < s.len() && s[j] == c && forall|k: int| j < k < s.len() ==> s[k] != c,
            None => forall|k: int| 0 <= k < s.len() ==> s[k] != c,
        },
    decreases s.len(),
{
    if s.len() == 0 {
    } else if s.last() == c {
    } else {
        lemma_rfind_char_spec(s.drop_last(), c);
        assert forall|k: int| 0 <= k < s.len() - 1 implies s.drop_last()[k] == s[k] by {}
    }
}

/// Position of the last occurrence of `c` in `v`.
pub fn rfind(v: &Vec<char>, c: char) -> (r: Option<usize>)
    ensures
        match r {
            Some(j) => rfind_char(v@, c) == Some(j as int),
            None => rfind_char(v@, c) is None,
        },
{
    let mut i: usize = v.len();
    proof {
        assert(v@.subrange(0, v@.len() as int) =~= v@);
    }
    while i > 0
        invariant
            0 <= i <= v@.len(),
            rfind_char(v@, c) == rfind_char(v@.subrange(0, i as int), c),
        decreases i,
    {
        proof {
            assert(v@.subrange(0, i as int).last() == v@[i - 1]);
            assert(v@.subrange(0, i as int).drop_last() =~= v@.subrange(0, i - 1));
        }
        if v[i - 1] == c {
            return Some(i - 1);
        }
        i -= 1;
    }
    proof {
        assert(v@.subrange(0, 0) =~= Seq::<char>::empty());
    }
    None
}

/// `s` with every occurrence of `pat` replaced by `to`, scanning left to
/// right without overlap.
pub open spec fn spec_replace_all(s: Seq<char>, pat: Seq<char>, to: Seq<char>) -> Seq<char>
    decreases s.len(),
    via spec_replace_all_decreases
{
    if pat.len() == 0 {
        s
    } else {
        match find_from(s, pat, 0) {
            None => s,
            Some(i) => s.subrange(0, i) + to + spec_replace_all(
                s.subrange(i + pat.len() as int, s.len() as int),
                pat,
                to,
            ),
        }
    }
}

#[via_fn]
proof fn spec_replace_all_decreases(s: Seq<char>, pat: Seq<char>, to: Seq<char>) {
    lemma_find_from_spec(s, pat, 0);
}

/// Replaces every occurrence of `pat` in `s` by `to`.
pub fn replace_all(s: &Vec<char>, pat: &Vec<char>, to: &Vec<char>) -> (r: Vec<char>)
    ensures
        r@ == spec_replace_all(s@, pat@, to@),
    decreases s@.len(),
{
    if pat.len() == 0 {
        return subrange_chars(s, 0, s.len());
    }
    match find_sub(s, pat, 0) {
        None => subrange_chars(s, 0, s.len()),
        Some(i) => {
            let slen = s.len();
            proof {
                lemma_find_from_spec(s@, pat@, 0);
                assert(i + pat@.len() <= slen);
            }
            let mut r = subrange_chars(s, 0, i);
            append_chars(&mut r, to);
            let rest = subrange_chars(s, i + pat.len(), slen);
            let tail = replace_all(&rest, pat, to);
            append_chars(&mut r, &tail);
            r
        },
    }
}

/// `s` split at every occurrence of `sep`; empty pieces are kept, and the
/// result never has fewer than one piece.
pub open spec fn spec_split(s: Seq<char>, sep: char) -> Seq<Seq<char>>
    decreases s.len(),
    via spec_split_decreases
{
    match find_from(s, seq![sep], 0) {
        None => seq![s],
        Some(i) => seq![s.subrange(0, i)] + spec_split(s.subrange(i + 1, s.len() as int), sep),
    }
}

#[via_fn]
proof fn spec_split_decreases(s: Seq<char>, sep: char) {
    lemma_find_from_spec(s, seq![sep], 0);
}

/// Splits at every occurrence of `sep`.
pub fn split_chars(s: &Vec<char>, sep: char) -> (r: Vec<Vec<char>>)
    ensures
        r.deep_view() == spec_split(s@, sep),
    decreases s@.len(),
{
    let mut needle: Vec<char> = Vec::new();
    needle.push(sep);
    proof {
        assert(needle@ =~= seq![sep]);
    }
    match find_sub(s, &needle, 0) {
        None => {
            let mut r: Vec<Vec<char>> = Vec::new();
            let piece = subrange_chars(s, 0, s.len());
            let ghost pw = piece@;
            r.push(piece);
            proof {
                assert(s@.subrange(0, s@.len() as int) =~= s@);
                assert(r@.len() == 1);
                assert(r.deep_view()[0] == pw);
                assert(r.deep_view() =~= seq![s@]);
            }
            r
        },
        Some(i) => {
            let slen = s.len();
            proof {
                lemma_find_from_spec(s@, seq![sep], 0);
                assert(i + 1 <= slen);
            }
            let head = subrange_chars(s, 0, i);
            let rest = subrange_chars(s, i + 1, slen);
            let tail = split_chars(&rest, sep);
            let mut r: Vec<Vec<char>> = Vec::new();
            let ghost headv = head@;
            r.push(head);
            let ghost prefix_dv = r.deep_view();
            let mut tail2 = tail;
            let ghost tail_dv = tail2.deep_view();
            r.append(&mut tail2);
            proof {
                assert(prefix_dv.len() == 1);
                assert(prefix_dv[0] == headv);
                assert(prefix_dv =~= seq![headv]);
                assert(r.deep_view() =~= prefix_dv + tail_dv);
            }
            r
        },
    }
}

/// The decimal digit characters.
pub open spec fn digit_char(d: int) -> char {
    if d == 0 {
        '0'
    } else if d == 1 {
        '1'
    } else if d == 2 {
        '2'
    } else if d == 3 {
        '3'
    } else if d == 4 {
        '4'
    } else if d == 5 {
        '5'
    } else if d == 6 {
        '6'
    } else if d == 7 {
        '7'
    } else if d == 8 {
        '8'
    } else {
        '9'
    }
}

/// The usual decimal rendering of `n`, most significant digit first.
pub open spec fn dec_rep(n: nat) -> Seq<char>
    decreases n,
{
    if n < 10 {
        seq![digit_char(n as int)]
    } else {
        dec_rep(n / 10).push(digit_char((n % 10) as int))
    }
}

fn digit_to_char(d: u64) -> (c: char)
    requires
        d < 10,
    ensures
        c == digit_char(d as int),
{
    match d {
        0 => '0',
        1 => '1',
        2 => '2',
        3 => '3',
        4 => '4',
        5 => '5',
        6 => '6',
        7 => '7',
        8 => '8',
        _ => '9',
    }
}

/// The decimal digits of `n` as characters.
pub fn u64_to_dec_chars(n: u64) -> (r: Vec<char>)
    ensures
        r@ == dec_rep(n as nat),
    decreases n,
{
    if n < 10 {
        let mut r: Vec<char> = Vec::new();
        r.push(digit_to_char(n));
        proof {
            assert(r@ =~= dec_rep(n as nat));
        }
        r
    } else {
        let mut r = u64_to_dec_chars(n / 10);
        r.push(digit_to_char(n % 10));
        r
    }
}

/// The decimal rendering of `n` as a string.
pub fn u64_to_dec_string(n: u64) -> (r: String)
    ensures
        r@ == dec_rep(n as nat),
{
    let chars = u64_to_dec_chars(n);
    chars_to_string(&chars)
}

} // verus!
