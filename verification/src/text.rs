//! Searching and cutting text.
//!
//! Text is modelled as a sequence of characters. The executable functions
//! work on slices of `char`, so that every step is a constant-time index, and
//! each is proved to compute what a specification function says.

use vstd::prelude::*;

verus! {

/// `pat` stands in `s` at position `i`.
pub open spec fn occurs_at(s: Seq<char>, pat: Seq<char>, i: int) -> bool {
    &&& 0 <= i
    &&& i + pat.len() <= s.len()
    &&& s.subrange(i, i + pat.len()) == pat
}

/// `pat` stands somewhere in `s`.
pub open spec fn contains(s: Seq<char>, pat: Seq<char>) -> bool {
    exists|i: int| occurs_at(s, pat, i)
}

/// The position of the first occurrence of `pat` in `s`, if there is one.
pub open spec fn find(s: Seq<char>, pat: Seq<char>) -> Option<int>
    decreases s.len(),
{
    if pat.is_prefix_of(s) {
        Some(0)
    } else if s.len() == 0 {
        None
    } else {
        match find(s.drop_first(), pat) {
            Some(i) => Some(i + 1),
            None => None,
        }
    }
}

/// The pieces of `s` between the occurrences of `pat`, which are found from
/// left to right and do not overlap. A text without an occurrence is its own
/// single piece, so there is always at least one piece.
pub open spec fn split(s: Seq<char>, pat: Seq<char>) -> Seq<Seq<char>>
    decreases s.len(),
    when pat.len() > 0
    via split_decreases
{
    match find(s, pat) {
        Some(i) => seq![s.take(i)].add(split(s.skip(i + pat.len()), pat)),
        None => seq![s],
    }
}

#[via_fn]
proof fn split_decreases(s: Seq<char>, pat: Seq<char>) {
    lemma_find(s, pat);
}

/// The pieces of all the texts of `rows`, in order, each text cut at the
/// occurrences of `pat`.
pub open spec fn split_all(rows: Seq<Seq<char>>, pat: Seq<char>) -> Seq<Seq<char>> {
    rows.map_values(|row: Seq<char>| split(row, pat)).flatten()
}

/// The texts of `pieces` in a row, with `sep` between each two.
pub open spec fn join(pieces: Seq<Seq<char>>, sep: Seq<char>) -> Seq<char>
    decreases pieces.len(),
{
    if pieces.len() == 0 {
        Seq::empty()
    } else if pieces.len() == 1 {
        pieces[0]
    } else {
        join(pieces.drop_last(), sep) + sep + pieces.last()
    }
}

/// `s` with `with` in place of each occurrence of `pat`, the occurrences
/// found from left to right without overlap.
pub open spec fn replace(s: Seq<char>, pat: Seq<char>, with: Seq<char>) -> Seq<char> {
    join(split(s, pat), with)
}

/// `s` with every occurrence of the character `from` replaced by `to`.
pub open spec fn replace_char(s: Seq<char>, from: char, to: char) -> Seq<char> {
    Seq::new(s.len(), |i: int| if s[i] == from { to } else { s[i] })
}

/// The test for a character other than `c`.
pub open spec fn other_than(c: char) -> spec_fn(char) -> bool {
    |x: char| x != c
}

/// `s` without the characters equal to `c`.
pub open spec fn remove_char(s: Seq<char>, c: char) -> Seq<char> {
    s.filter(other_than(c))
}

/// The character `c` is not in `s`.
pub open spec fn lacks(s: Seq<char>, c: char) -> bool {
    forall|i: int| 0 <= i < s.len() ==> s[i] != c
}

/// The views of a vector of texts.
pub open spec fn views(v: Seq<Vec<char>>) -> Seq<Seq<char>> {
    Seq::new(v.len(), |i: int| v[i]@)
}

/// The views of a vector of strings.
pub open spec fn texts(v: Seq<String>) -> Seq<Seq<char>> {
    Seq::new(v.len(), |i: int| v[i]@)
}

/// An occurrence in the tail of a text is an occurrence one place further
/// on in the text.
proof fn lemma_occurs_shift(s: Seq<char>, pat: Seq<char>, j: int)
    requires
        s.len() > 0,
    ensures
        occurs_at(s.drop_first(), pat, j) <==> occurs_at(s, pat, j + 1) && j >= 0,
{
    if 0 <= j && j + 1 + pat.len() <= s.len() {
        assert(s.drop_first().subrange(j, j + pat.len()) =~= s.subrange(j + 1, j + 1 + pat.len()));
    }
}

/// `find` gives the least position at which the pattern stands, and gives
/// nothing exactly when the pattern stands nowhere.
pub proof fn lemma_find(s: Seq<char>, pat: Seq<char>)
    ensures
        match find(s, pat) {
            Some(i) => occurs_at(s, pat, i) && forall|j: int| 0 <= j < i ==> !occurs_at(s, pat, j),
            None => !contains(s, pat),
        },
    decreases s.len(),
{
    if pat.is_prefix_of(s) {
        assert(s.subrange(0, 0 + pat.len() as int) =~= pat);
    } else if s.len() == 0 {
        assert forall|j: int| !occurs_at(s, pat, j) by {
            if occurs_at(s, pat, j) {
                assert(pat =~= s.subrange(0, pat.len() as int));
            }
        }
    } else {
        lemma_find(s.drop_first(), pat);
        assert(!occurs_at(s, pat, 0)) by {
            if occurs_at(s, pat, 0) {
                assert(pat =~= s.subrange(0, pat.len() as int));
            }
        }
        match find(s.drop_first(), pat) {
            Some(i) => {
                lemma_occurs_shift(s, pat, i);
                assert forall|j: int| 0 <= j < i + 1 implies !occurs_at(s, pat, j) by {
                    if j > 0 {
                        lemma_occurs_shift(s, pat, j - 1);
                    }
                }
            },
            None => {
                assert forall|j: int| !occurs_at(s, pat, j) by {
                    if j > 0 {
                        lemma_occurs_shift(s, pat, j - 1);
                    }
                }
            },
        }
    }
}

/// The least position at which the pattern stands is what `find` gives.
pub proof fn lemma_find_first(s: Seq<char>, pat: Seq<char>, i: int)
    requires
        occurs_at(s, pat, i),
        forall|j: int| 0 <= j < i ==> !occurs_at(s, pat, j),
    ensures
        find(s, pat) == Some(i),
{
    lemma_find(s, pat);
}

/// `contains` and `find` agree.
pub proof fn lemma_contains_find(s: Seq<char>, pat: Seq<char>)
    ensures
        contains(s, pat) <==> find(s, pat) is Some,
{
    lemma_find(s, pat);
}

/// Cutting a text yields at least one piece, and more than one exactly
/// when the pattern stands in the text.
pub proof fn lemma_split_nonempty(s: Seq<char>, pat: Seq<char>)
    requires
        pat.len() > 0,
    ensures
        split(s, pat).len() >= 1,
        split(s, pat).len() > 1 <==> contains(s, pat),
{
    lemma_find(s, pat);
    match find(s, pat) {
        Some(i) => {
            let rest = s.skip(i + pat.len());
            lemma_find(rest, pat);
            assert(split(rest, pat).len() >= 1);
        },
        None => {},
    }
}

/// A pattern does not stand in a text that lacks its first character.
pub proof fn lemma_lacks(s: Seq<char>, pat: Seq<char>)
    requires
        pat.len() > 0,
        lacks(s, pat[0]),
    ensures
        !contains(s, pat),
        find(s, pat) is None,
        split(s, pat) == seq![s],
{
    assert forall|i: int| !occurs_at(s, pat, i) by {
        if occurs_at(s, pat, i) {
            assert(s.subrange(i, i + pat.len())[0] == pat[0]);
        }
    }
    lemma_find(s, pat);
}

/// A text made of two texts that lack `c` lacks `c`.
pub proof fn lemma_lacks_concat(a: Seq<char>, b: Seq<char>, c: char)
    requires
        lacks(a, c),
        lacks(b, c),
    ensures
        lacks(a + b, c),
{
    assert forall|i: int| 0 <= i < (a + b).len() implies (a + b)[i] != c by {
        if i < a.len() {
            assert((a + b)[i] == a[i]);
        } else {
            assert((a + b)[i] == b[i - a.len()]);
        }
    }
}

/// Where a pattern follows a text that lacks the pattern's first
/// character, that is the first place at which the pattern stands, and the
/// text before it is the first piece.
pub proof fn lemma_split_first(a: Seq<char>, pat: Seq<char>, b: Seq<char>)
    requires
        pat.len() > 0,
        lacks(a, pat[0]),
    ensures
        find(a + pat + b, pat) == Some(a.len() as int),
        split(a + pat + b, pat) == seq![a] + split(b, pat),
{
    let s = a + pat + b;
    let n = a.len() as int;
    assert(s.subrange(n, n + pat.len()) =~= pat);
    assert forall|j: int| 0 <= j < n implies !occurs_at(s, pat, j) by {
        if occurs_at(s, pat, j) {
            assert(s.subrange(j, j + pat.len())[0] == pat[0]);
            assert(s[j] == a[j]);
        }
    }
    lemma_find_first(s, pat, n);
    assert(s.take(n) =~= a);
    assert(s.skip(n + pat.len()) =~= b);
}

/// No texts have no pieces.
pub proof fn lemma_split_all_empty(pat: Seq<char>)
    ensures
        split_all(Seq::<Seq<char>>::empty(), pat) == Seq::<Seq<char>>::empty(),
{
    assert(Seq::<Seq<char>>::empty().map_values(|row: Seq<char>| split(row, pat)) =~= Seq::<
        Seq<Seq<char>>,
    >::empty());
}

/// The pieces of one text more are the pieces so far and then those of
/// the text.
pub proof fn lemma_split_all_push(rows: Seq<Seq<char>>, pat: Seq<char>, i: int)
    requires
        0 <= i < rows.len(),
    ensures
        split_all(rows.take(i + 1), pat) == split_all(rows.take(i), pat) + split(rows[i], pat),
{
    let f = |row: Seq<char>| split(row, pat);
    assert(rows.take(i + 1).map_values(f) =~= rows.take(i).map_values(f).push(f(rows[i])));
    rows.take(i).map_values(f).lemma_flatten_push(f(rows[i]));
}

/// The pieces of all texts are those of the first texts and then those of
/// the others.
pub proof fn lemma_split_all_concat(a: Seq<Seq<char>>, b: Seq<Seq<char>>, pat: Seq<char>)
    ensures
        split_all(a + b, pat) == split_all(a, pat) + split_all(b, pat),
{
    let f = |row: Seq<char>| split(row, pat);
    assert((a + b).map_values(f) =~= a.map_values(f) + b.map_values(f));
    vstd::seq_lib::lemma_flatten_concat(a.map_values(f), b.map_values(f));
}

/// The pieces of a single text.
pub proof fn lemma_split_all_single(row: Seq<char>, pat: Seq<char>)
    ensures
        split_all(seq![row], pat) == split(row, pat),
{
    let rows = seq![row];
    lemma_split_all_empty(pat);
    lemma_split_all_push(rows, pat, 0);
    assert(rows.take(1) =~= rows);
    assert(rows.take(0) =~= Seq::<Seq<char>>::empty());
    assert(Seq::<Seq<char>>::empty() + split(row, pat) =~= split(row, pat));
}

/// The characters of a string.
pub fn to_chars(s: &str) -> (v: Vec<char>)
    ensures
        v@ == s@,
{
    let mut v: Vec<char> = Vec::new();
    let chars = s.chars();
    for c in it: chars
        invariant
            v@ == it.seq().take(it.index() as int),
            it.seq() == s@,
    {
        v.push(c);
    }
    v
}

/// The string made of the given characters.
pub fn from_chars(v: &[char]) -> (s: String)
    ensures
        s@ == v@,
{
    let mut s = String::new();
    let mut i: usize = 0;
    while i < v.len()
        invariant
            i <= v.len(),
            s@ == v@.take(i as int),
        decreases v.len() - i,
    {
        s.push(v[i]);
        i += 1;
    }
    s
}

/// Whether two texts are the same.
pub fn same(a: &[char], b: &[char]) -> (r: bool)
    ensures
        r == (a@ == b@),
{
    if a.len() != b.len() {
        return false;
    }
    let mut i: usize = 0;
    while i < a.len()
        invariant
            a.len() == b.len(),
            i <= a.len(),
            forall|j: int| 0 <= j < i ==> a@[j] == b@[j],
        decreases a.len() - i,
    {
        if a[i] != b[i] {
            return false;
        }
        i += 1;
    }
    assert(a@ =~= b@);
    true
}

/// Whether a text reads as the given string.
pub fn is_str(a: &[char], b: &str) -> (r: bool)
    ensures
        r == (a@ == b@),
{
    let other = to_chars(b);
    same(a, other.as_slice())
}

/// Whether `pat` stands in `s` at position `at`.
pub fn matches_at(s: &[char], pat: &[char], at: usize) -> (r: bool)
    ensures
        r == occurs_at(s@, pat@, at as int),
{
    if at > s.len() || pat.len() > s.len() - at {
        return false;
    }
    let mut k: usize = 0;
    while k < pat.len()
        invariant
            at + pat.len() <= s.len(),
            k <= pat.len(),
            forall|j: int| 0 <= j < k ==> s@[at + j] == pat@[j],
        decreases pat.len() - k,
    {
        if s[at + k] != pat[k] {
            assert(s@.subrange(at as int, at + pat.len())[k as int] != pat@[k as int]);
            return false;
        }
        k += 1;
    }
    assert(s@.subrange(at as int, at + pat.len()) =~= pat@);
    true
}

/// The first position from `from` on at which `pat` stands in `s`.
pub fn find_from(s: &[char], pat: &[char], from: usize) -> (r: Option<usize>)
    requires
        from <= s.len(),
    ensures
        match r {
            Some(i) => from <= i && i + pat.len() <= s.len() && find(s@.skip(from as int), pat@)
                == Some(i - from),
            None => find(s@.skip(from as int), pat@) is None,
        },
{
    let ghost rest = s@.skip(from as int);
    if pat.len() > s.len() - from {
        proof {
            lemma_find(rest, pat@);
        }
        return None;
    }
    let last: usize = s.len() - pat.len();
    let mut i: usize = from;
    loop
        invariant
            from <= i <= last,
            last + pat.len() == s.len(),
            rest == s@.skip(from as int),
            forall|j: int| 0 <= j < i - from ==> !occurs_at(rest, pat@, j),
        decreases last - i,
    {
        let here = matches_at(s, pat, i);
        proof {
            assert(rest.subrange(i - from, i - from + pat.len()) =~= s@.subrange(
                i as int,
                i + pat.len(),
            ));
        }
        if here {
            proof {
                lemma_find_first(rest, pat@, i - from);
            }
            return Some(i);
        }
        if i == last {
            proof {
                lemma_find(rest, pat@);
            }
            return None;
        }
        i += 1;
    }
}

/// Whether `pat` stands somewhere in `s`.
pub fn has(s: &[char], pat: &[char]) -> (r: bool)
    ensures
        r == contains(s@, pat@),
{
    proof {
        lemma_contains_find(s@, pat@);
        assert(s@.skip(0) =~= s@);
    }
    find_from(s, pat, 0).is_some()
}

/// A copy of the part of `s` from `from` up to `to`.
pub fn copy_range<T: Copy>(s: &[T], from: usize, to: usize) -> (r: Vec<T>)
    requires
        from <= to <= s.len(),
    ensures
        r@ == s@.subrange(from as int, to as int),
{
    let mut r: Vec<T> = Vec::new();
    let mut i: usize = from;
    while i < to
        invariant
            from <= i <= to <= s.len(),
            r@ == s@.subrange(from as int, i as int),
        decreases to - i,
    {
        r.push(s[i]);
        i += 1;
    }
    r
}

/// A copy of a text.
pub fn copy(s: &[char]) -> (r: Vec<char>)
    ensures
        r@ == s@,
{
    let r = copy_range(s, 0, s.len());
    assert(s@.subrange(0, s@.len() as int) =~= s@);
    r
}

/// Adds the characters of `more` to the end of `s`.
pub fn extend(s: &mut Vec<char>, more: &[char])
    ensures
        final(s)@ == old(s)@ + more@,
{
    let mut i: usize = 0;
    while i < more.len()
        invariant
            i <= more.len(),
            s@ == old(s)@ + more@.take(i as int),
        decreases more.len() - i,
    {
        s.push(more[i]);
        assert(s@ =~= old(s)@ + more@.take(i + 1));
        i += 1;
    }
    assert(more@.take(i as int) =~= more@);
}

/// Cuts `s` at the occurrences of `pat`.
pub fn split_text(s: &[char], pat: &[char]) -> (r: Vec<Vec<char>>)
    requires
        pat.len() > 0,
    ensures
        views(r@) == split(s@, pat@),
        r.len() >= 1,
{
    let mut pieces: Vec<Vec<char>> = Vec::new();
    let mut start: usize = 0;
    proof {
        assert(s@.skip(0) =~= s@);
        assert(views(pieces@).add(split(s@, pat@)) =~= split(s@, pat@));
    }
    loop
        invariant
            pat.len() > 0,
            start <= s.len(),
            split(s@, pat@) == views(pieces@).add(split(s@.skip(start as int), pat@)),
        decreases s.len() - start,
    {
        let ghost rest = s@.skip(start as int);
        match find_from(s, pat, start) {
            Some(i) => {
                let piece = copy_range(s, start, i);
                proof {
                    assert(rest.take(i - start) =~= s@.subrange(start as int, i as int));
                    assert(rest.skip(i - start + pat.len()) =~= s@.skip(i + pat.len()));
                    assert(views(pieces@.push(piece)) =~= views(pieces@).push(piece@));
                    assert(views(pieces@).add(seq![piece@].add(split(s@.skip(i + pat.len()), pat@)))
                        =~= views(pieces@).push(piece@).add(split(s@.skip(i + pat.len()), pat@)));
                }
                pieces.push(piece);
                start = i + pat.len();
            },
            None => {
                let piece = copy_range(s, start, s.len());
                proof {
                    assert(rest =~= s@.subrange(start as int, s.len() as int));
                    assert(views(pieces@.push(piece)) =~= views(pieces@).push(piece@));
                    assert(views(pieces@).add(seq![piece@]) =~= views(pieces@).push(piece@));
                }
                pieces.push(piece);
                return pieces;
            },
        }
    }
}

/// Cuts `s` at the occurrences of the text that `pat` spells.
pub fn cut(s: &[char], pat: &str) -> (r: Vec<Vec<char>>)
    requires
        pat@.len() > 0,
    ensures
        views(r@) == split(s@, pat@),
        r.len() >= 1,
{
    let p = to_chars(pat);
    split_text(s, p.as_slice())
}

/// Cuts each of the texts from place `from` on at the occurrences of the
/// text that `pat` spells, and gives all the pieces in order.
pub fn cut_all(rows: &Vec<Vec<char>>, from: usize, pat: &str) -> (r: Vec<Vec<char>>)
    requires
        pat@.len() > 0,
        from <= rows.len(),
    ensures
        views(r@) == split_all(views(rows@).skip(from as int), pat@),
{
    let p = to_chars(pat);
    let ghost all = views(rows@).skip(from as int);
    let mut pieces: Vec<Vec<char>> = Vec::new();
    let mut i: usize = from;
    proof {
        lemma_split_all_empty(pat@);
        assert(all.take(0) =~= Seq::<Seq<char>>::empty());
        assert(views(pieces@) =~= Seq::<Seq<char>>::empty());
    }
    while i < rows.len()
        invariant
            from <= i <= rows.len(),
            all == views(rows@).skip(from as int),
            p@ == pat@,
            pat@.len() > 0,
            views(pieces@) == split_all(all.take(i - from), pat@),
        decreases rows.len() - i,
    {
        let mut parts = split_text(rows[i].as_slice(), p.as_slice());
        proof {
            lemma_split_all_push(all, pat@, i - from);
            assert(views(pieces@ + parts@) =~= views(pieces@) + views(parts@));
        }
        pieces.append(&mut parts);
        i += 1;
    }
    assert(all.take(i - from) =~= all);
    pieces
}

/// A copy of `s` with `with` in place of each occurrence of `pat`.
pub fn replace_all(s: &[char], pat: &[char], with: &[char]) -> (r: Vec<char>)
    requires
        pat.len() > 0,
    ensures
        r@ == replace(s@, pat@, with@),
{
    let pieces = split_text(s, pat);
    let ghost all = views(pieces@);
    let mut r: Vec<char> = copy(pieces[0].as_slice());
    let mut i: usize = 1;
    assert(all.take(1) =~= seq![all[0]]);
    while i < pieces.len()
        invariant
            1 <= i <= pieces.len(),
            all == views(pieces@),
            r@ == join(all.take(i as int), with@),
        decreases pieces.len() - i,
    {
        proof {
            assert(all.take(i + 1).drop_last() =~= all.take(i as int));
            assert(all.take(i + 1).last() == all[i as int]);
        }
        extend(&mut r, with);
        extend(&mut r, pieces[i].as_slice());
        i += 1;
    }
    assert(all.take(i as int) =~= all);
    r
}

/// A copy of `s` without the characters equal to `c`.
pub fn without_char(s: &[char], c: char) -> (r: Vec<char>)
    ensures
        r@ == remove_char(s@, c),
{
    let ghost keep = other_than(c);
    let mut r: Vec<char> = Vec::new();
    let mut i: usize = 0;
    assert(s@.take(0).filter(keep) =~= Seq::<char>::empty()) by {
        reveal(Seq::filter);
        assert(s@.take(0) =~= Seq::<char>::empty());
    }
    while i < s.len()
        invariant
            i <= s.len(),
            keep == other_than(c),
            r@ == s@.take(i as int).filter(keep),
        decreases s.len() - i,
    {
        proof {
            assert(s@.take(i + 1) =~= s@.take(i as int).push(s@[i as int]));
            s@.take(i as int).lemma_filter_push(s@[i as int], keep);
        }
        if s[i] != c {
            r.push(s[i]);
        }
        i += 1;
    }
    assert(s@.take(i as int) =~= s@);
    r
}

} // verus!
