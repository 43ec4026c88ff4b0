use vstd::prelude::*;
use vstd::string::StrSliceExecFns;

verus! {

/// Whether a character has the Unicode `White_Space` property.
pub uninterp spec fn ws_char(c: char) -> bool;

/// Relies on `char::is_whitespace`: whether a character counts as whitespace
/// is a function of the character alone, and the ASCII members of the
/// `White_Space` property are exactly tab, line feed, vertical tab, form
/// feed, carriage return and space.
#[verifier::external_body]
pub(crate) fn is_ws(c: char) -> (r: bool)
    ensures
        r == ws_char(c),
        (c as u32) < 128 ==> (r <==> (c == '\t' || c == '\n' || c == '\u{b}' || c == '\u{c}'
            || c == '\r' || c == ' ')),
{
    c.is_whitespace()
}

pub open spec fn ascii_char(c: char) -> bool {
    (c as u32) < 128
}

/// Every character of `s` is ASCII.
pub open spec fn ascii_seq(s: Seq<char>) -> bool {
    forall|i: int| 0 <= i < s.len() ==> ascii_char(#[trigger] s[i])
}

/// The ASCII lowercase form of one character.
pub open spec fn ascii_lower_char(c: char) -> char {
    if 'A' <= c && c <= 'Z' {
        ((c as u8) + 32) as char
    } else {
        c
    }
}

/// The Unicode lowercase form of a sequence of characters.
pub uninterp spec fn lower_of(s: Seq<char>) -> Seq<char>;

/// Relies on `str::to_lowercase`: the lowercase form depends on the
/// characters alone, an empty string stays empty, and on ASCII text the
/// Unicode lowercase mapping is the ASCII one, character for character.
#[verifier::external_body]
pub(crate) fn to_lowercase(s: &str) -> (r: String)
    ensures
        r@ == lower_of(s@),
        s@.len() == 0 ==> r@.len() == 0,
        ascii_seq(s@) ==> r@ == s@.map_values(|c: char| ascii_lower_char(c)),
{
    s.to_lowercase()
}

/// The delimiters the record grammar splits on: the two-character `::`
/// between an item's head and its price, the single `<` or `>` brackets
/// around an amount, and whitespace between date tokens.
#[derive(Clone, Copy)]
pub enum SepKind {
    DoubleColon,
    Bracket,
    Whitespace,
}

pub open spec fn sep_len(k: SepKind) -> int {
    match k {
        SepKind::DoubleColon => 2,
        SepKind::Bracket => 1,
        SepKind::Whitespace => 1,
    }
}

/// A delimiter of kind `k` stands at position `i` of `s`.
pub open spec fn sep_at(k: SepKind, s: Seq<char>, i: int) -> bool {
    match k {
        SepKind::DoubleColon => 0 <= i && i + 2 <= s.len() && s[i] == ':' && s[i + 1] == ':',
        SepKind::Bracket => 0 <= i < s.len() && (s[i] == '<' || s[i] == '>'),
        SepKind::Whitespace => 0 <= i < s.len() && ws_char(s[i]),
    }
}

/// The position of the first delimiter of kind `k` at or after `i`.
pub open spec fn find_sep_from(k: SepKind, s: Seq<char>, i: int) -> Option<int>
    decreases s.len() - i,
{
    if i + sep_len(k) > s.len() {
        None
    } else if sep_at(k, s, i) {
        Some(i)
    } else {
        find_sep_from(k, s, i + 1)
    }
}

/// The segments of `s[i..]` between delimiters of kind `k`, scanning left to
/// right, empty segments included.
pub open spec fn split_sep_from(k: SepKind, s: Seq<char>, i: int) -> Seq<Seq<char>>
    decreases s.len() - i,
{
    match find_sep_from(k, s, i) {
        Some(j) => if i <= j && j + sep_len(k) <= s.len() {
            seq![s.subrange(i, j)] + split_sep_from(k, s, j + sep_len(k))
        } else {
            seq![s.subrange(i, s.len() as int)]
        },
        None => seq![s.subrange(i, s.len() as int)],
    }
}

/// The non-empty segments, in order.
pub open spec fn drop_empty(ss: Seq<Seq<char>>) -> Seq<Seq<char>>
    decreases ss.len(),
{
    if ss.len() == 0 {
        seq![]
    } else if ss[0].len() == 0 {
        drop_empty(ss.drop_first())
    } else {
        seq![ss[0]] + drop_empty(ss.drop_first())
    }
}

/// Splitting `s` on delimiters of kind `k` and discarding empty segments:
/// the shape every sub-grammar of the record shares.
pub open spec fn segments(k: SepKind, s: Seq<char>) -> Seq<Seq<char>> {
    drop_empty(split_sep_from(k, s, 0))
}

/// `find_sep_from` yields the first delimiter position at or after `i`.
pub proof fn lemma_find_sep_from(k: SepKind, s: Seq<char>, i: int)
    requires
        0 <= i,
    ensures
        match find_sep_from(k, s, i) {
            Some(j) => i <= j && j + sep_len(k) <= s.len() && sep_at(k, s, j) && (forall|m: int|
                i <= m < j ==> !sep_at(k, s, m)),
            None => forall|m: int| m >= i ==> !sep_at(k, s, m),
        },
    decreases s.len() - i,
{
    if i + sep_len(k) > s.len() {
    } else if sep_at(k, s, i) {
    } else {
        lemma_find_sep_from(k, s, i + 1);
    }
}

/// Where a delimiter stands at `j` and none stands before it, the search
/// from `i` finds exactly `j`.
pub proof fn lemma_find_sep_is(k: SepKind, s: Seq<char>, i: int, j: int)
    requires
        0 <= i <= j,
        sep_at(k, s, j),
        forall|m: int| i <= m < j ==> !sep_at(k, s, m),
    ensures
        find_sep_from(k, s, i) == Some(j),
{
    lemma_find_sep_from(k, s, i);
}

/// Where no delimiter stands at or after `i`, the search finds none.
pub proof fn lemma_find_sep_none(k: SepKind, s: Seq<char>, i: int)
    requires
        0 <= i,
        forall|m: int| i <= m ==> !sep_at(k, s, m),
    ensures
        find_sep_from(k, s, i) is None,
{
    lemma_find_sep_from(k, s, i);
}

/// Two non-empty segments survive the empty-segment filter unchanged.
pub proof fn lemma_drop_empty_two(a: Seq<char>, b: Seq<char>)
    requires
        a.len() > 0,
        b.len() > 0,
    ensures
        drop_empty(seq![a, b]) == seq![a, b],
{
    let s = seq![a, b];
    assert(drop_empty(Seq::<Seq<char>>::empty()) == Seq::<Seq<char>>::empty());
    assert(seq![b].drop_first() =~~= Seq::<Seq<char>>::empty());
    assert(drop_empty(seq![b]) =~~= seq![b]);
    assert(s.drop_first() =~~= seq![b]);
    assert(drop_empty(s) =~~= s);
}

/// Two non-empty segments followed by an empty one filter to the two.
pub proof fn lemma_drop_empty_two_then_empty(a: Seq<char>, b: Seq<char>)
    requires
        a.len() > 0,
        b.len() > 0,
    ensures
        drop_empty(seq![a, b, Seq::<char>::empty()]) == seq![a, b],
{
    let e = Seq::<char>::empty();
    let s = seq![a, b, e];
    assert(drop_empty(Seq::<Seq<char>>::empty()) == Seq::<Seq<char>>::empty());
    assert(seq![e].drop_first() =~~= Seq::<Seq<char>>::empty());
    assert(drop_empty(seq![e]) =~~= Seq::<Seq<char>>::empty());
    assert(seq![b, e].drop_first() =~~= seq![e]);
    assert(drop_empty(seq![b, e]) =~~= seq![b]);
    assert(s.drop_first() =~~= seq![b, e]);
    assert(drop_empty(s) =~~= seq![a, b]);
}

pub(crate) open spec fn ranges_to_segs(s: Seq<char>, rs: Seq<(usize, usize)>) -> Seq<Seq<char>> {
    rs.map_values(|p: (usize, usize)| s.subrange(p.0 as int, p.1 as int))
}

pub(crate) fn sep_width(k: SepKind) -> (w: usize)
    ensures
        w == sep_len(k),
{
    match k {
        SepKind::DoubleColon => 2,
        SepKind::Bracket => 1,
        SepKind::Whitespace => 1,
    }
}

pub(crate) fn sep_match(k: SepKind, v: &Vec<char>, i: usize) -> (r: bool)
    requires
        i + sep_len(k) <= v@.len(),
    ensures
        r == sep_at(k, v@, i as int),
{
    // the length call bounds `i + 1` away from overflow
    let n = v.len();
    match k {
        SepKind::DoubleColon => v[i] == ':' && v[i + 1] == ':',
        SepKind::Bracket => v[i] == '<' || v[i] == '>',
        SepKind::Whitespace => is_ws(v[i]),
    }
}

pub(crate) fn find_sep(k: SepKind, v: &Vec<char>, from: usize) -> (r: Option<usize>)
    requires
        from <= v@.len(),
    ensures
        match r {
            Some(j) => from <= j && j + sep_len(k) <= v@.len() && find_sep_from(
                k,
                v@,
                from as int,
            ) == Some(j as int),
            None => find_sep_from(k, v@, from as int) is None,
        },
{
    let n = v.len();
    let w = sep_width(k);
    if n < w {
        proof {
            lemma_find_sep_from(k, v@, from as int);
        }
        return None;
    }
    let mut i = from;
    while i <= n - w
        invariant
            from <= i,
            n == v@.len(),
            w == sep_len(k),
            w <= n,
            forall|m: int| from <= m < i ==> !sep_at(k, v@, m),
        decreases n - i,
    {
        if sep_match(k, v, i) {
            proof {
                lemma_find_sep_from(k, v@, from as int);
            }
            return Some(i);
        }
        i = i + 1;
    }
    proof {
        assert forall|m: int| m >= from implies !sep_at(k, v@, m) by {
            if m >= i {
                assert(m + sep_len(k) > v@.len());
            }
        }
        lemma_find_sep_from(k, v@, from as int);
    }
    None
}

/// All segments of `v` between delimiters of kind `k`, as index ranges.
pub(crate) fn split_sep_ranges(k: SepKind, v: &Vec<char>) -> (r: Vec<(usize, usize)>)
    ensures
        ranges_to_segs(v@, r@) == split_sep_from(k, v@, 0),
        forall|i: int| 0 <= i < r@.len() ==> ((#[trigger] r@[i]).0 <= r@[i].1 && r@[i].1 <= v@.len()),
{
    let n = v.len();
    let mut r: Vec<(usize, usize)> = Vec::new();
    let mut pos: usize = 0;
    loop
        invariant_except_break
            pos <= n,
            n == v@.len(),
            forall|i: int| 0 <= i < r@.len() ==> ((#[trigger] r@[i]).0 <= r@[i].1 && r@[i].1 <= v@.len()),
            ranges_to_segs(v@, r@) + split_sep_from(k, v@, pos as int) == split_sep_from(k, v@, 0),
        ensures
            ranges_to_segs(v@, r@) == split_sep_from(k, v@, 0),
            forall|i: int| 0 <= i < r@.len() ==> ((#[trigger] r@[i]).0 <= r@[i].1 && r@[i].1 <= v@.len()),
        decreases n - pos,
    {
        let ghost prev = r@;
        match find_sep(k, v, pos) {
            Some(j) => {
                r.push((pos, j));
                proof {
                    assert(split_sep_from(k, v@, pos as int) == seq![
                        v@.subrange(pos as int, j as int),
                    ] + split_sep_from(k, v@, j + sep_len(k)));
                    assert(ranges_to_segs(v@, r@) =~~= ranges_to_segs(v@, prev) + seq![
                        v@.subrange(pos as int, j as int),
                    ]);
                    assert(ranges_to_segs(v@, r@) + split_sep_from(k, v@, j + sep_len(k))
                        =~~= ranges_to_segs(v@, prev) + split_sep_from(k, v@, pos as int));
                }
                pos = j + sep_width(k);
            },
            None => {
                r.push((pos, n));
                proof {
                    assert(split_sep_from(k, v@, pos as int) == seq![
                        v@.subrange(pos as int, n as int),
                    ]);
                    assert(ranges_to_segs(v@, r@) =~~= ranges_to_segs(v@, prev) + seq![
                        v@.subrange(pos as int, n as int),
                    ]);
                    assert(ranges_to_segs(v@, r@) =~~= ranges_to_segs(v@, prev) + split_sep_from(
                        k,
                        v@,
                        pos as int,
                    ));
                }
                break ;
            },
        }
    }
    r
}

/// The non-empty segments of `v` between delimiters of kind `k`, as index
/// ranges: the executable counterpart of `segments`.
pub(crate) fn sep_fields(k: SepKind, v: &Vec<char>) -> (r: Vec<(usize, usize)>)
    ensures
        ranges_to_segs(v@, r@) == segments(k, v@),
        forall|i: int| 0 <= i < r@.len() ==> ((#[trigger] r@[i]).0 < r@[i].1 && r@[i].1 <= v@.len()),
{
    let rs = split_sep_ranges(k, v);
    let ghost segs = ranges_to_segs(v@, rs@);
    let mut r: Vec<(usize, usize)> = Vec::new();
    let mut i: usize = 0;
    proof {
        assert(segs.skip(0) =~~= segs);
        assert(ranges_to_segs(v@, r@) =~~= Seq::<Seq<char>>::empty());
        assert(ranges_to_segs(v@, r@) + drop_empty(segs) =~~= drop_empty(segs));
    }
    while i < rs.len()
        invariant
            i <= rs@.len(),
            segs == ranges_to_segs(v@, rs@),
            segs == split_sep_from(k, v@, 0),
            forall|m: int| 0 <= m < rs@.len() ==> ((#[trigger] rs@[m]).0 <= rs@[m].1 && rs@[m].1 <= v@.len()),
            forall|m: int| 0 <= m < r@.len() ==> ((#[trigger] r@[m]).0 < r@[m].1 && r@[m].1 <= v@.len()),
            ranges_to_segs(v@, r@) + drop_empty(segs.skip(i as int)) == drop_empty(segs),
        decreases rs@.len() - i,
    {
        let ghost prev = r@;
        let (p, q) = rs[i];
        proof {
            assert(segs.skip(i as int)[0] == segs[i as int]);
            assert(segs.skip(i as int).drop_first() =~~= segs.skip(i as int + 1));
            assert(segs[i as int] == v@.subrange(p as int, q as int));
        }
        if p < q {
            r.push((p, q));
            proof {
                assert(drop_empty(segs.skip(i as int)) == seq![segs[i as int]] + drop_empty(
                    segs.skip(i as int + 1),
                ));
                assert(ranges_to_segs(v@, r@) =~~= ranges_to_segs(v@, prev) + seq![
                    segs[i as int],
                ]);
                assert(ranges_to_segs(v@, r@) + drop_empty(segs.skip(i as int + 1))
                    =~~= ranges_to_segs(v@, prev) + drop_empty(segs.skip(i as int)));
            }
        } else {
            proof {
                assert(segs[i as int].len() == 0);
                assert(drop_empty(segs.skip(i as int)) == drop_empty(segs.skip(i as int + 1)));
            }
        }
        i = i + 1;
    }
    proof {
        assert(segs.skip(rs@.len() as int) =~~= Seq::<Seq<char>>::empty());
        assert(drop_empty(segs.skip(rs@.len() as int)) == Seq::<Seq<char>>::empty());
        assert(ranges_to_segs(v@, r@) + Seq::<Seq<char>>::empty() =~~= ranges_to_segs(v@, r@));
    }
    r
}

/// Split a line into its whitespace-separated tokens.
pub fn tokenize(s: &str) -> (r: Vec<String>)
    ensures
        r.deep_view() == segments(SepKind::Whitespace, s@),
{
    let v = to_char_vec(s);
    let fields = sep_fields(SepKind::Whitespace, &v);
    let ghost toks = segments(SepKind::Whitespace, s@);
    let mut r: Vec<String> = Vec::new();
    let mut i: usize = 0;
    proof {
        assert(toks.len() == fields@.len());
    }
    while i < fields.len()
        invariant
            i <= fields@.len(),
            v@ == s@,
            ranges_to_segs(v@, fields@) == toks,
            toks.len() == fields@.len(),
            forall|m: int| 0 <= m < fields@.len() ==> ((#[trigger] fields@[m]).0 < fields@[m].1
                && fields@[m].1 <= v@.len()),
            r@.len() == i,
            forall|j: int| 0 <= j < i ==> (#[trigger] r@[j])@ == toks[j],
        decreases fields@.len() - i,
    {
        let (p, q) = fields[i];
        let t = s.substring_char(p, q).to_owned();
        proof {
            assert(t@ == toks[i as int]);
        }
        r.push(t);
        i = i + 1;
    }
    proof {
        assert forall|j: int| 0 <= j < toks.len() implies r.deep_view()[j] == toks[j] by {
            assert((#[trigger] r@[j])@ == toks[j]);
        }
        assert(r.deep_view() =~= toks);
    }
    r
}

/// Copy the characters of `v[a..b]` out into a vector of their own.
pub(crate) fn char_subvec(v: &Vec<char>, a: usize, b: usize) -> (r: Vec<char>)
    requires
        a <= b <= v@.len(),
    ensures
        r@ == v@.subrange(a as int, b as int),
{
    let mut r: Vec<char> = Vec::new();
    let mut i = a;
    while i < b
        invariant
            a <= i <= b <= v@.len(),
            r@ == v@.subrange(a as int, i as int),
        decreases b - i,
    {
        r.push(v[i]);
        i = i + 1;
        proof {
            assert(r@ =~= v@.subrange(a as int, i as int));
        }
    }
    r
}

/// Collect the characters of a string into a vector, so that the parsers can
/// index them in constant time.
pub fn to_char_vec(s: &str) -> (v: Vec<char>)
    ensures
        v@ == s@,
{
    let n = s.unicode_len();
    let mut v: Vec<char> = Vec::new();
    let mut i: usize = 0;
    while i < n
        invariant
            n == s@.len(),
            i <= n,
            v@ == s@.subrange(0, i as int),
        decreases n - i,
    {
        let c = s.get_char(i);
        v.push(c);
        i = i + 1;
        proof {
            assert(v@ =~= s@.subrange(0, i as int));
        }
    }
    proof {
        assert(v@ =~= s@);
    }
    v
}

/// Character-for-character equality of two strings.
pub fn str_eq(a: &str, b: &str) -> (r: bool)
    ensures
        r == (a@ == b@),
{
    let an = a.unicode_len();
    let bn = b.unicode_len();
    if an != bn {
        proof {
            assert(a@ != b@) by {
                assert(a@.len() != b@.len());
            }
        }
        return false;
    }
    let mut i: usize = 0;
    while i < an
        invariant
            an == a@.len(),
            an == b@.len(),
            i <= an,
            forall|j: int| 0 <= j < i ==> a@[j] == b@[j],
        decreases an - i,
    {
        if a.get_char(i) != b.get_char(i) {
            proof {
                assert(a@ != b@) by {
                    assert(a@[i as int] != b@[i as int]);
                }
            }
            return false;
        }
        i = i + 1;
    }
    proof {
        assert(a@ =~= b@);
    }
    true
}

} // verus!
