use vstd::prelude::*;

verus! {

/// Whether `pat` occurs in `s` starting at position `i`.
pub open spec fn occurs_at(s: Seq<char>, pat: Seq<char>, i: int) -> bool {
    &&& 0 <= i
    &&& i + pat.len() <= s.len()
    &&& forall|k: int| 0 <= k < pat.len() ==> #[trigger] s[i + k] == pat[k]
}

/// The pieces of `s` from `start` on, scanning from position `i`, cut at each occurrence
/// of `pat` found left to right; a match resumes the scan right after it.
pub open spec fn split_scan(s: Seq<char>, pat: Seq<char>, start: int, i: int) -> Seq<Seq<char>>
    decreases s.len() - i,
{
    if pat.len() == 0 || i < 0 || i + pat.len() > s.len() {
        seq![s.subrange(start, s.len() as int)]
    } else if occurs_at(s, pat, i) {
        seq![s.subrange(start, i)] + split_scan(s, pat, i + pat.len(), i + pat.len())
    } else {
        split_scan(s, pat, start, i + 1)
    }
}

/// `s` cut at each non-overlapping occurrence of `pat`, left to right.
pub open spec fn split(s: Seq<char>, pat: Seq<char>) -> Seq<Seq<char>> {
    split_scan(s, pat, 0, 0)
}

/// `s` with every `from` replaced by `to`.
pub open spec fn replace_char(s: Seq<char>, from: char, to: char) -> Seq<char> {
    Seq::new(s.len(), |i: int| if s[i] == from { to } else { s[i] })
}

pub open spec fn views(v: Seq<Vec<char>>) -> Seq<Seq<char>> {
    v.map_values(|p: Vec<char>| p@)
}

/// Relies on `String: FromIterator<char>`: the string holds the characters in their order.
#[verifier::external_body]
pub(crate) fn string_from_chars(chars: Vec<char>) -> (r: String)
    ensures
        r@ == chars@,
{
    String::from_iter(chars)
}

/// The characters of `s`, in order.
pub fn chars_of(s: &str) -> (r: Vec<char>)
    ensures
        r@ == s@,
{
    let n = s.unicode_len();
    let mut r: Vec<char> = Vec::new();
    for i in 0..n
        invariant
            n == s@.len(),
            r@ == s@.subrange(0, i as int),
    {
        r.push(s.get_char(i));
        assert(r@ =~= s@.subrange(0, i + 1));
    }
    assert(r@ =~= s@);
    r
}

fn occurs_at_exec(s: &Vec<char>, pat: &Vec<char>, i: usize) -> (b: bool)
    ensures
        b == occurs_at(s@, pat@, i as int),
{
    if i > s.len() || pat.len() > s.len() - i {
        return false;
    }
    let mut k: usize = 0;
    while k < pat.len()
        invariant
            i + pat@.len() <= s@.len(),
            s@.len() == s.len(),
            k <= pat@.len(),
            forall|j: int| 0 <= j < k ==> #[trigger] s@[i + j] == pat@[j],
        decreases pat@.len() - k,
    {
        if s[i + k] != pat[k] {
            assert(s@[i + k as int] != pat@[k as int]);
            return false;
        }
        k = k + 1;
    }
    true
}

/// Cuts `s` at each non-overlapping occurrence of `pat`, left to right.
pub fn split_chars(s: &Vec<char>, pat: &Vec<char>) -> (pieces: Vec<Vec<char>>)
    requires
        pat@.len() >= 1,
    ensures
        views(pieces@) == split(s@, pat@),
        pieces@.len() >= 1,
{
    let n = s.len();
    let mut pieces: Vec<Vec<char>> = Vec::new();
    let mut piece: Vec<char> = Vec::new();
    let mut start: usize = 0;
    let mut i: usize = 0;
    while i < n
        invariant
            n == s@.len(),
            pat@.len() >= 1,
            start <= i <= n,
            piece@ == s@.subrange(start as int, i as int),
            views(pieces@) + split_scan(s@, pat@, start as int, i as int) == split(s@, pat@),
        decreases n - i,
    {
        if occurs_at_exec(s, pat, i) {
            let ghost old_pieces = pieces@;
            pieces.push(piece);
            assert(views(pieces@) =~= views(old_pieces).push(s@.subrange(start as int, i as int)));
            assert(views(pieces@) + split_scan(s@, pat@, (i + pat@.len()) as int, (i + pat@.len()) as int)
                =~= views(old_pieces) + split_scan(s@, pat@, start as int, i as int));
            piece = Vec::new();
            i = i + pat.len();
            start = i;
            assert(piece@ =~= s@.subrange(start as int, i as int));
        } else {
            piece.push(s[i]);
            i = i + 1;
            assert(piece@ =~= s@.subrange(start as int, i as int));
        }
    }
    let ghost old_pieces = pieces@;
    pieces.push(piece);
    assert(views(pieces@) =~= views(old_pieces) + split_scan(s@, pat@, start as int, i as int));
    pieces
}

/// Replaces every `from` in `s` by `to`.
pub fn replace_chars(s: &Vec<char>, from: char, to: char) -> (r: Vec<char>)
    ensures
        r@ == replace_char(s@, from, to),
{
    let mut r: Vec<char> = Vec::new();
    for i in 0..s.len()
        invariant
            r@ == replace_char(s@, from, to).subrange(0, i as int),
    {
        if s[i] == from {
            r.push(to);
        } else {
            r.push(s[i]);
        }
        assert(r@ =~= replace_char(s@, from, to).subrange(0, i + 1));
    }
    assert(r@ =~= replace_char(s@, from, to));
    r
}


/// No occurrence of `pat` starts in `[i, j)`.
pub open spec fn absent_between(s: Seq<char>, pat: Seq<char>, i: int, j: int) -> bool {
    forall|k: int| i <= k < j ==> !#[trigger] occurs_at(s, pat, k)
}

pub proof fn lemma_scan_skip(s: Seq<char>, pat: Seq<char>, start: int, i: int, j: int)
    requires
        pat.len() >= 1,
        0 <= i <= j,
        absent_between(s, pat, i, j),
    ensures
        split_scan(s, pat, start, i) == split_scan(s, pat, start, j),
    decreases j - i,
{
    if i < j {
        lemma_scan_skip(s, pat, start, i + 1, j);
    }
}

/// The scan from `i` cuts first at `j` when `pat` occurs there and nowhere in `[i, j)`.
pub proof fn lemma_scan_cut(s: Seq<char>, pat: Seq<char>, start: int, i: int, j: int)
    requires
        pat.len() >= 1,
        0 <= i <= j,
        absent_between(s, pat, i, j),
        occurs_at(s, pat, j),
    ensures
        split_scan(s, pat, start, i) == seq![s.subrange(start, j)] + split_scan(
            s,
            pat,
            j + pat.len(),
            j + pat.len(),
        ),
{
    lemma_scan_skip(s, pat, start, i, j);
}

/// The scan from `i` yields the rest from `start` as one piece when `pat` no longer occurs.
pub proof fn lemma_scan_last(s: Seq<char>, pat: Seq<char>, start: int, i: int)
    requires
        pat.len() >= 1,
        0 <= i <= s.len(),
        absent_between(s, pat, i, s.len() as int),
    ensures
        split_scan(s, pat, start, i) == seq![s.subrange(start, s.len() as int)],
{
    lemma_scan_skip(s, pat, start, i, s.len() as int);
}

pub proof fn lemma_occurs_single(s: Seq<char>, c: char, k: int)
    ensures
        occurs_at(s, seq![c], k) <==> (0 <= k < s.len() && s[k] == c),
{
    if 0 <= k < s.len() && s[k] == c {
        assert forall|m: int| 0 <= m < 1 implies #[trigger] s[k + m] == seq![c][m] by {
            assert(m == 0);
        }
    }
    if occurs_at(s, seq![c], k) {
        assert(s[k + 0] == seq![c][0]);
    }
}

pub proof fn lemma_occurs_double(s: Seq<char>, c: char, k: int)
    ensures
        occurs_at(s, seq![c, c], k) <==> (0 <= k && k + 2 <= s.len() && s[k] == c && s[k + 1] == c),
{
    if 0 <= k && k + 2 <= s.len() && s[k] == c && s[k + 1] == c {
        assert forall|m: int| 0 <= m < 2 implies #[trigger] s[k + m] == seq![c, c][m] by {
            assert(m == 0 || m == 1);
        }
    }
    if occurs_at(s, seq![c, c], k) {
        assert(s[k + 0] == seq![c, c][0]);
        assert(s[k + 1] == seq![c, c][1]);
    }
}

} // verus!
