use vstd::prelude::*;

verus! {

/// `s` with every leading character that belongs to `cs` removed.
pub open spec fn trim_start(s: Seq<char>, cs: Seq<char>) -> Seq<char>
    decreases s.len(),
{
    if s.len() > 0 && cs.contains(s[0]) {
        trim_start(s.drop_first(), cs)
    } else {
        s
    }
}

/// `s` with every trailing character that belongs to `cs` removed.
pub open spec fn trim_end(s: Seq<char>, cs: Seq<char>) -> Seq<char>
    decreases s.len(),
{
    if s.len() > 0 && cs.contains(s.last()) {
        trim_end(s.drop_last(), cs)
    } else {
        s
    }
}

/// `s` with the characters of `cs` removed from both ends.
pub open spec fn trim(s: Seq<char>, cs: Seq<char>) -> Seq<char> {
    trim_end(trim_start(s, cs), cs)
}

/// Does `pat` occur in `s` at position `i`?
pub open spec fn occurs_at(s: Seq<char>, pat: Seq<char>, i: int) -> bool {
    0 <= i && i + pat.len() <= s.len() && s.subrange(i, i + pat.len()) == pat
}

pub open spec fn has_prefix(s: Seq<char>, pat: Seq<char>) -> bool {
    occurs_at(s, pat, 0)
}

pub open spec fn has_suffix(s: Seq<char>, pat: Seq<char>) -> bool {
    occurs_at(s, pat, s.len() - pat.len())
}

pub open spec fn contains_seq(s: Seq<char>, pat: Seq<char>) -> bool {
    exists|i: int| occurs_at(s, pat, i)
}

/// Position of the first occurrence of `pat` in `s`.
#[verifier::opaque]
pub open spec fn first_occurrence(s: Seq<char>, pat: Seq<char>) -> Option<int> {
    if contains_seq(s, pat) {
        Some(choose|i: int| occurs_at(s, pat, i) && forall|j: int| 0 <= j < i ==> !occurs_at(s, pat, j))
    } else {
        None
    }
}

/// `s` with every occurrence of `c` removed.
pub open spec fn remove_char(s: Seq<char>, c: char) -> Seq<char>
    decreases s.len(),
{
    if s.len() == 0 {
        s
    } else if s[0] == c {
        remove_char(s.drop_first(), c)
    } else {
        seq![s[0]] + remove_char(s.drop_first(), c)
    }
}

/// `s` with each non-overlapping occurrence of `pat`, from the left, replaced by `with`.
pub open spec fn replace_all(s: Seq<char>, pat: Seq<char>, with: Seq<char>) -> Seq<char>
    decreases s.len(),
{
    if pat.len() == 0 || s.len() == 0 {
        s
    } else if has_prefix(s, pat) {
        with + replace_all(s.subrange(pat.len() as int, s.len() as int), pat, with)
    } else {
        seq![s[0]] + replace_all(s.drop_first(), pat, with)
    }
}

/// The characters of `s`, in order.
pub fn chars_of(s: &str) -> (r: Vec<char>)
    ensures
        r@ == s@,
{
    let mut r: Vec<char> = Vec::new();
    for c in it: s.chars()
        invariant
            r@ == it.seq().subrange(0, it.index() as int),
            it.seq() == s@,
    {
        r.push(c);
    }
    r
}

/// Relies on `String`'s `FromIterator<&char>`: the string holds the characters in order.
#[verifier::external_body]
pub fn string_of(v: &[char]) -> (r: String)
    ensures
        r@ == v@,
{
    String::from_iter(v)
}

/// Is `a` the text `s`?
pub fn is_text(a: &[char], s: &str) -> (r: bool)
    ensures
        r == (a@ == s@),
{
    let b = chars_of(s);
    eq_chars(a, b.as_slice())
}

pub fn eq_chars(a: &[char], b: &[char]) -> (r: bool)
    ensures
        r == (a@ == b@),
{
    if a.len() != b.len() {
        return false;
    }
    let mut i: usize = 0;
    while i < a.len()
        invariant
            a@.len() == b@.len(),
            i <= a.len(),
            a@.subrange(0, i as int) == b@.subrange(0, i as int),
        decreases a.len() - i,
    {
        if a[i] != b[i] {
            return false;
        }
        assert(a@.subrange(0, i + 1) == a@.subrange(0, i as int).push(a@[i as int]));
        assert(b@.subrange(0, i + 1) == b@.subrange(0, i as int).push(b@[i as int]));
        i = i + 1;
    }
    assert(a@ == a@.subrange(0, a@.len() as int));
    assert(b@ == b@.subrange(0, b@.len() as int));
    true
}

/// Does `pat` occur in `s` at position `i`?
pub fn matches_at(s: &[char], pat: &[char], i: usize) -> (r: bool)
    ensures
        r == occurs_at(s@, pat@, i as int),
{
    if i > s.len() || pat.len() > s.len() - i {
        return false;
    }
    let mut k: usize = 0;
    while k < pat.len()
        invariant
            i + pat@.len() <= s@.len(),
            s@.len() == s.len(),
            k <= pat@.len(),
            forall|j: int| 0 <= j < k ==> s@[i + j] == pat@[j],
        decreases pat.len() - k,
    {
        if s[i + k] != pat[k] {
            assert(s@.subrange(i as int, i + pat@.len())[k as int] != pat@[k as int]);
            return false;
        }
        k = k + 1;
    }
    assert(s@.subrange(i as int, i + pat@.len()) =~= pat@);
    true
}

/// Position of the first occurrence of `pat` in `s`.
pub fn find(s: &[char], pat: &[char]) -> (r: Option<usize>)
    ensures
        r matches Some(i) ==> first_occurrence(s@, pat@) == Some(i as int) && occurs_at(s@, pat@, i as int),
        r is None ==> first_occurrence(s@, pat@) is None,
{
    let mut i: usize = 0;
    loop
        invariant
            i <= s@.len(),
            forall|j: int| 0 <= j < i ==> !occurs_at(s@, pat@, j),
        decreases s.len() - i,
    {
        if matches_at(s, pat, i) {
            proof {
                reveal(first_occurrence);
                let f = choose|x: int| occurs_at(s@, pat@, x) && forall|j: int| 0 <= j < x ==> !occurs_at(s@, pat@, j);
                assert(occurs_at(s@, pat@, i as int));
                assert(f == i as int) by {
                    if f < i {
                    } else if f > i {
                    }
                }
            }
            return Some(i);
        }
        if i == s.len() {
            proof {
                reveal(first_occurrence);
            }
            assert forall|j: int| !occurs_at(s@, pat@, j) by {
                if 0 <= j <= i {
                }
            }
            return None;
        }
        i = i + 1;
    }
}

pub fn contains(s: &[char], pat: &str) -> (r: bool)
    ensures
        r == contains_seq(s@, pat@),
{
    let p = chars_of(pat);
    proof {
        reveal(first_occurrence);
    }
    match find(s, p.as_slice()) {
        Some(_) => true,
        None => false,
    }
}

pub fn starts_with(s: &[char], pat: &str) -> (r: bool)
    ensures
        r == has_prefix(s@, pat@),
{
    let p = chars_of(pat);
    matches_at(s, p.as_slice(), 0)
}

pub fn ends_with(s: &[char], pat: &str) -> (r: bool)
    ensures
        r == has_suffix(s@, pat@),
{
    let p = chars_of(pat);
    if p.len() > s.len() {
        return false;
    }
    matches_at(s, p.as_slice(), s.len() - p.len())
}

/// The characters of `s` from `lo` up to `hi`.
pub fn slice_of(s: &[char], lo: usize, hi: usize) -> (r: Vec<char>)
    requires
        lo <= hi <= s@.len(),
    ensures
        r@ == s@.subrange(lo as int, hi as int),
{
    let mut r: Vec<char> = Vec::new();
    let mut i: usize = lo;
    while i < hi
        invariant
            lo <= i <= hi <= s@.len(),
            r@ == s@.subrange(lo as int, i as int),
        decreases hi - i,
    {
        r.push(s[i]);
        assert(s@.subrange(lo as int, i + 1) == s@.subrange(lo as int, i as int).push(s@[i as int]));
        i = i + 1;
    }
    r
}

proof fn lemma_trim_start_skip(s: Seq<char>, cs: Seq<char>, i: int)
    requires
        0 <= i <= s.len(),
        forall|j: int| 0 <= j < i ==> cs.contains(s[j]),
    ensures
        trim_start(s, cs) == trim_start(s.subrange(i, s.len() as int), cs),
    decreases i,
{
    if i > 0 {
        assert(s.drop_first().subrange(i - 1, s.drop_first().len() as int) == s.subrange(i, s.len() as int));
        lemma_trim_start_skip(s.drop_first(), cs, i - 1);
    } else {
        assert(s.subrange(0, s.len() as int) == s);
    }
}

proof fn lemma_trim_end_skip(s: Seq<char>, cs: Seq<char>, k: int)
    requires
        0 <= k <= s.len(),
        forall|j: int| k <= j < s.len() ==> cs.contains(s[j]),
    ensures
        trim_end(s, cs) == trim_end(s.subrange(0, k), cs),
    decreases s.len() - k,
{
    if k < s.len() {
        assert(s.drop_last().subrange(0, k) == s.subrange(0, k));
        lemma_trim_end_skip(s.drop_last(), cs, k);
    } else {
        assert(s.subrange(0, s.len() as int) == s);
    }
}

/// `s` with the characters of `cs` removed from both ends.
pub fn trim_chars(s: &[char], cs: &str) -> (r: Vec<char>)
    ensures
        r@ == trim(s@, cs@),
{
    let set = chars_of(cs);
    let mut lo: usize = 0;
    while lo < s.len() && contains_char(set.as_slice(), s[lo])
        invariant
            lo <= s@.len(),
            forall|j: int| 0 <= j < lo ==> set@.contains(s@[j]),
        decreases s.len() - lo,
    {
        lo = lo + 1;
    }
    let ghost rest = s@.subrange(lo as int, s@.len() as int);
    proof {
        lemma_trim_start_skip(s@, cs@, lo as int);
        if rest.len() > 0 {
            assert(rest[0] == s@[lo as int]);
        }
    }
    let mut hi: usize = s.len();
    while hi > lo && contains_char(set.as_slice(), s[hi - 1])
        invariant
            lo <= hi <= s@.len(),
            forall|j: int| hi <= j < s@.len() ==> set@.contains(s@[j]),
        decreases hi,
    {
        hi = hi - 1;
    }
    proof {
        let k = hi - lo;
        assert forall|j: int| k <= j < rest.len() implies cs@.contains(rest[j]) by {
            assert(rest[j] == s@[lo + j]);
        }
        lemma_trim_end_skip(rest, cs@, k);
        assert(rest.subrange(0, k) == s@.subrange(lo as int, hi as int));
        let t = rest.subrange(0, k);
        if t.len() > 0 {
            assert(t.last() == s@[hi - 1]);
        }
    }
    slice_of(s, lo, hi)
}

pub fn contains_char(set: &[char], c: char) -> (r: bool)
    ensures
        r == set@.contains(c),
{
    let mut i: usize = 0;
    while i < set.len()
        invariant
            i <= set@.len(),
            forall|j: int| 0 <= j < i ==> set@[j] != c,
        decreases set.len() - i,
    {
        if set[i] == c {
            assert(set@[i as int] == c);
            return true;
        }
        i = i + 1;
    }
    false
}

/// `s` with every occurrence of `c` removed.
pub fn remove_all(s: &[char], c: char) -> (r: Vec<char>)
    ensures
        r@ == remove_char(s@, c),
{
    let mut r: Vec<char> = Vec::new();
    let mut i: usize = s.len();
    let mut acc: Vec<char> = Vec::new();
    // Walk from the end so that each step prepends to the known suffix.
    while i > 0
        invariant
            i <= s@.len(),
            acc@ == remove_char(s@.subrange(i as int, s@.len() as int), c).reverse(),
        decreases i,
    {
        let ghost tail = s@.subrange(i as int, s@.len() as int);
        let ghost t2 = s@.subrange(i - 1, s@.len() as int);
        assert(t2.drop_first() == tail);
        assert(t2[0] == s@[i - 1]);
        if s[i - 1] != c {
            acc.push(s[i - 1]);
            assert(remove_char(t2, c) == seq![s@[i - 1]] + remove_char(tail, c));
            assert((seq![s@[i - 1]] + remove_char(tail, c)).reverse() =~= remove_char(tail, c).reverse().push(s@[i - 1]));
        }
        i = i - 1;
    }
    let mut k: usize = acc.len();
    while k > 0
        invariant
            k <= acc@.len(),
            r@ == acc@.subrange(k as int, acc@.len() as int).reverse(),
        decreases k,
    {
        r.push(acc[k - 1]);
        assert(acc@.subrange(k - 1, acc@.len() as int).reverse() =~= acc@.subrange(k as int, acc@.len() as int).reverse().push(acc@[k - 1]));
        k = k - 1;
    }
    assert(acc@.subrange(0, acc@.len() as int) == acc@);
    assert(acc@.reverse().reverse() =~= acc@) by {
        assert forall|j: int| 0 <= j < acc@.len() implies acc@.reverse().reverse()[j] == acc@[j] by {}
    }
    assert(s@.subrange(0, s@.len() as int) == s@);
    r
}

/// The characters that `char::is_whitespace` accepts (Unicode `White_Space`).
pub open spec fn whitespace() -> Seq<char> {
    seq![
        '\t', '\n', '\u{b}', '\u{c}', '\r', ' ', '\u{85}', '\u{a0}', '\u{1680}', '\u{2000}',
        '\u{2001}', '\u{2002}', '\u{2003}', '\u{2004}', '\u{2005}', '\u{2006}', '\u{2007}',
        '\u{2008}', '\u{2009}', '\u{200a}', '\u{2028}', '\u{2029}', '\u{202f}', '\u{205f}',
        '\u{3000}',
    ]
}

/// The whitespace characters, as text.
pub const WHITESPACE: &'static str = "\t\n\u{b}\u{c}\r \u{85}\u{a0}\u{1680}\u{2000}\u{2001}\u{2002}\u{2003}\u{2004}\u{2005}\u{2006}\u{2007}\u{2008}\u{2009}\u{200a}\u{2028}\u{2029}\u{202f}\u{205f}\u{3000}";

/// `s` without leading and trailing whitespace, as `str::trim` gives it.
pub fn trim_whitespace(s: &[char]) -> (r: Vec<char>)
    ensures
        r@ == trim(s@, whitespace()),
{
    proof {
        reveal_strlit("\t\n\u{b}\u{c}\r \u{85}\u{a0}\u{1680}\u{2000}\u{2001}\u{2002}\u{2003}\u{2004}\u{2005}\u{2006}\u{2007}\u{2008}\u{2009}\u{200a}\u{2028}\u{2029}\u{202f}\u{205f}\u{3000}");
        assert(WHITESPACE@ =~= whitespace());
    }
    trim_chars(s, WHITESPACE)
}

/// `s` without one trailing carriage return.
pub open spec fn strip_cr(s: Seq<char>) -> Seq<char> {
    if s.len() > 0 && s.last() == '\r' {
        s.drop_last()
    } else {
        s
    }
}

/// The lines of `s`, as `str::lines` gives them: split at each newline, a carriage return
/// before the newline dropped, and no empty line after a final newline.
pub open spec fn lines(s: Seq<char>) -> Seq<Seq<char>>
    decreases s.len(),
{
    if s.len() == 0 {
        Seq::empty()
    } else {
        match first_newline(s, 0) {
            Some(j) => if 0 <= j < s.len() {
                seq![strip_cr(s.subrange(0, j))] + lines(s.subrange(j + 1, s.len() as int))
            } else {
                Seq::empty()
            },
            None => seq![strip_cr(s)],
        }
    }
}

/// The first newline of `s` at or after `k`.
pub open spec fn first_newline(s: Seq<char>, k: int) -> Option<int>
    decreases s.len() - k,
{
    if k < 0 || k >= s.len() {
        None
    } else if s[k] == '\n' {
        Some(k)
    } else {
        first_newline(s, k + 1)
    }
}

/// The pieces joined with `sep` between each two.
pub open spec fn join(pieces: Seq<Seq<char>>, sep: Seq<char>) -> Seq<char>
    decreases pieces.len(),
{
    if pieces.len() == 0 {
        Seq::empty()
    } else if pieces.len() == 1 {
        pieces[0]
    } else {
        join(pieces.drop_last(), sep) + sep + pieces.last()
    }
}

proof fn lemma_first_newline(s: Seq<char>, k: int)
    ensures
        first_newline(s, k) matches Some(j) ==> k <= j < s.len() && s[j] == '\n',
    decreases s.len() - k,
{
    if 0 <= k < s.len() && s[k] != '\n' {
        lemma_first_newline(s, k + 1);
    }
}

fn strip_cr_exec(v: Vec<char>) -> (r: Vec<char>)
    ensures
        r@ == strip_cr(v@),
{
    let mut v = v;
    if v.len() > 0 && v[v.len() - 1] == '\r' {
        v.pop();
    }
    v
}

/// The lines of `s`, as `str::lines` gives them.
pub fn split_lines(s: &[char]) -> (r: Vec<Vec<char>>)
    ensures
        r@.map_values(|l: Vec<char>| l@) == lines(s@),
{
    let mut out: Vec<Vec<char>> = Vec::new();
    let mut start: usize = 0;
    let mut k: usize = 0;
    assert(s@.subrange(0, s@.len() as int) == s@);
    assert(out@.map_values(|l: Vec<char>| l@) + lines(s@) =~= lines(s@));
    while k < s.len()
        invariant
            start <= k <= s@.len(),
            first_newline(s@.subrange(start as int, s@.len() as int), 0) == first_newline(s@.subrange(start as int, s@.len() as int), (k - start) as int),
            out@.map_values(|l: Vec<char>| l@) + lines(s@.subrange(start as int, s@.len() as int)) == lines(s@),
        decreases s.len() - k,
    {
        let ghost rest = s@.subrange(start as int, s@.len() as int);
        assert(rest[k - start] == s@[k as int]);
        if s[k] == '\n' {
            let line = strip_cr_exec(slice_of(s, start, k));
            proof {
                assert(rest.subrange(0, (k - start) as int) == s@.subrange(start as int, k as int));
                assert(rest.subrange(k - start + 1, rest.len() as int) == s@.subrange(k + 1, s@.len() as int));
                assert(lines(rest) == seq![line@] + lines(s@.subrange(k + 1, s@.len() as int)));
            }
            let ghost before = out@;
            out.push(line);
            proof {
                assert(out@.map_values(|l: Vec<char>| l@) =~= before.map_values(|l: Vec<char>| l@).push(line@));
                assert(out@.map_values(|l: Vec<char>| l@) + lines(s@.subrange(k + 1, s@.len() as int))
                    =~= before.map_values(|l: Vec<char>| l@) + (seq![line@] + lines(s@.subrange(k + 1, s@.len() as int))));
            }
            start = k + 1;
        }
        k = k + 1;
    }
    let ghost rest = s@.subrange(start as int, s@.len() as int);
    if start < s.len() {
        let line = strip_cr_exec(slice_of(s, start, s.len()));
        proof {
            assert(first_newline(rest, (k - start) as int) is None);
            assert(lines(rest) == seq![line@]);
        }
        let ghost before = out@;
        out.push(line);
        proof {
            assert(out@.map_values(|l: Vec<char>| l@) =~= before.map_values(|l: Vec<char>| l@).push(line@));
            assert(out@.map_values(|l: Vec<char>| l@) =~= before.map_values(|l: Vec<char>| l@) + lines(rest));
        }
    } else {
        proof {
            assert(rest.len() == 0);
            assert(out@.map_values(|l: Vec<char>| l@) + lines(rest) =~= out@.map_values(|l: Vec<char>| l@));
        }
    }
    out
}

/// The pieces joined with `sep` between each two.
pub fn join_with(pieces: &Vec<Vec<char>>, sep: &str) -> (r: Vec<char>)
    ensures
        r@ == join(pieces@.map_values(|l: Vec<char>| l@), sep@),
{
    let sepv = chars_of(sep);
    let mut out: Vec<char> = Vec::new();
    let mut i: usize = 0;
    while i < pieces.len()
        invariant
            i <= pieces@.len(),
            sepv@ == sep@,
            out@ == join(pieces@.subrange(0, i as int).map_values(|l: Vec<char>| l@), sep@),
        decreases pieces.len() - i,
    {
        let ghost prev = pieces@.subrange(0, i as int).map_values(|l: Vec<char>| l@);
        let ghost next = pieces@.subrange(0, i + 1).map_values(|l: Vec<char>| l@);
        assert(next.drop_last() =~= prev);
        assert(next.last() == pieces@[i as int]@);
        if i > 0 {
            append(&mut out, sepv.as_slice());
        }
        append(&mut out, pieces[i].as_slice());
        proof {
            if i == 0 {
                assert(next.len() == 1);
            }
        }
        i = i + 1;
    }
    assert(pieces@.subrange(0, pieces@.len() as int) == pieces@);
    out
}

/// Appends the characters of `b` to `a`.
pub fn append(a: &mut Vec<char>, b: &[char])
    ensures
        final(a)@ == old(a)@ + b@,
{
    let mut i: usize = 0;
    while i < b.len()
        invariant
            i <= b@.len(),
            a@ == old(a)@ + b@.subrange(0, i as int),
        decreases b.len() - i,
    {
        a.push(b[i]);
        assert(b@.subrange(0, i + 1) == b@.subrange(0, i as int).push(b@[i as int]));
        i = i + 1;
    }
    assert(b@.subrange(0, b@.len() as int) == b@);
}

proof fn lemma_prefix_of_rest(s: Seq<char>, pat: Seq<char>, i: int)
    requires
        0 <= i <= s.len(),
    ensures
        has_prefix(s.subrange(i, s.len() as int), pat) == occurs_at(s, pat, i),
{
    let r = s.subrange(i, s.len() as int);
    if occurs_at(s, pat, i) {
        assert(r.subrange(0, pat.len() as int) =~= s.subrange(i, i + pat.len()));
    }
    if has_prefix(r, pat) {
        assert(r.subrange(0, pat.len() as int) =~= s.subrange(i, i + pat.len()));
    }
}

/// `s` with each non-overlapping occurrence of `pat`, from the left, replaced by `with`,
/// as `str::replace` does it.
pub fn replace_text(s: &[char], pat: &str, with: &[char]) -> (r: Vec<char>)
    ensures
        r@ == replace_all(s@, pat@, with@),
{
    let p = chars_of(pat);
    let mut out: Vec<char> = Vec::new();
    if p.len() == 0 {
        append(&mut out, s);
        return out;
    }
    let mut i: usize = 0;
    assert(s@.subrange(0, s@.len() as int) == s@);
    while i < s.len()
        invariant
            p@ == pat@,
            p@.len() > 0,
            i <= s@.len(),
            out@ + replace_all(s@.subrange(i as int, s@.len() as int), pat@, with@) == replace_all(s@, pat@, with@),
        decreases s.len() - i,
    {
        let ghost rest = s@.subrange(i as int, s@.len() as int);
        proof {
            lemma_prefix_of_rest(s@, pat@, i as int);
        }
        if matches_at(s, p.as_slice(), i) {
            let ghost before = out@;
            append(&mut out, with);
            proof {
                assert(rest.subrange(pat@.len() as int, rest.len() as int) =~= s@.subrange(i + p@.len(), s@.len() as int));
                assert(out@ + replace_all(s@.subrange(i + p@.len(), s@.len() as int), pat@, with@)
                    =~= before + (with@ + replace_all(rest.subrange(pat@.len() as int, rest.len() as int), pat@, with@)));
            }
            i = i + p.len();
        } else {
            let ghost before = out@;
            out.push(s[i]);
            proof {
                assert(rest.drop_first() =~= s@.subrange(i + 1, s@.len() as int));
                assert(rest[0] == s@[i as int]);
                assert(out@ + replace_all(s@.subrange(i + 1, s@.len() as int), pat@, with@)
                    =~= before + (seq![s@[i as int]] + replace_all(rest.drop_first(), pat@, with@)));
            }
            i = i + 1;
        }
    }
    proof {
        let rest = s@.subrange(i as int, s@.len() as int);
        assert(rest.len() == 0);
        assert(out@ + replace_all(rest, pat@, with@) =~= out@);
    }
    out
}

/// The text of `source` between two byte offsets.
pub open spec fn byte_range_text(source: Seq<char>, start: int, end: int) -> Seq<char> {
    let b = vstd::utf8::encode_utf8(source);
    if 0 <= start <= end <= b.len() && vstd::utf8::is_char_boundary(b, start) && vstd::utf8::is_char_boundary(b, end) {
        vstd::utf8::decode_utf8(b.subrange(start, end))
    } else {
        Seq::empty()
    }
}

/// Relies on `str::get` with a byte range: the text between two byte offsets, or nothing
/// when they are out of bounds or not on character boundaries.
#[verifier::external_body]
pub fn byte_slice(source: &str, start: usize, end: usize) -> (r: &str)
    ensures
        r@ == byte_range_text(source@, start as int, end as int),
{
    source.get(start..end).unwrap_or("")
}

} // verus!
