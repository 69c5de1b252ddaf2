use vstd::prelude::*;

verus! {

/// Appends one character to a string (`String::push`).
#[verifier::external_body]
pub(crate) fn push_char(s: &mut String, c: char)
    ensures
        final(s)@ == old(s)@.push(c),
{
    s.push(c);
}

/// The characters of a string slice, in order.
pub fn chars_of(s: &str) -> (v: Vec<char>)
    ensures
        v@ == s@,
{
    let mut v: Vec<char> = Vec::new();
    for c in iter: s.chars()
        invariant
            v@ == iter.seq().take(iter.index() as int),
    {
        v.push(c);
    }
    v
}

/// A string made of the given characters.
pub fn string_from(v: &Vec<char>) -> (s: String)
    ensures
        s@ == v@,
{
    let mut s = String::new();
    for i in 0..v.len()
        invariant
            s@ == v@.take(i as int),
    {
        push_char(&mut s, v[i]);
        assert(v@.take(i + 1) == v@.take(i as int).push(v@[i as int]));
    }
    assert(v@.take(v.len() as int) == v@);
    s
}


/// A copy of the characters `v[lo..hi]`.
pub fn copy_range(v: &[char], lo: usize, hi: usize) -> (r: Vec<char>)
    requires
        lo <= hi <= v@.len(),
    ensures
        r@ == v@.subrange(lo as int, hi as int),
{
    let mut r: Vec<char> = Vec::new();
    let mut i = lo;
    while i < hi
        invariant
            lo <= i <= hi <= v@.len(),
            r@ == v@.subrange(lo as int, i as int),
        decreases hi - i,
    {
        r.push(v[i]);
        assert(v@.subrange(lo as int, i + 1) == v@.subrange(lo as int, i as int).push(v@[i as int]));
        i = i + 1;
    }
    r
}

/// Whether `a` and `b` hold the same characters.
pub fn same_chars(a: &[char], b: &[char]) -> (r: bool)
    ensures
        r == (a@ == b@),
{
    if a.len() != b.len() {
        return false;
    }
    let mut i: usize = 0;
    while i < a.len()
        invariant
            a@.len() == b@.len(),
            i <= a@.len(),
            forall|j: int| 0 <= j < i ==> a@[j] == b@[j],
        decreases a@.len() - i,
    {
        if a[i] != b[i] {
            return false;
        }
        i = i + 1;
    }
    assert(a@ =~= b@);
    true
}

/// Whether the characters `a` spell the string `b`.
pub fn chars_are(a: &[char], b: &str) -> (r: bool)
    ensures
        r == (a@ == b@),
{
    let bv = chars_of(b);
    same_chars(a, bv.as_slice())
}

/// Whether `s` begins with the characters of `p`.
pub fn starts_with_str(s: &[char], p: &str) -> (r: bool)
    ensures
        r == (p@.len() <= s@.len() && s@.take(p@.len() as int) == p@),
{
    let pv = chars_of(p);
    if pv.len() > s.len() {
        return false;
    }
    let head = copy_range(s, 0, pv.len());
    assert(s@.subrange(0, pv@.len() as int) == s@.take(pv@.len() as int));
    same_chars(head.as_slice(), pv.as_slice())
}

/// Rust's `char::is_whitespace`: the characters with the Unicode
/// `White_Space` property.
pub open spec fn is_space(c: char) -> bool {
    let n = c as int;
    ||| 9 <= n <= 13
    ||| n == 32
    ||| n == 0x85
    ||| n == 0xA0
    ||| n == 0x1680
    ||| 0x2000 <= n <= 0x200A
    ||| n == 0x2028
    ||| n == 0x2029
    ||| n == 0x202F
    ||| n == 0x205F
    ||| n == 0x3000
}

/// Decides `is_space`.
pub fn is_whitespace(c: char) -> (b: bool)
    ensures
        b == is_space(c),
{
    let n = c as u32;
    (9 <= n && n <= 13) || n == 32 || n == 0x85 || n == 0xA0 || n == 0x1680 || (0x2000 <= n
        && n <= 0x200A) || n == 0x2028 || n == 0x2029 || n == 0x202F || n == 0x205F || n
        == 0x3000
}

/// `s` without its leading whitespace.
pub open spec fn trim_start(s: Seq<char>) -> Seq<char>
    decreases s.len(),
{
    if s.len() > 0 && is_space(s[0]) {
        trim_start(s.drop_first())
    } else {
        s
    }
}

/// `s` without its trailing whitespace.
pub open spec fn trim_end(s: Seq<char>) -> Seq<char>
    decreases s.len(),
{
    if s.len() > 0 && is_space(s.last()) {
        trim_end(s.drop_last())
    } else {
        s
    }
}

/// `s` without leading and trailing whitespace (`str::trim`).
pub open spec fn trim(s: Seq<char>) -> Seq<char> {
    trim_end(trim_start(s))
}

/// Removes leading and trailing whitespace.
pub fn trim_chars(v: &[char]) -> (r: Vec<char>)
    ensures
        r@ == trim(v@),
{
    let n = v.len();
    let mut i: usize = 0;
    assert(v@.subrange(0, n as int) == v@);
    while i < n && is_whitespace(v[i])
        invariant
            n == v@.len(),
            i <= n,
            trim_start(v@) == trim_start(v@.subrange(i as int, n as int)),
        decreases n - i,
    {
        assert(v@.subrange(i as int, n as int).drop_first() == v@.subrange(i + 1, n as int));
        i = i + 1;
    }
    assert(trim_start(v@) == v@.subrange(i as int, n as int));
    let mut j: usize = n;
    while j > i && is_whitespace(v[j - 1])
        invariant
            n == v@.len(),
            i <= j <= n,
            trim(v@) == trim_end(v@.subrange(i as int, j as int)),
        decreases j,
    {
        assert(v@.subrange(i as int, j as int).drop_last() == v@.subrange(i as int, j - 1));
        j = j - 1;
    }
    copy_range(v, i, j)
}

/// `s` without any run of `c` at its end (`str::trim_end_matches` with a
/// character).
pub open spec fn trim_end_char(s: Seq<char>, c: char) -> Seq<char>
    decreases s.len(),
{
    if s.len() > 0 && s.last() == c {
        trim_end_char(s.drop_last(), c)
    } else {
        s
    }
}

/// Removes every trailing `c`.
pub fn trim_end_matching(v: &[char], c: char) -> (r: Vec<char>)
    ensures
        r@ == trim_end_char(v@, c),
{
    let mut j: usize = v.len();
    assert(v@.subrange(0, j as int) == v@);
    while j > 0 && v[j - 1] == c
        invariant
            j <= v@.len(),
            trim_end_char(v@, c) == trim_end_char(v@.subrange(0, j as int), c),
        decreases j,
    {
        assert(v@.subrange(0, j as int).drop_last() == v@.subrange(0, j - 1));
        j = j - 1;
    }
    copy_range(v, 0, j)
}


/// The character sequences held by a vector of character vectors.
pub open spec fn views(v: Seq<Vec<char>>) -> Seq<Seq<char>> {
    v.map_values(|x: Vec<char>| x@)
}

/// The pieces of `s` between occurrences of `sep` (`str::split` with a
/// character): one more piece than there are separators, empty pieces kept.
pub open spec fn split_on(s: Seq<char>, sep: char) -> Seq<Seq<char>>
    decreases s.len(),
{
    if s.len() == 0 {
        seq![Seq::<char>::empty()]
    } else {
        let p = split_on(s.drop_last(), sep);
        if s.last() == sep {
            p.push(Seq::<char>::empty())
        } else {
            p.update(p.len() - 1, p.last().push(s.last()))
        }
    }
}

/// `split_on` always yields at least one piece.
pub proof fn lemma_split_on_nonempty(s: Seq<char>, sep: char)
    ensures
        split_on(s, sep).len() >= 1,
    decreases s.len(),
{
    if s.len() > 0 {
        lemma_split_on_nonempty(s.drop_last(), sep);
    }
}

/// Splits `v` at every occurrence of `sep`.
pub fn split_chars(v: &[char], sep: char) -> (r: Vec<Vec<char>>)
    ensures
        views(r@) == split_on(v@, sep),
{
    let mut parts: Vec<Vec<char>> = Vec::new();
    let mut cur: Vec<char> = Vec::new();
    let n = v.len();
    let mut i: usize = 0;
    assert(v@.take(0) == Seq::<char>::empty());
    while i < n
        invariant
            n == v@.len(),
            i <= n,
            split_on(v@.take(i as int), sep) == views(parts@).push(cur@),
        decreases n - i,
    {
        let c = v[i];
        assert(v@.take(i + 1).drop_last() == v@.take(i as int));
        assert(v@.take(i + 1).last() == c);
        if c == sep {
            let ghost before = parts@;
            let ghost done = cur@;
            parts.push(cur);
            cur = Vec::new();
            assert(views(parts@) =~= views(before).push(done));
        } else {
            let ghost p = views(parts@);
            cur.push(c);
            assert(p.push(cur@) =~= p.push(cur@.drop_last()).update(p.len() as int, cur@));
        }
        i = i + 1;
    }
    assert(v@.take(n as int) == v@);
    let ghost before = parts@;
    parts.push(cur);
    assert(views(parts@) =~= views(before).push(cur@));
    parts
}


/// At most `n` pieces of `s` split at `sep`, the last holding the rest of
/// `s` (`str::splitn` with a character, for `n >= 1`).
pub open spec fn splitn_on(s: Seq<char>, n: nat, sep: char) -> Seq<Seq<char>>
    decreases s.len(),
{
    if s.len() == 0 {
        seq![Seq::<char>::empty()]
    } else {
        let p = splitn_on(s.drop_last(), n, sep);
        if s.last() == sep && p.len() < n {
            p.push(Seq::<char>::empty())
        } else {
            p.update(p.len() - 1, p.last().push(s.last()))
        }
    }
}

/// `splitn_on` yields between one and `n` pieces.
pub proof fn lemma_splitn_on_len(s: Seq<char>, n: nat, sep: char)
    requires
        n >= 1,
    ensures
        1 <= splitn_on(s, n, sep).len() <= n,
    decreases s.len(),
{
    if s.len() > 0 {
        lemma_splitn_on_len(s.drop_last(), n, sep);
    }
}

/// Splits `v` at the first `n - 1` occurrences of `sep`.
pub fn splitn_chars(v: &[char], n: usize, sep: char) -> (r: Vec<Vec<char>>)
    requires
        n >= 1,
    ensures
        views(r@) == splitn_on(v@, n as nat, sep),
{
    let mut parts: Vec<Vec<char>> = Vec::new();
    let mut cur: Vec<char> = Vec::new();
    let len = v.len();
    let mut i: usize = 0;
    assert(v@.take(0) == Seq::<char>::empty());
    while i < len
        invariant
            len == v@.len(),
            i <= len,
            n >= 1,
            splitn_on(v@.take(i as int), n as nat, sep) == views(parts@).push(cur@),
        decreases len - i,
    {
        let c = v[i];
        assert(v@.take(i + 1).drop_last() == v@.take(i as int));
        assert(v@.take(i + 1).last() == c);
        proof {
            lemma_splitn_on_len(v@.take(i as int), n as nat, sep);
        }
        if c == sep && parts.len() + 1 < n {
            let ghost before = parts@;
            let ghost done = cur@;
            parts.push(cur);
            cur = Vec::new();
            assert(views(parts@) =~= views(before).push(done));
        } else {
            let ghost p = views(parts@);
            cur.push(c);
            assert(p.push(cur@) =~= p.push(cur@.drop_last()).update(p.len() as int, cur@));
        }
        i = i + 1;
    }
    assert(v@.take(len as int) == v@);
    let ghost before = parts@;
    parts.push(cur);
    assert(views(parts@) =~= views(before).push(cur@));
    parts
}

/// The maximal runs of non-whitespace characters of `s`
/// (`str::split_whitespace`).
pub open spec fn words(s: Seq<char>) -> Seq<Seq<char>>
    decreases s.len(),
{
    if s.len() == 0 {
        Seq::empty()
    } else {
        let w = words(s.drop_last());
        let c = s.last();
        if is_space(c) {
            w
        } else if s.len() == 1 || is_space(s[s.len() - 2]) {
            w.push(seq![c])
        } else {
            w.update(w.len() - 1, w.last().push(c))
        }
    }
}

/// A string that ends in a non-whitespace character has a last word.
pub proof fn lemma_words_nonempty(s: Seq<char>)
    requires
        s.len() > 0,
        !is_space(s.last()),
    ensures
        words(s).len() >= 1,
    decreases s.len(),
{
    if s.len() > 1 && !is_space(s[s.len() - 2]) {
        assert(s.drop_last().last() == s[s.len() - 2]);
        lemma_words_nonempty(s.drop_last());
    }
}

/// Splits `v` into its whitespace-separated words.
pub fn split_words(v: &[char]) -> (r: Vec<Vec<char>>)
    ensures
        views(r@) == words(v@),
{
    let mut parts: Vec<Vec<char>> = Vec::new();
    let mut cur: Vec<char> = Vec::new();
    let mut in_word = false;
    let len = v.len();
    let mut i: usize = 0;
    assert(v@.take(0) == Seq::<char>::empty());
    while i < len
        invariant
            len == v@.len(),
            i <= len,
            in_word == (i > 0 && !is_space(v@[i - 1])),
            in_word ==> words(v@.take(i as int)) == views(parts@).push(cur@),
            !in_word ==> words(v@.take(i as int)) == views(parts@),
        decreases len - i,
    {
        let c = v[i];
        let ghost pre = v@.take(i as int);
        assert(v@.take(i + 1).drop_last() == pre);
        assert(v@.take(i + 1).last() == c);
        if is_whitespace(c) {
            if in_word {
                let ghost before = parts@;
                let ghost done = cur@;
                parts.push(cur);
                cur = Vec::new();
                assert(views(parts@) =~= views(before).push(done));
            }
            in_word = false;
        } else {
            if in_word {
                assert(v@.take(i + 1)[i - 1] == v@[i - 1]);
                let ghost p = views(parts@);
                cur.push(c);
                assert(p.push(cur@) =~= p.push(cur@.drop_last()).update(p.len() as int, cur@));
            } else {
                if i > 0 {
                    assert(v@.take(i + 1)[i - 1] == v@[i - 1]);
                }
                cur = Vec::new();
                cur.push(c);
                assert(cur@ =~= seq![c]);
            }
            in_word = true;
        }
        i = i + 1;
    }
    assert(v@.take(len as int) == v@);
    if in_word {
        let ghost before = parts@;
        parts.push(cur);
        assert(views(parts@) =~= views(before).push(cur@));
    }
    parts
}

/// `l` without one trailing carriage return.
pub open spec fn strip_cr(l: Seq<char>) -> Seq<char> {
    if l.len() > 0 && l.last() == '\r' {
        l.drop_last()
    } else {
        l
    }
}

/// The lines of `s` (`str::lines`): split at `\n`, a `\r` just before a
/// `\n` dropped, and no empty line after a final `\n`.
pub open spec fn lines_of(s: Seq<char>) -> Seq<Seq<char>> {
    let p = split_on(s, '\n');
    let k = if p.last().len() == 0 {
        p.len() - 1
    } else {
        p.len() as int
    };
    Seq::new(
        k as nat,
        |i: int|
            if i < p.len() - 1 {
                strip_cr(p[i])
            } else {
                p[i]
            },
    )
}

/// Splits `v` into its lines.
pub fn split_lines(v: &[char]) -> (r: Vec<Vec<char>>)
    ensures
        views(r@) == lines_of(v@),
{
    let pieces = split_chars(v, '\n');
    proof {
        lemma_split_on_nonempty(v@, '\n');
    }
    let count = pieces.len();
    let k = if pieces[count - 1].len() == 0 {
        count - 1
    } else {
        count
    };
    let mut r: Vec<Vec<char>> = Vec::new();
    let mut i: usize = 0;
    while i < k
        invariant
            count == pieces@.len() >= 1,
            views(pieces@) == split_on(v@, '\n'),
            k <= count,
            k == (if pieces@[count - 1]@.len() == 0 {
                count - 1
            } else {
                count as int
            }),
            i <= k,
            views(r@) =~= lines_of(v@).take(i as int),
        decreases k - i,
    {
        let piece = &pieces[i];
        assert(views(pieces@)[i as int] == piece@);
        let line = if i + 1 < count && piece.len() > 0 && piece[piece.len() - 1] == '\r' {
            copy_range(piece.as_slice(), 0, piece.len() - 1)
        } else {
            copy_range(piece.as_slice(), 0, piece.len())
        };
        assert(piece@.subrange(0, piece@.len() as int) == piece@);
        assert(piece@.subrange(0, piece@.len() - 1) == piece@.drop_last());
        let ghost before = r@;
        r.push(line);
        assert(views(r@) =~= views(before).push(line@));
        i = i + 1;
    }
    r
}

/// Whether `a` then `b` stand at positions `i` and `i + 1` of `s`.
pub open spec fn pair_at(s: Seq<char>, i: int, a: char, b: char) -> bool {
    0 <= i && i + 1 < s.len() && s[i] == a && s[i + 1] == b
}

/// The text before and after the first occurrence of `a` followed by `b`
/// (`str::split_once` with a two-character pattern).
pub open spec fn split_once_pair(s: Seq<char>, a: char, b: char) -> Option<(Seq<char>, Seq<char>)> {
    if exists|i: int| pair_at(s, i, a, b) {
        let i = choose|i: int| pair_at(s, i, a, b) && forall|j: int| 0 <= j < i ==> !pair_at(s, j, a, b);
        Some((s.take(i), s.skip(i + 2)))
    } else {
        None
    }
}

/// Splits `v` around the first `a` directly followed by `b`.
pub fn split_once_chars(v: &[char], a: char, b: char) -> (r: Option<(Vec<char>, Vec<char>)>)
    ensures
        match r {
            Some((x, y)) => split_once_pair(v@, a, b) == Some((x@, y@)),
            None => split_once_pair(v@, a, b) is None,
        },
{
    let n = v.len();
    let mut i: usize = 0;
    while n > 0 && i < n - 1
        invariant
            n == v@.len(),
            i <= n,
            forall|j: int| 0 <= j < i ==> !pair_at(v@, j, a, b),
        decreases n - i,
    {
        if v[i] == a && v[i + 1] == b {
            assert(pair_at(v@, i as int, a, b));
            let ghost k = choose|k: int| pair_at(v@, k, a, b) && forall|j: int| 0 <= j < k ==> !pair_at(v@, j, a, b);
            assert(k == i) by {
                if k < i {
                } else if k > i {
                    assert(!pair_at(v@, i as int, a, b));
                }
            };
            let x = copy_range(v, 0, i);
            let y = copy_range(v, i + 2, n);
            assert(v@.subrange(0, i as int) == v@.take(i as int));
            assert(v@.subrange(i + 2, n as int) == v@.skip(i + 2));
            return Some((x, y));
        }
        i = i + 1;
    }
    assert(!exists|i: int| pair_at(v@, i, a, b));
    None
}


/// The pieces joined back together with `sep` between consecutive pieces.
pub open spec fn join_with(parts: Seq<Seq<char>>, sep: char) -> Seq<char>
    decreases parts.len(),
{
    if parts.len() == 0 {
        Seq::empty()
    } else if parts.len() == 1 {
        parts[0]
    } else {
        join_with(parts.drop_last(), sep).push(sep) + parts.last()
    }
}

/// Splitting at a character loses nothing: joining the pieces with that
/// character gives back the text.
pub proof fn lemma_split_join(s: Seq<char>, sep: char)
    ensures
        join_with(split_on(s, sep), sep) == s,
    decreases s.len(),
{
    if s.len() == 0 {
    } else {
        let t = s.drop_last();
        let c = s.last();
        lemma_split_join(t, sep);
        lemma_split_on_nonempty(t, sep);
        let p = split_on(t, sep);
        if c == sep {
            assert(p.push(Seq::<char>::empty()).drop_last() =~= p);
            assert(join_with(p.push(Seq::<char>::empty()), sep) =~= t.push(sep));
        } else {
            let q = p.update(p.len() - 1, p.last().push(c));
            if p.len() == 1 {
                assert(join_with(q, sep) == p[0].push(c));
            } else {
                assert(q.drop_last() =~= p.drop_last());
                assert(join_with(q, sep) =~= join_with(p, sep).push(c));
            }
        }
        assert(t.push(c) =~= s);
    }
}

} // verus!
