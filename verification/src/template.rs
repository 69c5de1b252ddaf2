use vstd::prelude::*;
use crate::text::{chars_of, copy_range, push_char};

verus! {

/// The value bound to `name`: the first binding with that name.
pub open spec fn lookup(bindings: Seq<(Seq<char>, Seq<char>)>, name: Seq<char>) -> Option<Seq<char>>
    decreases bindings.len(),
{
    if bindings.len() == 0 {
        None
    } else if bindings[0].0 == name {
        Some(bindings[0].1)
    } else {
        lookup(bindings.drop_first(), name)
    }
}

/// The bindings of string slices as character sequences.
pub open spec fn binding_views(b: Seq<(&str, &str)>) -> Seq<(Seq<char>, Seq<char>)> {
    b.map_values(|p: (&str, &str)| (p.0@, p.1@))
}

/// Whether `c` occurs in `s`.
pub open spec fn contains_char(s: Seq<char>, c: char) -> bool {
    exists|k: int| 0 <= k < s.len() && s[k] == c
}

/// The position of the first `c` in `s` (meaningful when `s` holds one).
pub open spec fn first_index(s: Seq<char>, c: char) -> int {
    choose|k: int| 0 <= k < s.len() && s[k] == c && forall|j: int| 0 <= j < k ==> s[j] != c
}

/// When `s` holds `c`, `first_index` finds its first occurrence.
pub proof fn lemma_first_index_exists(s: Seq<char>, c: char)
    requires
        contains_char(s, c),
    ensures
        0 <= first_index(s, c) < s.len(),
        s[first_index(s, c)] == c,
        forall|j: int| 0 <= j < first_index(s, c) ==> s[j] != c,
{
    let w = choose|k: int| 0 <= k < s.len() && s[k] == c;
    lemma_minimal_witness(s, c, w);
}

proof fn lemma_minimal_witness(s: Seq<char>, c: char, k: int)
    requires
        0 <= k < s.len(),
        s[k] == c,
    ensures
        exists|m: int| 0 <= m < s.len() && s[m] == c && forall|j: int| 0 <= j < m ==> s[j] != c,
    decreases k,
{
    if exists|j: int| 0 <= j < k && s[j] == c {
        let j = choose|j: int| 0 <= j < k && s[j] == c;
        lemma_minimal_witness(s, c, j);
    } else {
        assert(forall|j: int| 0 <= j < k ==> s[j] != c);
    }
}

/// The first occurrence of `c` in `s` is well defined.
pub proof fn lemma_first_index(s: Seq<char>, c: char, k: int)
    requires
        0 <= k < s.len(),
        s[k] == c,
        forall|j: int| 0 <= j < k ==> s[j] != c,
    ensures
        first_index(s, c) == k,
{
    let f = first_index(s, c);
    assert(0 <= f < s.len() && s[f] == c && forall|j: int| 0 <= j < f ==> s[j] != c);
    if f < k {
        assert(s[f] != c);
    } else if f > k {
        assert(s[k] != c);
    }
}

/// The text of `t` with its placeholders filled in, in the manner of
/// `format!`: `{{` stands for `{`, `}}` for `}`, and `{name}` for the value
/// bound to `name`. A placeholder whose name has no binding, and a `{` or
/// `}` that opens or closes nothing, are kept as they are.
pub open spec fn render(t: Seq<char>, b: Seq<(Seq<char>, Seq<char>)>) -> Seq<char>
    decreases t.len(),
{
    if t.len() == 0 {
        Seq::empty()
    } else if t.len() >= 2 && t[0] == '{' && t[1] == '{' {
        seq!['{'] + render(t.skip(2), b)
    } else if t.len() >= 2 && t[0] == '}' && t[1] == '}' {
        seq!['}'] + render(t.skip(2), b)
    } else if t[0] == '{' && contains_char(t.drop_first(), '}') {
        let rest = t.drop_first();
        proof {
            lemma_first_index_exists(rest, '}');
        }
        let k = first_index(rest, '}');
        let name = rest.take(k);
        let filled = match lookup(b, name) {
            Some(v) => v,
            None => seq!['{'] + name + seq!['}'],
        };
        filled + render(rest.skip(k + 1), b)
    } else {
        seq![t[0]] + render(t.drop_first(), b)
    }
}

/// The first position at or after `from` that holds `c`.
fn find_from(v: &[char], from: usize, c: char) -> (r: Option<usize>)
    requires
        from <= v@.len(),
    ensures
        match r {
            Some(k) => from <= k < v@.len() && v@[k as int] == c && forall|j: int|
                from <= j < k ==> v@[j] != c,
            None => forall|j: int| from <= j < v@.len() ==> v@[j] != c,
        },
{
    let mut k = from;
    while k < v.len()
        invariant
            from <= k <= v@.len(),
            forall|j: int| from <= j < k ==> v@[j] != c,
        decreases v@.len() - k,
    {
        if v[k] == c {
            return Some(k);
        }
        k = k + 1;
    }
    None
}

/// The value bound to `name` in `b`.
fn lookup_binding<'a>(b: &Vec<(&'a str, &'a str)>, name: &[char]) -> (r: Option<&'a str>)
    ensures
        match r {
            Some(v) => lookup(binding_views(b@), name@) == Some(v@),
            None => lookup(binding_views(b@), name@) is None,
        },
{
    let ghost bv = binding_views(b@);
    let mut j: usize = 0;
    assert(bv.skip(0) == bv);
    while j < b.len()
        invariant
            j <= b@.len(),
            bv == binding_views(b@),
            lookup(bv, name@) == lookup(bv.skip(j as int), name@),
        decreases b@.len() - j,
    {
        let (key, value) = b[j];
        let ghost rest = bv.skip(j as int);
        assert(rest[0] == (key@, value@));
        if crate::text::chars_are(name, key) {
            return Some(value);
        }
        assert(rest.drop_first() == bv.skip(j + 1));
        j = j + 1;
    }
    None
}

/// Appends the characters of `s` to `out`.
fn push_str_chars(out: &mut Vec<char>, s: &str)
    ensures
        final(out)@ == old(out)@ + s@,
{
    let sv = chars_of(s);
    let mut i: usize = 0;
    while i < sv.len()
        invariant
            i <= sv@.len(),
            sv@ == s@,
            out@ == old(out)@ + sv@.take(i as int),
        decreases sv@.len() - i,
    {
        out.push(sv[i]);
        assert(sv@.take(i + 1) == sv@.take(i as int).push(sv@[i as int]));
        i = i + 1;
    }
    assert(sv@.take(sv@.len() as int) == sv@);
}

/// Handles the `{` at position `i` that does not start `{{`: fills in the
/// placeholder it opens, or keeps it when it opens nothing.
fn fill_placeholder(tv: &Vec<char>, i: usize, b: &Vec<(&str, &str)>, out: &mut Vec<char>) -> (next: usize)
    requires
        i < tv@.len(),
        tv@[i as int] == '{',
        !(i + 1 < tv@.len() && tv@[i + 1] == '{'),
    ensures
        i < next <= tv@.len(),
        final(out)@ + render(tv@.skip(next as int), binding_views(b@)) == old(out)@ + render(
            tv@.skip(i as int),
            binding_views(b@),
        ),
{
    let ghost bv = binding_views(b@);
    let n = tv.len();
    let ghost s = tv@.skip(i as int);
    let ghost before = out@;
    let ghost rest = s.drop_first();
    assert(s[0] == '{');
    assert(i + 1 < tv@.len() ==> s[1] == tv@[i + 1]);
    assert(rest == tv@.skip(i + 1));
    match find_from(tv.as_slice(), i + 1, '}') {
        Some(k) => {
            let ghost kk = k - (i + 1);
            assert(rest[kk] == '}');
            assert(contains_char(rest, '}'));
            assert forall|j: int| 0 <= j < kk implies rest[j] != '}' by {
                assert(rest[j] == tv@[i + 1 + j]);
            };
            proof {
                lemma_first_index(rest, '}', kk);
            }
            let name = copy_range(tv.as_slice(), i + 1, k);
            assert(name@ == rest.take(kk));
            match lookup_binding(b, name.as_slice()) {
                Some(value) => {
                    push_str_chars(out, value);
                },
                None => {
                    out.push('{');
                    let mut q: usize = 0;
                    let ghost mid = out@;
                    while q < name.len()
                        invariant
                            q <= name@.len(),
                            out@ == mid + name@.take(q as int),
                        decreases name@.len() - q,
                    {
                        out.push(name[q]);
                        assert(name@.take(q + 1) == name@.take(q as int).push(name@[q as int]));
                        q = q + 1;
                    }
                    assert(name@.take(name@.len() as int) == name@);
                    out.push('}');
                    assert(out@ =~= before + (seq!['{'] + name@ + seq!['}']));
                },
            }
            assert(rest.skip(kk + 1) == tv@.skip(k + 1));
            assert(out@ + render(tv@.skip(k + 1), bv) =~= before + render(s, bv));
            k + 1
        },
        None => {
            assert(!contains_char(rest, '}')) by {
                if contains_char(rest, '}') {
                    let j = choose|j: int| 0 <= j < rest.len() && rest[j] == '}';
                    assert(rest[j] == tv@[i + 1 + j]);
                }
            };
            out.push('{');
            assert(out@ + render(tv@.skip(i + 1), bv) =~= before + render(s, bv));
            i + 1
        },
    }
}

/// Fills in the placeholders of `t` with the values bound in `b`.
pub fn render_template(t: &str, b: &Vec<(&str, &str)>) -> (r: String)
    ensures
        r@ == render(t@, binding_views(b@)),
{
    let ghost bv = binding_views(b@);
    let tv = chars_of(t);
    let n = tv.len();
    let mut out: Vec<char> = Vec::new();
    let mut i: usize = 0;
    assert(tv@.skip(0) == tv@);
    while i < n
        invariant
            n == tv@.len(),
            tv@ == t@,
            bv == binding_views(b@),
            i <= n,
            render(tv@, bv) == out@ + render(tv@.skip(i as int), bv),
        decreases n - i,
    {
        let ghost s = tv@.skip(i as int);
        let ghost before = out@;
        let c = tv[i];
        assert(s[0] == c);
        if i + 1 < n {
            assert(s[1] == tv@[i + 1]);
        }
        if c == '{' && i + 1 < n && tv[i + 1] == '{' {
            out.push('{');
            assert(s.skip(2) == tv@.skip(i + 2));
            assert(out@ + render(tv@.skip(i + 2), bv) =~= before + render(s, bv));
            i = i + 2;
        } else if c == '}' && i + 1 < n && tv[i + 1] == '}' {
            out.push('}');
            assert(s.skip(2) == tv@.skip(i + 2));
            assert(out@ + render(tv@.skip(i + 2), bv) =~= before + render(s, bv));
            i = i + 2;
        } else if c == '{' {
            i = fill_placeholder(&tv, i, b, &mut out);
        } else {
            out.push(c);
            assert(s.drop_first() == tv@.skip(i + 1));
            assert(out@ + render(tv@.skip(i + 1), bv) =~= before + render(s, bv));
            i = i + 1;
        }
    }
    assert(tv@.skip(n as int) =~= Seq::<char>::empty());
    assert(out@ =~= render(tv@, bv));
    crate::text::string_from(&out)
}


/// Text without braces renders as itself.
pub proof fn lemma_render_plain(t: Seq<char>, b: Seq<(Seq<char>, Seq<char>)>)
    requires
        forall|i: int| 0 <= i < t.len() ==> t[i] != '{' && t[i] != '}',
    ensures
        render(t, b) == t,
    decreases t.len(),
{
    if t.len() > 0 {
        let r = t.drop_first();
        assert forall|i: int| 0 <= i < r.len() implies r[i] != '{' && r[i] != '}' by {
            assert(r[i] == t[i + 1]);
        };
        lemma_render_plain(r, b);
        assert(seq![t[0]] + r =~= t);
    }
}

/// A placeholder is replaced by the value bound to its name, and the text
/// after it is rendered on its own.
pub proof fn lemma_render_placeholder(
    name: Seq<char>,
    rest: Seq<char>,
    b: Seq<(Seq<char>, Seq<char>)>,
)
    requires
        forall|i: int| 0 <= i < name.len() ==> name[i] != '}',
        !(name.len() > 0 && name[0] == '{'),
    ensures
        render(seq!['{'] + name + seq!['}'] + rest, b) == match lookup(b, name) {
            Some(v) => v,
            None => seq!['{'] + name + seq!['}'],
        } + render(rest, b),
{
    let t = seq!['{'] + name + seq!['}'] + rest;
    let r = t.drop_first();
    assert(r =~= name + seq!['}'] + rest);
    assert(r[name.len() as int] == '}');
    assert forall|j: int| 0 <= j < name.len() implies r[j] != '}' by {
        assert(r[j] == name[j]);
    };
    lemma_first_index(r, '}', name.len() as int);
    assert(r.take(name.len() as int) =~= name);
    assert(r.skip(name.len() as int + 1) =~= rest);
    if name.len() > 0 {
        assert(t[1] == name[0]);
    } else {
        assert(t[1] == '}');
    }
}

} // verus!
