//! Character-level helpers shared by every codec: trimming, splitting,
//! searching and building output text.
use vstd::prelude::*;

verus! {

/// Whether `c` is a Unicode `White_Space` character, the set that `str::trim` removes.
pub open spec fn is_space(c: char) -> bool {
    let n = c as u32;
    (9 <= n <= 13) || n == 32 || n == 0x85 || n == 0xA0 || n == 0x1680 || (0x2000 <= n
        <= 0x200A) || n == 0x2028 || n == 0x2029 || n == 0x202F || n == 0x205F || n == 0x3000
}

/// Whether trimming by `q` removes `c`: white space for `None`, the given character otherwise.
pub open spec fn strips(c: char, q: Option<char>) -> bool {
    match q {
        None => is_space(c),
        Some(x) => c == x,
    }
}

/// Index of the first character at or after `i` that trimming by `q` keeps.
pub open spec fn skip_front(s: Seq<char>, q: Option<char>, i: int) -> int
    decreases s.len() - i,
{
    if 0 <= i < s.len() && strips(s[i], q) {
        skip_front(s, q, i + 1)
    } else {
        i
    }
}

/// End of the text before `j` once trailing characters removed by `q` are dropped.
pub open spec fn skip_back(s: Seq<char>, q: Option<char>, j: int) -> int
    decreases j,
{
    if 0 < j <= s.len() && strips(s[j - 1], q) {
        skip_back(s, q, j - 1)
    } else {
        j
    }
}

/// `s` without its leading and trailing characters removed by `q`.
pub open spec fn trim_by(s: Seq<char>, q: Option<char>) -> Seq<char> {
    let a = skip_front(s, q, 0);
    let b = skip_back(s, q, s.len() as int);
    if a < b {
        s.subrange(a, b)
    } else {
        Seq::empty()
    }
}

/// `s` without leading and trailing white space.
pub open spec fn trim(s: Seq<char>) -> Seq<char> {
    trim_by(s, None)
}

/// The pieces of `s` between occurrences of `c`; `n` occurrences give `n + 1` pieces.
pub open spec fn split(s: Seq<char>, c: char) -> Seq<Seq<char>>
    decreases s.len(),
{
    if s.len() == 0 {
        seq![Seq::empty()]
    } else {
        let p = split(s.drop_last(), c);
        if s.last() == c {
            p.push(Seq::empty())
        } else {
            p.update(p.len() - 1, p.last().push(s.last()))
        }
    }
}

/// Each piece of `p`, trimmed.
pub open spec fn trim_all(p: Seq<Seq<char>>) -> Seq<Seq<char>> {
    Seq::new(p.len(), |i: int| trim(p[i]))
}

/// The views of a sequence of character vectors.
pub open spec fn views(v: Seq<Vec<char>>) -> Seq<Seq<char>> {
    Seq::new(v.len(), |i: int| v[i]@)
}

/// Index of the first `c` in `s` at or after `i`, or the length of `s` if there is none.
pub open spec fn find_from(s: Seq<char>, c: char, i: int) -> int
    decreases s.len() - i,
{
    if i < 0 || i >= s.len() {
        s.len() as int
    } else if s[i] == c {
        i
    } else {
        find_from(s, c, i + 1)
    }
}

/// `s` cut at its first `c`: the text before it and the text after it.
pub open spec fn split_once(s: Seq<char>, c: char) -> Option<(Seq<char>, Seq<char>)> {
    let k = find_from(s, c, 0);
    if k < s.len() {
        Some((s.subrange(0, k), s.subrange(k + 1, s.len() as int)))
    } else {
        None
    }
}

/// Index of the last `c` in `s` before `j`, or -1 if there is none.
pub open spec fn rfind_before(s: Seq<char>, c: char, j: int) -> int
    decreases j,
{
    if j <= 0 || j > s.len() {
        -1
    } else if s[j - 1] == c {
        j - 1
    } else {
        rfind_before(s, c, j - 1)
    }
}

/// `s` cut at its last `c`.
pub open spec fn rsplit_once(s: Seq<char>, c: char) -> Option<(Seq<char>, Seq<char>)> {
    let k = rfind_before(s, c, s.len() as int);
    if k >= 0 {
        Some((s.subrange(0, k), s.subrange(k + 1, s.len() as int)))
    } else {
        None
    }
}

/// The first `n - 1` pieces of `s` between occurrences of `c`, then the rest of `s`.
pub open spec fn splitn(s: Seq<char>, n: nat, c: char) -> Seq<Seq<char>>
    decreases n,
{
    if n <= 1 {
        seq![s]
    } else {
        match split_once(s, c) {
            None => seq![s],
            Some((a, b)) => seq![a] + splitn(b, (n - 1) as nat, c),
        }
    }
}

/// Index of the first occurrence of `t` in `s` at or after `i`.
pub open spec fn find_text_from(s: Seq<char>, t: Seq<char>, i: int) -> Option<int>
    decreases s.len() + 1 - i,
{
    if i < 0 || i + t.len() > s.len() {
        None
    } else if s.subrange(i, i + t.len()) == t {
        Some(i)
    } else {
        find_text_from(s, t, i + 1)
    }
}

/// Index of the first occurrence of `t` in `s`.
pub open spec fn find_text(s: Seq<char>, t: Seq<char>) -> Option<int> {
    find_text_from(s, t, 0)
}

/// Whether `s` begins with `t`.
pub open spec fn starts_with(s: Seq<char>, t: Seq<char>) -> bool {
    t.len() <= s.len() && s.subrange(0, t.len() as int) == t
}

/// The pieces of `p` with `sep` between each two.
pub open spec fn join(p: Seq<Seq<char>>, sep: Seq<char>) -> Seq<char>
    decreases p.len(),
{
    if p.len() == 0 {
        Seq::empty()
    } else if p.len() == 1 {
        p[0]
    } else {
        join(p.drop_last(), sep) + sep + p.last()
    }
}

/// The pieces of `p` that are not empty, in order.
pub open spec fn keep_nonempty(p: Seq<Seq<char>>) -> Seq<Seq<char>>
    decreases p.len(),
{
    if p.len() == 0 {
        p
    } else if p.last().len() > 0 {
        keep_nonempty(p.drop_last()).push(p.last())
    } else {
        keep_nonempty(p.drop_last())
    }
}

/// The trimmed lines of `s` that are not empty.
pub open spec fn lines(s: Seq<char>) -> Seq<Seq<char>> {
    keep_nonempty(trim_all(split(trim(s), '\n')))
}

/// The view of a text cut in two.
pub open spec fn cut_view(r: Option<(Vec<char>, Vec<char>)>) -> Option<(Seq<char>, Seq<char>)> {
    match r {
        None => None,
        Some((a, b)) => Some((a@, b@)),
    }
}

pub proof fn lemma_split_nonempty(s: Seq<char>, c: char)
    ensures
        split(s, c).len() >= 1,
    decreases s.len(),
{
    if s.len() > 0 {
        lemma_split_nonempty(s.drop_last(), c);
    }
}

proof fn lemma_skip_front_bounds(s: Seq<char>, q: Option<char>, i: int)
    requires
        0 <= i <= s.len(),
    ensures
        i <= skip_front(s, q, i) <= s.len(),
    decreases s.len() - i,
{
    if i < s.len() && strips(s[i], q) {
        lemma_skip_front_bounds(s, q, i + 1);
    }
}

proof fn lemma_skip_back_bounds(s: Seq<char>, q: Option<char>, j: int)
    requires
        0 <= j <= s.len(),
    ensures
        0 <= skip_back(s, q, j) <= j,
    decreases j,
{
    if 0 < j && strips(s[j - 1], q) {
        lemma_skip_back_bounds(s, q, j - 1);
    }
}

/// The characters of `s`, in order.
pub fn chars_of(s: &str) -> (r: Vec<char>)
    ensures
        r@ == s@,
{
    let mut v: Vec<char> = Vec::new();
    for c in it: s.chars()
        invariant
            v@ == it.seq().subrange(0, it.index() as int),
            it.seq() == s@,
    {
        v.push(c);
    }
    v
}

/// Relies on `String::push`: appends one character.
#[verifier::external_body]
pub(crate) fn push_char(buf: &mut String, c: char)
    ensures
        final(buf)@ == old(buf)@.push(c),
{
    buf.push(c)
}

/// Appends every character of `s` to `buf`.
pub fn push_chars(buf: &mut String, s: &[char])
    ensures
        final(buf)@ == old(buf)@ + s@,
{
    let mut i: usize = 0;
    while i < s.len()
        invariant
            i <= s.len(),
            buf@ == old(buf)@ + s@.subrange(0, i as int),
        decreases s.len() - i,
    {
        push_char(buf, s[i]);
        i += 1;
        proof {
            assert(s@.subrange(0, i as int) =~= s@.subrange(0, i - 1).push(s@[i - 1]));
        }
    }
    proof {
        assert(s@.subrange(0, s@.len() as int) =~= s@);
    }
}

/// A new string holding the characters of `s`.
pub fn string_of(s: &[char]) -> (r: String)
    ensures
        r@ == s@,
{
    let mut r = String::new();
    push_chars(&mut r, s);
    r
}

/// The exec counterpart of [`is_space`].
pub fn is_space_char(c: char) -> (b: bool)
    ensures
        b == is_space(c),
{
    let n = c as u32;
    (9 <= n && n <= 13) || n == 32 || n == 0x85 || n == 0xA0 || n == 0x1680 || (0x2000 <= n
        && n <= 0x200A) || n == 0x2028 || n == 0x2029 || n == 0x202F || n == 0x205F || n
        == 0x3000
}

fn strips_char(c: char, q: Option<char>) -> (b: bool)
    ensures
        b == strips(c, q),
{
    match q {
        None => is_space_char(c),
        Some(x) => c == x,
    }
}

/// The characters of `s` from `a` up to `b`.
pub fn copy_range(s: &[char], a: usize, b: usize) -> (r: Vec<char>)
    requires
        a <= b <= s@.len(),
    ensures
        r@ == s@.subrange(a as int, b as int),
{
    let mut r: Vec<char> = Vec::new();
    let mut i: usize = a;
    while i < b
        invariant
            a <= i <= b,
            b <= s@.len(),
            r@ == s@.subrange(a as int, i as int),
        decreases b - i,
    {
        r.push(s[i]);
        i += 1;
        proof {
            assert(s@.subrange(a as int, i as int) =~= s@.subrange(a as int, i - 1).push(
                s@[i - 1],
            ));
        }
    }
    r
}

/// `s` without its leading and trailing characters removed by `q`.
pub fn trim_chars_by(s: &[char], q: Option<char>) -> (r: Vec<char>)
    ensures
        r@ == trim_by(s@, q),
{
    let n: usize = s.len();
    let mut a: usize = 0;
    while a < n && strips_char(s[a], q)
        invariant
            a <= n,
            n == s@.len(),
            skip_front(s@, q, a as int) == skip_front(s@, q, 0),
        decreases n - a,
    {
        a += 1;
    }
    let mut b: usize = n;
    while b > a && strips_char(s[b - 1], q)
        invariant
            a <= b <= n,
            n == s@.len(),
            skip_back(s@, q, b as int) == skip_back(s@, q, n as int),
            a < n ==> !strips(s@[a as int], q),
            a < n ==> b > a,
        decreases b,
    {
        b -= 1;
    }
    proof {
        lemma_skip_back_bounds(s@, q, b as int);
        lemma_skip_front_bounds(s@, q, a as int);
    }
    if a < b {
        copy_range(s, a, b)
    } else {
        Vec::new()
    }
}

/// `s` without leading and trailing white space.
pub fn trim_chars(s: &[char]) -> (r: Vec<char>)
    ensures
        r@ == trim(s@),
{
    trim_chars_by(s, None)
}

/// The pieces of `s` between occurrences of `c`.
pub fn split_chars(s: &[char], c: char) -> (r: Vec<Vec<char>>)
    ensures
        views(r@) == split(s@, c),
{
    let mut parts: Vec<Vec<char>> = Vec::new();
    let mut cur: Vec<char> = Vec::new();
    let mut i: usize = 0;
    proof {
        assert(s@.subrange(0, 0) =~= Seq::<char>::empty());
        assert(views(parts@).push(cur@) =~= seq![Seq::<char>::empty()]);
    }
    while i < s.len()
        invariant
            i <= s@.len(),
            split(s@.subrange(0, i as int), c) == views(parts@).push(cur@),
        decreases s.len() - i,
    {
        let ghost prev = s@.subrange(0, i as int);
        proof {
            assert(s@.subrange(0, i + 1).drop_last() =~= prev);
            lemma_split_nonempty(prev, c);
        }
        let ch = s[i];
        let ghost old_parts = parts@;
        let ghost old_cur = cur@;
        if ch == c {
            let done = cur;
            parts.push(done);
            cur = Vec::new();
            proof {
                assert(views(parts@) =~= views(old_parts).push(old_cur));
                assert(views(parts@).push(cur@) =~= views(old_parts).push(old_cur).push(
                    Seq::empty(),
                ));
            }
        } else {
            cur.push(ch);
            proof {
                assert(views(parts@).push(cur@) =~= views(old_parts).push(old_cur).update(
                    views(old_parts).len() as int,
                    old_cur.push(ch),
                ));
            }
        }
        i += 1;
    }
    let ghost old_parts = parts@;
    let ghost old_cur = cur@;
    parts.push(cur);
    proof {
        assert(s@.subrange(0, s@.len() as int) =~= s@);
        assert(views(parts@) =~= views(old_parts).push(old_cur));
    }
    parts
}

/// Index of the first `c` in `s` at or after `from`, or the length of `s`.
pub fn find_char(s: &[char], c: char, from: usize) -> (k: usize)
    requires
        from <= s@.len(),
    ensures
        k == find_from(s@, c, from as int),
        from <= k <= s@.len(),
{
    let mut i: usize = from;
    while i < s.len() && s[i] != c
        invariant
            from <= i <= s@.len(),
            find_from(s@, c, i as int) == find_from(s@, c, from as int),
        decreases s.len() - i,
    {
        i += 1;
    }
    i
}

/// `s` cut at its first `c`.
pub fn split_once_chars(s: &[char], c: char) -> (r: Option<(Vec<char>, Vec<char>)>)
    ensures
        cut_view(r) == split_once(s@, c),
{
    let k = find_char(s, c, 0);
    if k < s.len() {
        Some((copy_range(s, 0, k), copy_range(s, k + 1, s.len())))
    } else {
        None
    }
}

/// `s` cut at its last `c`.
pub fn rsplit_once_chars(s: &[char], c: char) -> (r: Option<(Vec<char>, Vec<char>)>)
    ensures
        cut_view(r) == rsplit_once(s@, c),
{
    let mut j: usize = s.len();
    while j > 0 && s[j - 1] != c
        invariant
            j <= s@.len(),
            rfind_before(s@, c, j as int) == rfind_before(s@, c, s@.len() as int),
        decreases j,
    {
        j -= 1;
    }
    if j > 0 {
        Some((copy_range(s, 0, j - 1), copy_range(s, j, s.len())))
    } else {
        None
    }
}

/// The first `n - 1` pieces of `s` between occurrences of `c`, then the rest.
pub fn splitn_chars(s: &[char], n: usize, c: char) -> (r: Vec<Vec<char>>)
    ensures
        views(r@) == splitn(s@, n as nat, c),
{
    let mut out: Vec<Vec<char>> = Vec::new();
    let mut rest: Vec<char> = copy_range(s, 0, s.len());
    let mut k: usize = n;
    proof {
        assert(s@.subrange(0, s@.len() as int) =~= s@);
        assert(views(out@) =~= Seq::<Seq<char>>::empty());
    }
    while k > 1
        invariant
            out@.len() + k == n || (k <= 1),
            splitn(s@, n as nat, c) == views(out@) + splitn(rest@, k as nat, c),
        decreases k,
    {
        let ghost old_out = out@;
        match split_once_chars(&rest, c) {
            None => {
                k = 1;
            },
            Some((a, b)) => {
                out.push(a);
                proof {
                    assert(views(out@) =~= views(old_out).push(a@));
                    assert(views(old_out) + (seq![a@] + splitn(b@, (k - 1) as nat, c)) =~= views(
                        out@,
                    ) + splitn(b@, (k - 1) as nat, c));
                }
                rest = b;
                k -= 1;
            },
        }
    }
    let ghost old_out = out@;
    out.push(rest);
    proof {
        assert(views(out@) =~= views(old_out).push(rest@));
        assert(views(old_out) + seq![rest@] =~= views(out@));
    }
    out
}

/// Whether the characters of `s` from `i` on begin with `t`.
pub fn matches_at(s: &[char], t: &[char], i: usize) -> (b: bool)
    requires
        i + t@.len() <= s@.len(),
    ensures
        b == (s@.subrange(i as int, i + t@.len()) == t@),
{
    let mut j: usize = 0;
    while j < t.len()
        invariant
            j <= t@.len(),
            i + t@.len() <= s@.len(),
            s@.len() == s.len(),
            t@.len() == t.len(),
            forall|m: int| 0 <= m < j ==> s@[i + m] == t@[m],
        decreases t.len() - j,
    {
        if s[i + j] != t[j] {
            proof {
                assert(s@.subrange(i as int, i + t@.len())[j as int] != t@[j as int]);
            }
            return false;
        }
        j += 1;
    }
    proof {
        assert(s@.subrange(i as int, i + t@.len()) =~= t@);
    }
    true
}

/// Whether `s` and `t` hold the same characters.
pub fn same_chars(s: &[char], t: &[char]) -> (b: bool)
    ensures
        b == (s@ == t@),
{
    if s.len() != t.len() {
        return false;
    }
    let b = matches_at(s, t, 0);
    proof {
        assert(s@.subrange(0, t@.len() as int) =~= s@);
    }
    b
}

/// Whether `s` spells the text `t`.
pub fn is_text(s: &[char], t: &str) -> (b: bool)
    ensures
        b == (s@ == t@),
{
    let tc = chars_of(t);
    same_chars(s, &tc)
}

/// Whether `s` begins with `t`.
pub fn starts_with_chars(s: &[char], t: &[char]) -> (b: bool)
    ensures
        b == starts_with(s@, t@),
{
    if t.len() > s.len() {
        false
    } else {
        matches_at(s, t, 0)
    }
}

/// Index of the first occurrence of `t` in `s`.
pub fn find_text_chars(s: &[char], t: &[char]) -> (r: Option<usize>)
    ensures
        match r {
            None => find_text(s@, t@) is None,
            Some(k) => find_text(s@, t@) == Some(k as int) && k + t@.len() <= s@.len(),
        },
{
    if t.len() > s.len() {
        return None;
    }
    let last: usize = s.len() - t.len();
    let mut i: usize = 0;
    while i <= last
        invariant
            last == s@.len() - t@.len(),
            find_text_from(s@, t@, i as int) == find_text(s@, t@),
        decreases last + 1 - i,
    {
        if matches_at(s, t, i) {
            return Some(i);
        }
        if i == last {
            proof {
                assert(find_text_from(s@, t@, i + 1) is None);
            }
            return None;
        }
        i += 1;
    }
    None
}

/// The trimmed lines of `s` that are not empty.
pub fn lines_of(s: &[char]) -> (r: Vec<Vec<char>>)
    ensures
        views(r@) == lines(s@),
{
    let t = trim_chars(s);
    let parts = split_chars(&t, '\n');
    let ghost all = trim_all(views(parts@));
    let mut out: Vec<Vec<char>> = Vec::new();
    let mut i: usize = 0;
    proof {
        assert(all.subrange(0, 0) =~= Seq::<Seq<char>>::empty());
        assert(views(out@) =~= Seq::<Seq<char>>::empty());
    }
    while i < parts.len()
        invariant
            i <= parts@.len(),
            all == trim_all(views(parts@)),
            views(out@) == keep_nonempty(all.subrange(0, i as int)),
        decreases parts.len() - i,
    {
        let line = trim_chars(&parts[i]);
        let ghost old_out = out@;
        proof {
            assert(all.subrange(0, i + 1).drop_last() =~= all.subrange(0, i as int));
            assert(all[i as int] == line@);
        }
        if line.len() > 0 {
            out.push(line);
            proof {
                assert(views(out@) =~= views(old_out).push(line@));
            }
        }
        i += 1;
    }
    proof {
        assert(all.subrange(0, parts@.len() as int) =~= all);
    }
    out
}

/// Each piece of `p`, trimmed.
pub fn trim_each(p: &Vec<Vec<char>>) -> (r: Vec<Vec<char>>)
    ensures
        views(r@) == trim_all(views(p@)),
{
    let mut out: Vec<Vec<char>> = Vec::new();
    let mut i: usize = 0;
    while i < p.len()
        invariant
            i <= p@.len(),
            views(out@) == trim_all(views(p@)).subrange(0, i as int),
        decreases p.len() - i,
    {
        let t = trim_chars(&p[i]);
        let ghost old_out = out@;
        proof {
            assert(views(p@)[i as int] == p@[i as int]@);
        }
        out.push(t);
        i += 1;
        proof {
            assert(views(out@) =~= views(old_out).push(t@));
            assert(views(out@) =~= trim_all(views(p@)).subrange(0, i as int));
        }
    }
    proof {
        assert(trim_all(views(p@)).subrange(0, p@.len() as int) =~= trim_all(views(p@)));
    }
    out
}

/// The trimmed pieces of the trimmed `s` between occurrences of `c`.
pub fn fields_of(s: &[char], c: char) -> (r: Vec<Vec<char>>)
    ensures
        views(r@) == trim_all(split(trim(s@), c)),
{
    let t = trim_chars(s);
    let p = split_chars(&t, c);
    trim_each(&p)
}

/// The piece `k` of `p`, if there is one.
pub open spec fn piece(p: Seq<Seq<char>>, k: int) -> Option<Seq<char>> {
    if 0 <= k < p.len() {
        Some(p[k])
    } else {
        None
    }
}

/// The piece `k` of `p`, if there is one.
pub fn piece_at(p: &Vec<Vec<char>>, k: usize) -> (r: Option<&Vec<char>>)
    ensures
        match r {
            None => piece(views(p@), k as int) is None,
            Some(v) => piece(views(p@), k as int) == Some(v@),
        },
{
    if k < p.len() {
        Some(&p[k])
    } else {
        None
    }
}

/// The views of a sequence of strings.
pub open spec fn string_views(v: Seq<String>) -> Seq<Seq<char>> {
    Seq::new(v.len(), |i: int| v[i]@)
}

/// The strings of `v` with `sep` between each two.
pub fn join_strings(v: &Vec<String>, sep: &str) -> (r: String)
    ensures
        r@ == join(string_views(v@), sep@),
{
    let mut buf = String::new();
    let mut i: usize = 0;
    proof {
        assert(string_views(v@).subrange(0, 0) =~= Seq::<Seq<char>>::empty());
    }
    while i < v.len()
        invariant
            i <= v@.len(),
            buf@ == join(string_views(v@).subrange(0, i as int), sep@),
        decreases v.len() - i,
    {
        if i > 0 {
            buf.append(sep);
        }
        buf.append(v[i].as_str());
        proof {
            let w = string_views(v@).subrange(0, i + 1);
            assert(w.drop_last() =~= string_views(v@).subrange(0, i as int));
            if i == 0 {
                assert(buf@ =~= w[0]);
            }
            assert(buf@ =~= join(w, sep@));
        }
        i += 1;
    }
    proof {
        assert(string_views(v@).subrange(0, v@.len() as int) =~= string_views(v@));
    }
    buf
}

/// The pieces of `s` between occurrences of `c`, as strings.
pub fn split_strings(s: &[char], c: char) -> (r: Vec<String>)
    ensures
        string_views(r@) == split(s@, c),
{
    let parts = split_chars(s, c);
    let mut out: Vec<String> = Vec::new();
    let mut i: usize = 0;
    while i < parts.len()
        invariant
            i <= parts@.len(),
            string_views(out@) == views(parts@).subrange(0, i as int),
        decreases parts.len() - i,
    {
        let t = string_of(&parts[i]);
        let ghost old_out = out@;
        out.push(t);
        i += 1;
        proof {
            assert(string_views(out@) =~= string_views(old_out).push(t@));
            assert(string_views(out@) =~= views(parts@).subrange(0, i as int));
        }
    }
    proof {
        assert(views(parts@).subrange(0, parts@.len() as int) =~= views(parts@));
    }
    out
}

/// Text without `c` is one piece.
pub proof fn lemma_split_without(a: Seq<char>, c: char)
    requires
        forall|i: int| 0 <= i < a.len() ==> a[i] != c,
    ensures
        split(a, c) == seq![a],
    decreases a.len(),
{
    if a.len() > 0 {
        lemma_split_without(a.drop_last(), c);
        assert(a.drop_last().push(a.last()) =~= a);
        assert(a.last() != c);
        assert(seq![a.drop_last()].update(0, a) =~= seq![a]);
    } else {
        assert(a =~= Seq::<char>::empty());
    }
}

/// Splitting two texts joined by `c` splits each of them.
pub proof fn lemma_split_joined(a: Seq<char>, b: Seq<char>, c: char)
    ensures
        split(a + seq![c] + b, c) == split(a, c) + split(b, c),
    decreases b.len(),
{
    let w = a + seq![c] + b;
    lemma_split_nonempty(a, c);
    if b.len() == 0 {
        assert(w.drop_last() =~= a);
        assert(split(b, c) =~= seq![Seq::<char>::empty()]);
        assert(split(a, c).push(Seq::empty()) =~= split(a, c) + split(b, c));
    } else {
        lemma_split_joined(a, b.drop_last(), c);
        lemma_split_nonempty(b.drop_last(), c);
        assert(w.drop_last() =~= a + seq![c] + b.drop_last());
        assert(w.last() == b.last());
        let p = split(a, c);
        let q = split(b.drop_last(), c);
        if b.last() == c {
            assert((p + q).push(Seq::empty()) =~= p + q.push(Seq::empty()));
        } else {
            assert((p + q).update((p + q).len() - 1, (p + q).last().push(b.last())) =~= p
                + q.update(q.len() - 1, q.last().push(b.last())));
        }
    }
}

/// Text whose first and last characters are not white space is its own trim.
pub proof fn lemma_trim_unchanged(s: Seq<char>)
    requires
        s.len() > 0,
        !is_space(s[0]),
        !is_space(s.last()),
    ensures
        trim(s) == s,
{
    assert(skip_front(s, None, 0) == 0);
    assert(skip_back(s, None, s.len() as int) == s.len());
    assert(s.subrange(0, s.len() as int) =~= s);
}

/// Whether `t` can stand as one line of a list: not empty, no newline, and
/// no white space at either end.
pub open spec fn line_shaped(t: Seq<char>) -> bool {
    &&& t.len() > 0
    &&& !is_space(t[0])
    &&& !is_space(t.last())
    &&& forall|j: int| 0 <= j < t.len() ==> t[j] != '\n'
}

/// Splitting pieces joined by `c` gives the pieces back, when none holds `c`.
pub proof fn lemma_split_join(p: Seq<Seq<char>>, c: char)
    requires
        p.len() >= 1,
        forall|i: int, j: int| 0 <= i < p.len() && 0 <= j < p[i].len() ==> p[i][j] != c,
    ensures
        split(join(p, seq![c]), c) == p,
    decreases p.len(),
{
    lemma_split_without(p.last(), c);
    if p.len() == 1 {
        lemma_split_without(p[0], c);
    } else {
        lemma_split_join(p.drop_last(), c);
        lemma_split_joined(join(p.drop_last(), seq![c]), p.last(), c);
        assert(p.drop_last() + seq![p.last()] =~= p);
    }
}

/// The first piece of a join starts it, and the last piece ends it.
pub proof fn lemma_join_ends(p: Seq<Seq<char>>, sep: Seq<char>)
    requires
        p.len() >= 1,
        forall|i: int| 0 <= i < p.len() ==> (#[trigger] p[i]).len() > 0,
    ensures
        join(p, sep).len() > 0,
        join(p, sep)[0] == p[0][0],
        join(p, sep).last() == p.last().last(),
    decreases p.len(),
{
    if p.len() > 1 {
        lemma_join_ends(p.drop_last(), sep);
        assert(p.drop_last()[0] == p[0]);
    }
}

/// Pieces that are their own trim are left as they are by trimming each.
pub proof fn lemma_trim_all_unchanged(p: Seq<Seq<char>>)
    requires
        forall|i: int| 0 <= i < p.len() ==> line_shaped(#[trigger] p[i]),
    ensures
        trim_all(p) == p,
{
    assert forall|i: int| 0 <= i < p.len() implies trim(#[trigger] p[i]) == p[i] by {
        lemma_trim_unchanged(p[i]);
    }
    assert(trim_all(p) =~= p);
}

/// Keeping the pieces that are not empty keeps all of them when none is.
pub proof fn lemma_keep_nonempty_all(p: Seq<Seq<char>>)
    requires
        forall|i: int| 0 <= i < p.len() ==> (#[trigger] p[i]).len() > 0,
    ensures
        keep_nonempty(p) == p,
    decreases p.len(),
{
    if p.len() > 0 {
        lemma_keep_nonempty_all(p.drop_last());
        assert(p.drop_last().push(p.last()) =~= p);
    }
}

/// The lines of pieces joined by newlines, with a final newline, are the
/// pieces themselves when each has the shape of a line.
pub proof fn lemma_lines_of_joined(p: Seq<Seq<char>>)
    requires
        p.len() >= 1,
        forall|i: int| 0 <= i < p.len() ==> line_shaped(#[trigger] p[i]),
    ensures
        lines(join(p, seq!['\n']) + seq!['\n']) == p,
{
    let j = join(p, seq!['\n']);
    let s = j + seq!['\n'];
    assert(line_shaped(p[0]));
    assert(line_shaped(p.last()));
    lemma_join_ends(p, seq!['\n']);
    assert(s[0] == j[0]);
    assert(s[s.len() - 2] == j.last());
    assert(('\n' as u32) == 10);
    assert(is_space(s.last()));
    assert(skip_front(s, None, 0) == 0);
    assert(skip_back(s, None, s.len() - 1) == s.len() - 1);
    assert(skip_back(s, None, s.len() as int) == s.len() - 1);
    assert(trim(s) =~= j);
    lemma_split_join(p, '\n');
    lemma_trim_all_unchanged(p);
    lemma_keep_nonempty_all(p);
}

/// Joining one more piece adds the separator and the piece.
pub proof fn lemma_join_push(p: Seq<Seq<char>>, x: Seq<char>, sep: Seq<char>)
    requires
        p.len() >= 1,
    ensures
        join(p.push(x), sep) == join(p, sep) + sep + x,
{
    assert(p.push(x).drop_last() =~= p);
}

/// A join holds `c` only where a piece or the separator does.
pub proof fn lemma_join_avoids(p: Seq<Seq<char>>, sep: Seq<char>, c: char)
    requires
        forall|i: int, j: int| 0 <= i < p.len() && 0 <= j < p[i].len() ==> p[i][j] != c,
        forall|j: int| 0 <= j < sep.len() ==> sep[j] != c,
    ensures
        forall|j: int| 0 <= j < join(p, sep).len() ==> join(p, sep)[j] != c,
    decreases p.len(),
{
    if p.len() > 1 {
        lemma_join_avoids(p.drop_last(), sep, c);
        let a = join(p.drop_last(), sep);
        let w = a + sep + p.last();
        assert forall|j: int| 0 <= j < w.len() implies w[j] != c by {
            if j < a.len() {
            } else if j < a.len() + sep.len() {
                assert(w[j] == sep[j - a.len()]);
            } else {
                assert(w[j] == p.last()[j - a.len() - sep.len()]);
            }
        }
    } else if p.len() == 1 {
        assert(p[0] == join(p, sep));
    }
}

/// Trimming drops one space added at either end of a text that is its own trim.
pub proof fn lemma_trim_padded(x: Seq<char>)
    requires
        x.len() > 0,
        !is_space(x[0]),
        !is_space(x.last()),
    ensures
        trim(x + seq![' ']) == x,
        trim(seq![' '] + x) == x,
{
    let a = x + seq![' '];
    let b = seq![' '] + x;
    assert((' ' as u32) == 32);
    assert(skip_front(a, None, 0) == 0);
    assert(a[a.len() - 2] == x.last());
    assert(skip_back(a, None, a.len() - 1) == a.len() - 1);
    assert(skip_back(a, None, a.len() as int) == a.len() - 1);
    assert(a.subrange(0, a.len() - 1) =~= x);
    assert(b[1] == x[0]);
    assert(skip_front(b, None, 1) == 1);
    assert(skip_front(b, None, 0) == 1);
    assert(b.last() == x.last());
    assert(skip_back(b, None, b.len() as int) == b.len());
    assert(b.subrange(1, b.len() as int) =~= x);
}

/// Cutting at the first `c` after a text without `c` gives that text and the rest.
pub proof fn lemma_split_once_joined(a: Seq<char>, b: Seq<char>, c: char)
    requires
        forall|i: int| 0 <= i < a.len() ==> a[i] != c,
    ensures
        split_once(a + seq![c] + b, c) == Some((a, b)),
{
    let s = a + seq![c] + b;
    lemma_find_first_at(s, c, 0, a.len() as int);
    assert(s.subrange(0, a.len() as int) =~= a);
    assert(s.subrange(a.len() as int + 1, s.len() as int) =~= b);
}

proof fn lemma_find_first_at(s: Seq<char>, c: char, i: int, k: int)
    requires
        0 <= i <= k < s.len(),
        s[k] == c,
        forall|j: int| i <= j < k ==> s[j] != c,
    ensures
        find_from(s, c, i) == k,
    decreases k - i,
{
    if i < k {
        lemma_find_first_at(s, c, i + 1, k);
    }
}

/// The first piece of `splitn` over a text that starts with a piece without `c`.
pub proof fn lemma_splitn_joined(a: Seq<char>, b: Seq<char>, n: nat, c: char)
    requires
        n >= 2,
        forall|i: int| 0 <= i < a.len() ==> a[i] != c,
    ensures
        splitn(a + seq![c] + b, n, c) == seq![a] + splitn(b, (n - 1) as nat, c),
{
    lemma_split_once_joined(a, b, c);
}

/// The empty text is its own trim.
pub proof fn lemma_trim_empty()
    ensures
        trim(Seq::<char>::empty()) == Seq::<char>::empty(),
{
    assert(skip_front(Seq::<char>::empty(), None, 0) == 0);
}

} // verus!
