//! Line handling shared by the configuration readers and writers.

use vstd::prelude::*;

verus! {

/// Pieces of `s` separated by `'\n'`; there is always at least one.
pub open spec fn pieces(s: Seq<char>) -> Seq<Seq<char>>
    decreases s.len(),
{
    if s.len() == 0 {
        seq![Seq::<char>::empty()]
    } else {
        let p = pieces(s.drop_last());
        if s.last() == '\n' {
            p.push(Seq::<char>::empty())
        } else {
            p.update(p.len() - 1, p.last().push(s.last()))
        }
    }
}

/// A line that was ended by `"\r\n"` loses its `'\r'`.
pub open spec fn strip_cr(l: Seq<char>) -> Seq<char> {
    if l.len() > 0 && l.last() == '\r' {
        l.drop_last()
    } else {
        l
    }
}

/// The lines of a text: split at `'\n'`, a `'\r'` before the `'\n'` dropped,
/// and no empty line after a final line ending.
pub open spec fn lines_of(s: Seq<char>) -> Seq<Seq<char>> {
    let p = pieces(s);
    let ended = p.drop_last().map_values(|l: Seq<char>| strip_cr(l));
    if p.last().len() == 0 {
        ended
    } else {
        ended.push(p.last())
    }
}

/// The views of a vector of strings.
pub open spec fn views(v: Seq<String>) -> Seq<Seq<char>> {
    v.map_values(|s: String| s@)
}

/// Relies on String::push: appends one character.
#[verifier::external_body]
pub(crate) fn push_char(s: &mut String, c: char)
    ensures
        final(s)@ == old(s)@.push(c),
{
    s.push(c)
}

proof fn lemma_pieces_nonempty(s: Seq<char>)
    ensures
        pieces(s).len() >= 1,
    decreases s.len(),
{
    if s.len() > 0 {
        lemma_pieces_nonempty(s.drop_last());
    }
}

/// Splits a text into its lines, as `str::lines` does.
pub fn split_lines(text: &str) -> (r: Vec<String>)
    ensures
        views(r@) == lines_of(text@),
{
    let mut done: Vec<String> = Vec::new();
    let mut cur = String::new();
    let mut held_cr: bool = false;
    let ghost mut seen: Seq<char> = Seq::empty();
    for c in it: text.chars()
        invariant
            it.seq() == text@,
            seen == text@.take(it.index() as int),
            pieces(seen).len() >= 1,
            views(done@) == pieces(seen).drop_last().map_values(|l: Seq<char>| strip_cr(l)),
            pieces(seen).last() == if held_cr { cur@.push('\r') } else { cur@ },
            !held_cr ==> cur@.len() == 0 || cur@.last() != '\r',
    {
        let ghost before = seen;
        proof {
            seen = seen.push(c);
            assert(seen.drop_last() == before);
            assert(seen == text@.take(it.index() + 1));
        }
        if c == '\n' {
            proof {
                let p = pieces(before);
                assert(cur@.push('\r').drop_last() == cur@);
                assert(strip_cr(p.last()) == cur@);
                assert(pieces(seen).drop_last() == p);
                assert(views(done@.push(cur)) == views(done@).push(cur@));
            }
            done.push(cur);
            cur = String::new();
            held_cr = false;
        } else {
            if held_cr {
                push_char(&mut cur, '\r');
            }
            if c == '\r' {
                held_cr = true;
            } else {
                push_char(&mut cur, c);
                held_cr = false;
            }
            proof {
                let p = pieces(before);
                assert(pieces(seen).drop_last() == p.drop_last());
            }
        }
    }
    proof {
        assert(text@.take(text@.len() as int) == text@);
    }
    if held_cr {
        push_char(&mut cur, '\r');
    }
    if cur.as_str().unicode_len() > 0 {
        proof {
            assert(views(done@.push(cur)) == views(done@).push(cur@));
        }
        done.push(cur);
    }
    done
}

/// `s` begins with `p`.
pub open spec fn starts_with(s: Seq<char>, p: Seq<char>) -> bool {
    p.len() <= s.len() && s.subrange(0, p.len() as int) == p
}

/// `s` ends with `p`.
pub open spec fn ends_with(s: Seq<char>, p: Seq<char>) -> bool {
    p.len() <= s.len() && s.subrange(s.len() - p.len(), s.len() as int) == p
}

/// The text of each line followed by a `'\n'`.
pub open spec fn joined(lines: Seq<Seq<char>>) -> Seq<char>
    decreases lines.len(),
{
    if lines.len() == 0 {
        Seq::empty()
    } else {
        joined(lines.drop_last()) + lines.last().push('\n')
    }
}

/// Relies on String::push_str: appends `t`.
#[verifier::external_body]
pub(crate) fn push_str(s: &mut String, t: &str)
    ensures
        final(s)@ == old(s)@ + t@,
{
    s.push_str(t)
}

/// The characters of `s`, one by one.
pub fn char_vec(s: &str) -> (r: Vec<char>)
    ensures
        r@ == s@,
{
    let mut r: Vec<char> = Vec::new();
    for c in it: s.chars()
        invariant
            it.seq() == s@,
            r@ == s@.take(it.index() as int),
    {
        proof {
            assert(s@.take(it.index() + 1) == s@.take(it.index() as int).push(c));
        }
        r.push(c);
    }
    proof {
        assert(s@.take(s@.len() as int) == s@);
    }
    r
}

/// Whether `s` begins with `p`.
pub fn has_prefix(s: &str, p: &str) -> (r: bool)
    ensures
        r == starts_with(s@, p@),
{
    let sv = char_vec(s);
    let pv = char_vec(p);
    if pv.len() > sv.len() {
        return false;
    }
    let mut i: usize = 0;
    while i < pv.len()
        invariant
            pv.len() <= sv.len(),
            sv@ == s@,
            pv@ == p@,
            i <= pv.len(),
            forall|j: int| 0 <= j < i ==> sv@[j] == pv@[j],
        decreases pv.len() - i,
    {
        if sv[i] != pv[i] {
            assert(s@.subrange(0, p@.len() as int)[i as int] != p@[i as int]);
            return false;
        }
        i = i + 1;
    }
    assert(s@.subrange(0, p@.len() as int) =~= p@);
    true
}

/// Whether `s` ends with `p`.
pub fn has_suffix(s: &str, p: &str) -> (r: bool)
    ensures
        r == ends_with(s@, p@),
{
    let sv = char_vec(s);
    let pv = char_vec(p);
    if pv.len() > sv.len() {
        return false;
    }
    let off = sv.len() - pv.len();
    let mut i: usize = 0;
    while i < pv.len()
        invariant
            pv.len() <= sv.len(),
            off == sv.len() - pv.len(),
            sv@ == s@,
            pv@ == p@,
            i <= pv.len(),
            forall|j: int| 0 <= j < i ==> sv@[off + j] == pv@[j],
        decreases pv.len() - i,
    {
        if sv[off + i] != pv[i] {
            assert(s@.subrange(off as int, s@.len() as int)[i as int] != p@[i as int]);
            return false;
        }
        i = i + 1;
    }
    assert(s@.subrange(off as int, s@.len() as int) =~= p@);
    true
}

/// Each line of `lines` followed by a line ending.
pub fn join_lines(lines: &Vec<String>) -> (r: String)
    ensures
        r@ == joined(views(lines@)),
{
    let mut r = String::new();
    let mut i: usize = 0;
    while i < lines.len()
        invariant
            i <= lines.len(),
            r@ == joined(views(lines@.take(i as int))),
        decreases lines.len() - i,
    {
        proof {
            let t = views(lines@.take(i + 1));
            assert(t.drop_last() =~= views(lines@.take(i as int)));
            assert(t.last() == lines@[i as int]@);
        }
        push_str(&mut r, lines[i].as_str());
        push_char(&mut r, '\n');
        i = i + 1;
    }
    proof {
        assert(lines@.take(lines@.len() as int) == lines@);
    }
    r
}

pub open spec fn is_digit(c: char) -> bool {
    '0' <= c <= '9'
}

pub open spec fn all_digits(d: Seq<char>) -> bool {
    forall|i: int| 0 <= i < d.len() ==> is_digit(#[trigger] d[i])
}

/// The decimal value of a run of digits.
pub open spec fn digits_value(d: Seq<char>) -> int
    decreases d.len(),
{
    if d.len() == 0 {
        0
    } else {
        digits_value(d.drop_last()) * 10 + (d.last() as int - '0' as int)
    }
}

/// The integer that a text spells: an optional sign, then one or more
/// decimal digits, nothing else.
pub open spec fn spelled_int(s: Seq<char>) -> Option<int> {
    if s.len() > 0 && (s[0] == '+' || s[0] == '-') {
        let d = s.drop_first();
        if d.len() > 0 && all_digits(d) {
            Some(if s[0] == '-' { -digits_value(d) } else { digits_value(d) })
        } else {
            None
        }
    } else if s.len() > 0 && all_digits(s) {
        Some(digits_value(s))
    } else {
        None
    }
}

/// What `i32::from_str` gives for a text: the integer it spells, when that
/// fits.
pub open spec fn i32_of(s: Seq<char>) -> Option<i32> {
    match spelled_int(s) {
        Some(v) => if i32::MIN <= v <= i32::MAX { Some(v as i32) } else { None },
        None => None,
    }
}

proof fn lemma_digits_value_grows(d: Seq<char>, k: int)
    requires
        all_digits(d),
        0 <= k <= d.len(),
    ensures
        digits_value(d.take(k)) <= digits_value(d),
        0 <= digits_value(d.take(k)),
    decreases d.len() - k,
{
    if k < d.len() {
        lemma_digits_value_grows(d, k + 1);
        assert(d.take(k + 1).drop_last() == d.take(k));
        assert(d.take(k + 1).last() == d[k]);
        assert(is_digit(d[k]));
    } else {
        assert(d.take(k) == d);
        lemma_digits_value_nonneg(d);
    }
}

proof fn lemma_digits_value_nonneg(d: Seq<char>)
    requires
        all_digits(d),
    ensures
        0 <= digits_value(d),
    decreases d.len(),
{
    if d.len() > 0 {
        assert(is_digit(d[d.len() - 1]));
        lemma_digits_value_nonneg(d.drop_last());
    }
}

proof fn lemma_spelled_int_split(s: Seq<char>, start: int)
    requires
        s.len() > start,
        start == if s[0] == '+' || s[0] == '-' { 1int } else { 0int },
    ensures
        spelled_int(s) == if all_digits(s.skip(start)) {
            Some(if s[0] == '-' { -digits_value(s.skip(start)) } else { digits_value(s.skip(start)) })
        } else {
            None::<int>
        },
{
    if start == 1 {
        assert(s.skip(1) == s.drop_first());
    } else {
        assert(s.skip(0) == s);
    }
}

/// Reads an `i32` from text, as `i32::from_str` does.
pub fn parse_i32(s: &str) -> (r: Option<i32>)
    ensures
        r == i32_of(s@),
{
    let v = char_vec(s);
    let n = v.len();
    if n == 0 {
        return None;
    }
    let negative = v[0] == '-';
    let start: usize = if v[0] == '+' || v[0] == '-' { 1 } else { 0 };
    if start == n {
        return None;
    }
    let ghost d = s@.skip(start as int);
    proof {
        if start == 1 {
            assert(d == s@.drop_first());
        } else {
            assert(d == s@);
        }
    }
    let mut acc: i64 = 0;
    let mut i: usize = start;
    while i < n
        invariant
            v@ == s@,
            n == v.len(),
            start <= i <= n,
            d == s@.skip(start as int),
            all_digits(d.take(i - start)),
            acc == digits_value(d.take(i - start)),
            0 <= acc <= 2147483648,
            n > start,
            start == if s@[0] == '+' || s@[0] == '-' { 1int } else { 0int },
            negative == (s@[0] == '-'),
        decreases n - i,
    {
        let c = v[i];
        if !('0' <= c && c <= '9') {
            assert(d[i - start] == c);
            assert(!all_digits(d));
            proof {
                lemma_spelled_int_split(s@, start as int);
            }
            return None;
        }
        proof {
            assert(d.take(i - start + 1).drop_last() == d.take(i - start));
            assert(d.take(i - start + 1).last() == c);
            assert forall|j: int| 0 <= j < d.take(i - start + 1).len() implies is_digit(
                #[trigger] d.take(i - start + 1)[j],
            ) by {
                if j < i - start {
                    assert(d.take(i - start + 1)[j] == d.take(i - start)[j]);
                }
            }
        }
        let next = acc * 10 + (c as u32 - '0' as u32) as i64;
        if next > 2147483648 {
            proof {
                if all_digits(d) {
                    lemma_digits_value_grows(d, i - start + 1);
                }
                lemma_spelled_int_split(s@, start as int);
            }
            return None;
        }
        acc = next;
        i = i + 1;
    }
    proof {
        assert(d.take(n - start) == d);
        lemma_spelled_int_split(s@, start as int);
    }
    if negative {
        Some((0 - acc) as i32)
    } else if acc <= 2147483647 {
        Some(acc as i32)
    } else {
        None
    }
}

/// Whether two texts are the same.
pub fn same_text(a: &str, b: &str) -> (r: bool)
    ensures
        r == (a@ == b@),
{
    let av = char_vec(a);
    let bv = char_vec(b);
    if av.len() != bv.len() {
        return false;
    }
    let mut i: usize = 0;
    while i < av.len()
        invariant
            av@ == a@,
            bv@ == b@,
            av.len() == bv.len(),
            i <= av.len(),
            forall|j: int| 0 <= j < i ==> av@[j] == bv@[j],
        decreases av.len() - i,
    {
        if av[i] != bv[i] {
            return false;
        }
        i = i + 1;
    }
    assert(a@ =~= b@);
    true
}

/// A `String` holding `t`.
pub fn owned(t: &str) -> (r: String)
    ensures
        r@ == t@,
{
    let mut r = String::new();
    push_str(&mut r, t);
    assert(r@ =~= t@);
    r
}

/// A line that survives being written out and read back: it holds no
/// `'\n'` and does not end in `'\r'`.
pub open spec fn is_clean_line(l: Seq<char>) -> bool {
    &&& forall|i: int| 0 <= i < l.len() ==> #[trigger] l[i] != '\n'
    &&& (l.len() > 0 ==> l.last() != '\r')
}

proof fn lemma_pieces_append(a: Seq<char>, b: Seq<char>)
    requires
        forall|i: int| 0 <= i < b.len() ==> #[trigger] b[i] != '\n',
    ensures
        pieces(a).len() >= 1,
        pieces(a + b) == pieces(a).update(pieces(a).len() - 1, pieces(a).last() + b),
    decreases b.len(),
{
    lemma_pieces_nonempty(a);
    if b.len() == 0 {
        assert(a + b == a);
        assert(pieces(a).last() + b == pieces(a).last());
        assert(pieces(a).update(pieces(a).len() - 1, pieces(a).last()) == pieces(a));
    } else {
        let bf = b.drop_last();
        lemma_pieces_append(a, bf);
        assert((a + b).drop_last() == a + bf);
        assert((a + b).last() == b.last());
        assert(b.last() == b[b.len() - 1]);
        assert(pieces(a).last() + bf + seq![b.last()] == pieces(a).last() + b);
        assert((pieces(a).last() + bf).push(b.last()) == pieces(a).last() + b);
    }
}

/// Writing clean lines out and reading them back gives the same lines.
pub proof fn lemma_lines_of_joined(ls: Seq<Seq<char>>)
    requires
        forall|i: int| 0 <= i < ls.len() ==> is_clean_line(#[trigger] ls[i]),
    ensures
        pieces(joined(ls)) == ls.push(Seq::<char>::empty()),
        lines_of(joined(ls)) == ls,
    decreases ls.len(),
{
    if ls.len() > 0 {
        let front = ls.drop_last();
        let l = ls.last();
        assert forall|i: int| 0 <= i < front.len() implies is_clean_line(#[trigger] front[i]) by {
            assert(front[i] == ls[i]);
        }
        lemma_lines_of_joined(front);
        assert(is_clean_line(ls[ls.len() - 1]));
        let j = joined(front);
        assert(joined(ls) == j + l.push('\n'));
        assert(j + l.push('\n') == (j + l).push('\n'));
        lemma_pieces_append(j, l);
        assert(((j + l).push('\n')).drop_last() == j + l);
        assert(Seq::<char>::empty() + l == l);
        assert(pieces(joined(ls)) =~= ls.push(Seq::<char>::empty()));
    }
    let p = pieces(joined(ls));
    assert(p.drop_last() == ls);
    assert(p.drop_last().map_values(|l: Seq<char>| strip_cr(l)) =~= ls);
}

/// ASCII lowercase of one character: `A`..`Z` become `a`..`z`, every other
/// character is kept.
pub open spec fn ascii_lower(c: char) -> char {
    if 'A' <= c <= 'Z' {
        ((c as u32) + 32) as char
    } else {
        c
    }
}

pub open spec fn ascii_lowercase(s: Seq<char>) -> Seq<char> {
    s.map_values(|c: char| ascii_lower(c))
}

fn lower_char(c: char) -> (r: char)
    ensures
        r == ascii_lower(c),
{
    if 'A' <= c && c <= 'Z' {
        ((c as u8) + 32) as char
    } else {
        c
    }
}

/// The text with ASCII letters lowered, as `str::to_ascii_lowercase` gives.
pub fn to_ascii_lowercase(s: &str) -> (r: String)
    ensures
        r@ == ascii_lowercase(s@),
{
    let mut r = String::new();
    for c in it: s.chars()
        invariant
            it.seq() == s@,
            r@ == ascii_lowercase(s@.take(it.index() as int)),
    {
        proof {
            assert(s@.take(it.index() + 1) == s@.take(it.index() as int).push(c));
            assert(ascii_lowercase(s@.take(it.index() + 1)) =~= ascii_lowercase(s@.take(it.index() as int)).push(ascii_lower(c)));
        }
        push_char(&mut r, lower_char(c));
    }
    proof {
        assert(s@.take(s@.len() as int) == s@);
    }
    r
}

} // verus!
