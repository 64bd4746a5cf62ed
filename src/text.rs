//! Character-level helpers on strings, stated over `Seq<char>` views.

use vstd::prelude::*;

verus! {

/// Relies on `String::push`: it appends one character at the end.
pub assume_specification[ String::push ](s: &mut String, ch: char)
    ensures
        final(s)@ == old(s)@.push(ch),
;

/// The characters of `s`, in order.
pub fn chars_of(s: &str) -> (r: Vec<char>)
    ensures
        r@ == s@,
{
    let mut out: Vec<char> = Vec::new();
    for c in it: s.chars()
        invariant
            out@ == it.seq().subrange(0, it.index() as int),
    {
        out.push(c);
    }
    out
}

/// A string holding exactly the characters `v`.
pub fn string_of(v: &[char]) -> (r: String)
    ensures
        r@ == v@,
{
    let mut out = String::new();
    let mut i: usize = 0;
    while i < v.len()
        invariant
            i <= v.len(),
            out@ == v@.subrange(0, i as int),
        decreases v.len() - i,
    {
        out.push(v[i]);
        i += 1;
        proof {
            assert(v@.subrange(0, i as int) == v@.subrange(0, i - 1).push(v@[i - 1]));
        }
    }
    proof {
        assert(v@.subrange(0, v@.len() as int) == v@);
    }
    out
}

/// The character views of a sequence of strings.
pub open spec fn views(v: Seq<String>) -> Seq<Seq<char>> {
    v.map_values(|s: String| s@)
}

/// `t` occurs in `s` at position `i`.
pub open spec fn occurs_at(s: Seq<char>, t: Seq<char>, i: int) -> bool {
    0 <= i && i + t.len() <= s.len() && s.subrange(i, i + t.len()) == t
}

/// `t` occurs somewhere in `s`.
pub open spec fn contains_seq(s: Seq<char>, t: Seq<char>) -> bool {
    exists|i: int| occurs_at(s, t, i)
}

pub open spec fn starts_with_seq(s: Seq<char>, p: Seq<char>) -> bool {
    occurs_at(s, p, 0)
}

pub open spec fn ends_with_seq(s: Seq<char>, p: Seq<char>) -> bool {
    occurs_at(s, p, s.len() - p.len())
}

/// The pieces of `s` between occurrences of `c`, left to right; always at
/// least one piece.
pub open spec fn split_on(s: Seq<char>, c: char) -> Seq<Seq<char>>
    decreases s.len(),
{
    if s.len() == 0 {
        seq![Seq::empty()]
    } else {
        let rest = split_on(s.drop_last(), c);
        if s.last() == c {
            rest.push(Seq::empty())
        } else {
            rest.update(rest.len() - 1, rest.last().push(s.last()))
        }
    }
}

/// The pieces joined with `sep` between neighbours.
pub open spec fn join_seq(ps: Seq<Seq<char>>, sep: Seq<char>) -> Seq<char>
    decreases ps.len(),
{
    if ps.len() == 0 {
        Seq::empty()
    } else if ps.len() == 1 {
        ps[0]
    } else {
        join_seq(ps.drop_last(), sep) + sep + ps.last()
    }
}

/// Exact comparison of two character sequences.
pub fn str_eq(a: &str, b: &str) -> (r: bool)
    ensures
        r == (a@ == b@),
{
    let x = chars_of(a);
    let y = chars_of(b);
    if x.len() != y.len() {
        return false;
    }
    let mut i: usize = 0;
    while i < x.len()
        invariant
            x@ == a@,
            y@ == b@,
            x.len() == y.len(),
            i <= x.len(),
            forall|k: int| 0 <= k < i ==> x@[k] == y@[k],
        decreases x.len() - i,
    {
        if x[i] != y[i] {
            return false;
        }
        i += 1;
    }
    proof {
        assert(x@ =~= y@);
    }
    true
}

/// Whether `t` occurs in `s` at position `i`.
pub fn occurs_at_exec(s: &[char], t: &[char], i: usize) -> (r: bool)
    ensures
        r == occurs_at(s@, t@, i as int),
{
    if i > s.len() || t.len() > s.len() - i {
        return false;
    }
    let mut k: usize = 0;
    while k < t.len()
        invariant
            i + t.len() <= s.len(),
            k <= t.len(),
            forall|j: int| 0 <= j < k ==> s@[i + j] == t@[j],
        decreases t.len() - k,
    {
        if s[i + k] != t[k] {
            assert(s@.subrange(i as int, i + t.len())[k as int] != t@[k as int]);
            return false;
        }
        k += 1;
    }
    proof {
        assert(s@.subrange(i as int, i + t.len()) =~= t@);
    }
    true
}

/// Whether `t` occurs somewhere in `s`.
pub fn contains_str(s: &str, t: &str) -> (r: bool)
    ensures
        r == contains_seq(s@, t@),
{
    let x = chars_of(s);
    let y = chars_of(t);
    if y.len() > x.len() {
        return false;
    }
    if y.len() == 0 {
        assert(occurs_at(s@, t@, 0)) by {
            assert(s@.subrange(0, 0) =~= t@);
        }
        return true;
    }
    let mut i: usize = 0;
    while i < x.len() - y.len() + 1
        invariant
            x@ == s@,
            y@ == t@,
            1 <= y.len() <= x.len(),
            i <= x.len() - y.len() + 1,
            forall|j: int| 0 <= j < i ==> !occurs_at(s@, t@, j),
        decreases x.len() - y.len() + 1 - i,
    {
        if occurs_at_exec(x.as_slice(), y.as_slice(), i) {
            return true;
        }
        i += 1;
    }
    false
}

pub fn starts_with_str(s: &str, p: &str) -> (r: bool)
    ensures
        r == starts_with_seq(s@, p@),
{
    let x = chars_of(s);
    let y = chars_of(p);
    occurs_at_exec(x.as_slice(), y.as_slice(), 0)
}

pub fn ends_with_str(s: &str, p: &str) -> (r: bool)
    ensures
        r == ends_with_seq(s@, p@),
{
    let x = chars_of(s);
    let y = chars_of(p);
    if y.len() > x.len() {
        return false;
    }
    occurs_at_exec(x.as_slice(), y.as_slice(), x.len() - y.len())
}

/// Splits `s` at every occurrence of `c`.
pub fn split_char(s: &str, c: char) -> (r: Vec<String>)
    ensures
        views(r@) == split_on(s@, c),
{
    let x = chars_of(s);
    let mut parts: Vec<String> = Vec::new();
    let mut cur: Vec<char> = Vec::new();
    let mut i: usize = 0;
    while i < x.len()
        invariant
            x@ == s@,
            i <= x.len(),
            views(parts@).push(cur@) == split_on(s@.subrange(0, i as int), c),
        decreases x.len() - i,
    {
        let ghost pre = s@.subrange(0, i as int);
        proof {
            assert(s@.subrange(0, i + 1).drop_last() == pre);
        }
        if x[i] == c {
            let piece = string_of(cur.as_slice());
            let ghost before = parts@;
            parts.push(piece);
            cur = Vec::new();
            proof {
                assert(views(parts@) =~= views(before).push(piece@));
            }
        } else {
            cur.push(x[i]);
        }
        i += 1;
        proof {
            assert(views(parts@).push(cur@) =~= split_on(s@.subrange(0, i as int), c));
        }
    }
    let last = string_of(cur.as_slice());
    let ghost before = parts@;
    parts.push(last);
    proof {
        assert(s@.subrange(0, x.len() as int) == s@);
        assert(views(parts@) =~= views(before).push(last@));
    }
    parts
}

/// Joins the strings with `sep` between neighbours.
pub fn join_with(parts: &[String], sep: &str) -> (r: String)
    ensures
        r@ == join_seq(views(parts@), sep@),
{
    let mut out = String::new();
    let mut i: usize = 0;
    while i < parts.len()
        invariant
            i <= parts.len(),
            out@ == join_seq(views(parts@.subrange(0, i as int)), sep@),
        decreases parts.len() - i,
    {
        let ghost pre = views(parts@.subrange(0, i as int));
        let ghost now = views(parts@.subrange(0, i + 1));
        proof {
            assert(now.drop_last() =~= pre);
            assert(now.last() == parts@[i as int]@);
        }
        if i > 0 {
            out.append(sep);
        }
        out.append(parts[i].as_str());
        i += 1;
        proof {
            if i == 1 {
                assert(now.len() == 1);
            }
        }
    }
    proof {
        assert(parts@.subrange(0, parts@.len() as int) =~= parts@);
    }
    out
}

/// The Unicode White_Space property, which `char::is_whitespace` tests:
/// tab to carriage return, space, next line, no-break space, ogham space,
/// the spaces from en quad to hair space, line and paragraph separators,
/// narrow no-break space, medium mathematical space and ideographic space.
pub open spec fn whitespace(c: char) -> bool {
    let u = c as u32;
    ||| (0x9 <= u && u <= 0xD)
    ||| u == 0x20
    ||| u == 0x85
    ||| u == 0xA0
    ||| u == 0x1680
    ||| (0x2000 <= u && u <= 0x200A)
    ||| u == 0x2028
    ||| u == 0x2029
    ||| u == 0x202F
    ||| u == 0x205F
    ||| u == 0x3000
}

/// Whether `c` is whitespace, as `char::is_whitespace` decides it.
fn char_is_whitespace(c: char) -> (r: bool)
    ensures
        r == whitespace(c),
{
    let u = c as u32;
    (0x9 <= u && u <= 0xD) || u == 0x20 || u == 0x85 || u == 0xA0 || u == 0x1680 || (0x2000 <= u
        && u <= 0x200A) || u == 0x2028 || u == 0x2029 || u == 0x202F || u == 0x205F || u == 0x3000
}

/// The number of leading characters of `s` that are whitespace.
pub open spec fn leading_ws(s: Seq<char>) -> nat
    decreases s.len(),
{
    if s.len() > 0 && whitespace(s[0]) {
        1 + leading_ws(s.drop_first())
    } else {
        0
    }
}

/// `s` without its leading whitespace.
pub open spec fn trim_start_seq(s: Seq<char>) -> Seq<char> {
    s.subrange(leading_ws(s) as int, s.len() as int)
}

/// The number of trailing characters of `s` that are whitespace.
pub open spec fn trailing_ws(s: Seq<char>) -> nat
    decreases s.len(),
{
    if s.len() > 0 && whitespace(s.last()) {
        1 + trailing_ws(s.drop_last())
    } else {
        0
    }
}

/// `s` without leading and trailing whitespace.
pub open spec fn trim_seq(s: Seq<char>) -> Seq<char> {
    let t = trim_start_seq(s);
    t.subrange(0, t.len() - trailing_ws(t))
}

proof fn lemma_leading_ws_bound(s: Seq<char>)
    ensures
        leading_ws(s) <= s.len(),
    decreases s.len(),
{
    if s.len() > 0 && whitespace(s[0]) {
        lemma_leading_ws_bound(s.drop_first());
    }
}

proof fn lemma_trailing_ws_bound(s: Seq<char>)
    ensures
        trailing_ws(s) <= s.len(),
    decreases s.len(),
{
    if s.len() > 0 && whitespace(s.last()) {
        lemma_trailing_ws_bound(s.drop_last());
    }
}

/// Index of the first character of `v` from `i` on that is not whitespace.
fn skip_leading_ws(v: &[char], i: usize) -> (r: usize)
    requires
        i <= v.len(),
    ensures
        r == i + leading_ws(v@.subrange(i as int, v@.len() as int)),
        r <= v.len(),
    decreases v.len() - i,
{
    let ghost rest = v@.subrange(i as int, v@.len() as int);
    if i < v.len() && char_is_whitespace(v[i]) {
        proof {
            assert(rest.drop_first() =~= v@.subrange(i + 1, v@.len() as int));
        }
        skip_leading_ws(v, i + 1)
    } else {
        proof {
            lemma_no_leading_ws(rest, i, v);
        }
        i
    }
}

proof fn lemma_no_leading_ws(rest: Seq<char>, i: usize, v: &[char])
    requires
        rest == v@.subrange(i as int, v@.len() as int),
        i <= v.len(),
        !(i < v.len() && whitespace(v@[i as int])),
    ensures
        leading_ws(rest) == 0,
{
    if rest.len() > 0 {
        assert(rest[0] == v@[i as int]);
    }
}

/// Count of trailing whitespace among the first `n` characters of `v`.
fn count_trailing_ws(v: &[char], n: usize) -> (r: usize)
    requires
        n <= v.len(),
    ensures
        r == trailing_ws(v@.subrange(0, n as int)),
        r <= n,
    decreases n,
{
    let ghost pre = v@.subrange(0, n as int);
    if n > 0 && char_is_whitespace(v[n - 1]) {
        proof {
            assert(pre.drop_last() =~= v@.subrange(0, n - 1));
        }
        let k = count_trailing_ws(v, n - 1);
        k + 1
    } else {
        0
    }
}

/// `s` without its leading whitespace.
pub fn trim_start_str(s: &str) -> (r: String)
    ensures
        r@ == trim_start_seq(s@),
{
    let x = chars_of(s);
    let k = skip_leading_ws(x.as_slice(), 0);
    proof {
        assert(x@.subrange(0, x@.len() as int) =~= x@);
    }
    let mut out: Vec<char> = Vec::new();
    let mut i: usize = k;
    while i < x.len()
        invariant
            k <= i <= x.len(),
            out@ == x@.subrange(k as int, i as int),
        decreases x.len() - i,
    {
        out.push(x[i]);
        i += 1;
        proof {
            assert(out@ =~= x@.subrange(k as int, i as int));
        }
    }
    string_of(out.as_slice())
}

/// `s` without leading and trailing whitespace.
pub fn trim_str(s: &str) -> (r: String)
    ensures
        r@ == trim_seq(s@),
{
    let t = trim_start_str(s);
    let y = chars_of(t.as_str());
    let k = count_trailing_ws(y.as_slice(), y.len());
    proof {
        assert(y@.subrange(0, y@.len() as int) =~= y@);
    }
    let mut out: Vec<char> = Vec::new();
    let mut i: usize = 0;
    while i < y.len() - k
        invariant
            k <= y.len(),
            i <= y.len() - k,
            out@ == y@.subrange(0, i as int),
        decreases y.len() - k - i,
    {
        out.push(y[i]);
        i += 1;
        proof {
            assert(out@ =~= y@.subrange(0, i as int));
        }
    }
    string_of(out.as_slice())
}

/// The decimal digit character of `d`.
pub open spec fn digit_char(d: nat) -> char {
    seq!['0', '1', '2', '3', '4', '5', '6', '7', '8', '9'][d as int]
}

/// The decimal representation of `n`, without leading zeros.
pub open spec fn decimal(n: nat) -> Seq<char>
    decreases n,
{
    if n < 10 {
        seq![digit_char(n)]
    } else {
        decimal(n / 10).push(digit_char(n % 10))
    }
}

fn digit_of(d: u64) -> (c: char)
    requires
        d < 10,
    ensures
        c == digit_char(d as nat),
{
    let digits = ['0', '1', '2', '3', '4', '5', '6', '7', '8', '9'];
    proof {
        assert(digits@ =~= seq!['0', '1', '2', '3', '4', '5', '6', '7', '8', '9']);
    }
    digits[d as usize]
}

fn decimal_chars(n: u64) -> (r: Vec<char>)
    ensures
        r@ == decimal(n as nat),
    decreases n,
{
    if n < 10 {
        let mut v: Vec<char> = Vec::new();
        v.push(digit_of(n));
        proof {
            assert(v@ =~= seq![digit_char(n as nat)]);
        }
        v
    } else {
        let mut v = decimal_chars(n / 10);
        v.push(digit_of(n % 10));
        v
    }
}

/// The decimal representation of `n`.
pub fn decimal_string(n: u64) -> (r: String)
    ensures
        r@ == decimal(n as nat),
{
    let v = decimal_chars(n);
    string_of(v.as_slice())
}

/// Concatenation of three strings.
pub fn concat3(a: &str, b: &str, c: &str) -> (r: String)
    ensures
        r@ == a@ + b@ + c@,
{
    let mut out = String::from_str(a);
    out.append(b);
    out.append(c);
    out
}

/// Concatenation of two strings.
pub fn concat2(a: &str, b: &str) -> (r: String)
    ensures
        r@ == a@ + b@,
{
    let mut out = String::from_str(a);
    out.append(b);
    out
}

/// Index of the first `c` in `s`, or the length of `s` when there is none.
pub open spec fn first_index(s: Seq<char>, c: char) -> int
    decreases s.len(),
{
    if s.len() == 0 {
        0
    } else if s[0] == c {
        0
    } else {
        1 + first_index(s.drop_first(), c)
    }
}

pub proof fn lemma_first_index(s: Seq<char>, c: char, i: int)
    requires
        0 <= i <= s.len(),
        forall|j: int| 0 <= j < i ==> s[j] != c,
        i == s.len() || s[i] == c,
    ensures
        first_index(s, c) == i,
    decreases i,
{
    if i > 0 {
        assert(s[0] != c);
        lemma_first_index(s.drop_first(), c, i - 1);
    }
}

/// Index of the first `c` in `v`, or the length of `v`.
pub fn find_char(v: &[char], c: char) -> (r: usize)
    ensures
        r as int == first_index(v@, c),
        r <= v.len(),
        r < v.len() ==> v@[r as int] == c,
        forall|j: int| 0 <= j < r ==> v@[j] != c,
{
    let mut i: usize = 0;
    while i < v.len()
        invariant
            i <= v.len(),
            forall|j: int| 0 <= j < i ==> v@[j] != c,
        decreases v.len() - i,
    {
        if v[i] == c {
            proof {
                lemma_first_index(v@, c, i as int);
            }
            return i;
        }
        i += 1;
    }
    proof {
        lemma_first_index(v@, c, i as int);
    }
    i
}

/// The characters `v[from..to]` as a string.
pub fn slice_string(v: &[char], from: usize, to: usize) -> (r: String)
    requires
        from <= to <= v.len(),
    ensures
        r@ == v@.subrange(from as int, to as int),
{
    let mut out: Vec<char> = Vec::new();
    let mut i: usize = from;
    while i < to
        invariant
            from <= i <= to,
            to <= v.len(),
            out@ == v@.subrange(from as int, i as int),
        decreases to - i,
    {
        out.push(v[i]);
        i += 1;
        proof {
            assert(out@ =~= v@.subrange(from as int, i as int));
        }
    }
    string_of(out.as_slice())
}

/// Index of the first `c` in `v` at or after `from`, or the length of `v`.
pub fn find_char_from(v: &[char], c: char, from: usize) -> (r: usize)
    requires
        from <= v.len(),
    ensures
        r - from == first_index(v@.subrange(from as int, v@.len() as int), c),
        from <= r <= v.len(),
{
    let ghost tail = v@.subrange(from as int, v@.len() as int);
    let mut i: usize = from;
    while i < v.len()
        invariant
            from <= i <= v.len(),
            tail == v@.subrange(from as int, v@.len() as int),
            forall|j: int| 0 <= j < i - from ==> tail[j] != c,
        decreases v.len() - i,
    {
        if v[i] == c {
            proof {
                lemma_first_index(tail, c, i - from);
            }
            return i;
        }
        i += 1;
    }
    proof {
        lemma_first_index(tail, c, i - from);
    }
    i
}

/// Position of the first occurrence of `t` in `s`, if any.
pub open spec fn first_occ(s: Seq<char>, t: Seq<char>) -> Option<int>
    decreases s.len(),
{
    if s.len() < t.len() {
        None
    } else if occurs_at(s, t, 0) {
        Some(0)
    } else if s.len() == 0 {
        None
    } else {
        match first_occ(s.drop_first(), t) {
            Some(k) => Some(k + 1),
            None => None,
        }
    }
}

proof fn lemma_first_occ(s: Seq<char>, t: Seq<char>, i: int)
    requires
        0 <= i <= s.len(),
        forall|j: int| 0 <= j < i ==> !occurs_at(s, t, j),
    ensures
        i + t.len() <= s.len() && occurs_at(s, t, i) ==> first_occ(s, t) == Some(i),
        i + t.len() > s.len() ==> first_occ(s, t) is None,
    decreases i,
{
    if i > 0 {
        let d = s.drop_first();
        assert forall|j: int| 0 <= j < i - 1 implies !occurs_at(d, t, j) by {
            assert(!occurs_at(s, t, j + 1));
            if occurs_at(d, t, j) {
                assert(d.subrange(j, j + t.len()) =~= s.subrange(j + 1, j + 1 + t.len()));
            }
        }
        lemma_first_occ(d, t, i - 1);
        if i + t.len() <= s.len() && occurs_at(s, t, i) {
            assert(d.subrange(i - 1, i - 1 + t.len()) =~= s.subrange(i, i + t.len()));
        }
        if s.len() >= t.len() {
            assert(!occurs_at(s, t, 0));
        }
    } else {
        if t.len() > s.len() {
        } else if !occurs_at(s, t, 0) {
        }
    }
}

/// Position of the first occurrence of `t` in `v` at or after `from`.
pub fn find_sub_from(v: &[char], t: &[char], from: usize) -> (r: Option<usize>)
    requires
        from <= v.len(),
    ensures
        match first_occ(v@.subrange(from as int, v@.len() as int), t@) {
            Some(k) => r is Some && r->0 == k + from,
            None => r is None,
        },
{
    let ghost s = v@.subrange(from as int, v@.len() as int);
    if t.len() > v.len() - from {
        proof {
            lemma_first_occ(s, t@, 0);
        }
        return None;
    }
    if t.len() == 0 {
        proof {
            assert(s.subrange(0, 0) =~= t@);
            lemma_first_occ(s, t@, 0);
        }
        return Some(from);
    }
    let mut i: usize = from;
    while i <= v.len() - t.len()
        invariant
            from <= i,
            1 <= t.len() <= v.len() - from,
            i <= v.len() - t.len() + 1,
            s == v@.subrange(from as int, v@.len() as int),
            forall|j: int| 0 <= j < i - from ==> !occurs_at(s, t@, j),
        decreases v.len() - t.len() + 1 - i,
    {
        let hit = occurs_at_exec(v, t, i);
        proof {
            if hit {
                assert(s.subrange(i - from, i - from + t.len()) =~= v@.subrange(i as int, i + t.len()));
            } else {
                if occurs_at(s, t@, i - from) {
                    assert(s.subrange(i - from, i - from + t.len()) =~= v@.subrange(i as int, i + t.len()));
                }
            }
        }
        if hit {
            proof {
                lemma_first_occ(s, t@, i - from);
            }
            return Some(i);
        }
        i += 1;
    }
    proof {
        lemma_first_occ(s, t@, i - from);
    }
    None
}

/// `s` with every occurrence of `p` (left to right, not overlapping)
/// replaced by `r`.
pub open spec fn replace_spec(s: Seq<char>, p: Seq<char>, r: Seq<char>) -> Seq<char>
    decreases s.len(),
{
    match first_occ(s, p) {
        Some(i) if p.len() > 0 && 0 <= i && i + p.len() <= s.len() => s.subrange(0, i) + r
            + replace_spec(s.subrange(i + p.len(), s.len() as int), p, r),
        _ => s,
    }
}

/// The first occurrence is an occurrence.
pub proof fn lemma_first_occ_occurs(s: Seq<char>, t: Seq<char>)
    ensures
        first_occ(s, t) matches Some(k) ==> 0 <= k && k + t.len() <= s.len() && occurs_at(s, t, k),
    decreases s.len(),
{
    if s.len() >= t.len() && !occurs_at(s, t, 0) && s.len() > 0 {
        lemma_first_occ_occurs(s.drop_first(), t);
        if let Some(k) = first_occ(s.drop_first(), t) {
            assert(s.drop_first().subrange(k, k + t.len()) =~= s.subrange(k + 1, k + 1 + t.len()));
        }
    }
}

/// Replaces every occurrence of a non-empty pattern.
pub fn replace_str(s: &str, pat: &str, with: &str) -> (r: String)
    requires
        pat@.len() >= 1,
    ensures
        r@ == replace_spec(s@, pat@, with@),
{
    let x = chars_of(s);
    let p = chars_of(pat);
    let w = chars_of(with);
    let mut out: Vec<char> = Vec::new();
    let mut pos: usize = 0;
    proof {
        assert(x@.subrange(0, x@.len() as int) =~= s@);
        assert(out@ + s@ =~= s@);
    }
    while pos <= x.len()
        invariant
            x@ == s@,
            p@ == pat@,
            w@ == with@,
            p@.len() >= 1,
            pos <= x.len(),
            out@ + replace_spec(x@.subrange(pos as int, x@.len() as int), p@, w@) == replace_spec(s@, pat@, with@),
        decreases x.len() - pos,
    {
        let ghost rest = x@.subrange(pos as int, x@.len() as int);
        proof {
            lemma_first_occ_occurs(rest, p@);
        }
        match find_sub_from(x.as_slice(), p.as_slice(), pos) {
            Some(i) => {
                let ghost before = out@;
                let mut k: usize = pos;
                while k < i
                    invariant
                        pos <= k <= i,
                        i <= x.len(),
                        x@ == s@,
                        out@ == before + x@.subrange(pos as int, k as int),
                    decreases i - k,
                {
                    out.push(x[k]);
                    k += 1;
                    proof {
                        assert(out@ =~= before + x@.subrange(pos as int, k as int));
                    }
                }
                let mut wc = w.clone();
                let ghost mid = out@;
                out.append(&mut wc);
                proof {
                    assert(rest.subrange(0, i - pos) =~= x@.subrange(pos as int, i as int));
                    assert(rest.subrange(i - pos + p@.len(), rest.len() as int) =~= x@.subrange(i + p@.len(), x@.len() as int));
                    assert(out@ + replace_spec(x@.subrange(i + p@.len(), x@.len() as int), p@, w@) =~= before + replace_spec(rest, p@, w@));
                }
                pos = i + p.len();
            },
            None => {
                let mut k: usize = pos;
                let ghost before = out@;
                while k < x.len()
                    invariant
                        pos <= k <= x.len(),
                        x@ == s@,
                        out@ == before + x@.subrange(pos as int, k as int),
                    decreases x.len() - k,
                {
                    out.push(x[k]);
                    k += 1;
                    proof {
                        assert(out@ =~= before + x@.subrange(pos as int, k as int));
                    }
                }
                return string_of(out.as_slice());
            },
        }
    }
    string_of(out.as_slice())
}

/// The decimal representation of a signed integer.
pub open spec fn signed_decimal(n: int) -> Seq<char> {
    if n < 0 {
        "-"@ + decimal((-n) as nat)
    } else {
        decimal(n as nat)
    }
}

/// The decimal representation of `n`, with a minus sign when negative.
pub fn signed_decimal_string(n: i64) -> (r: String)
    ensures
        r@ == signed_decimal(n as int),
{
    if n < 0 {
        let m: u64 = if n == i64::MIN {
            9223372036854775808u64
        } else {
            (-n) as u64
        };
        let d = decimal_string(m);
        concat2("-", d.as_str())
    } else {
        decimal_string(n as u64)
    }
}

/// The whitespace-separated words of `s`, in order.
pub open spec fn words(s: Seq<char>) -> Seq<Seq<char>>
    decreases s.len(),
{
    if s.len() == 0 {
        Seq::empty()
    } else {
        let w = words(s.drop_last());
        let c = s.last();
        if whitespace(c) {
            w
        } else if s.len() >= 2 && !whitespace(s[s.len() - 2]) && w.len() > 0 {
            w.update(w.len() - 1, w.last().push(c))
        } else {
            w.push(seq![c])
        }
    }
}

/// Splits at runs of whitespace, as `str::split_whitespace` does.
pub fn split_whitespace_words(s: &str) -> (r: Vec<String>)
    ensures
        views(r@) == words(s@),
{
    let x = chars_of(s);
    let mut out: Vec<String> = Vec::new();
    let mut cur: Vec<char> = Vec::new();
    let mut in_word = false;
    let mut i: usize = 0;
    while i < x.len()
        invariant
            x@ == s@,
            i <= x.len(),
            in_word ==> i > 0 && !whitespace(x@[i - 1]) && views(out@).push(cur@) == words(x@.subrange(0, i as int)),
            !in_word ==> (i == 0 || whitespace(x@[i - 1])) && views(out@) == words(x@.subrange(0, i as int)),
        decreases x.len() - i,
    {
        let ghost pre = x@.subrange(0, i + 1);
        proof {
            assert(pre.drop_last() =~= x@.subrange(0, i as int));
            assert(pre.last() == x@[i as int]);
            if i > 0 {
                assert(pre[pre.len() - 2] == x@[i - 1]);
            }
        }
        let c = x[i];
        if char_is_whitespace(c) {
            if in_word {
                let piece = string_of(cur.as_slice());
                let ghost before = out@;
                out.push(piece);
                proof {
                    assert(views(out@) =~= views(before).push(cur@));
                }
                cur = Vec::new();
                in_word = false;
            }
        } else {
            if in_word {
                let ghost old_cur = cur@;
                cur.push(c);
                proof {
                    let w = words(x@.subrange(0, i as int));
                    assert(w =~= views(out@).push(old_cur));
                    assert(views(out@).push(cur@) =~= w.update(w.len() - 1, w.last().push(c)));
                }
            } else {
                cur = Vec::new();
                cur.push(c);
                in_word = true;
                proof {
                    assert(cur@ =~= seq![c]);
                }
            }
        }
        i += 1;
    }
    if in_word {
        let piece = string_of(cur.as_slice());
        let ghost before = out@;
        out.push(piece);
        proof {
            assert(views(out@) =~= views(before).push(cur@));
        }
    }
    proof {
        assert(x@.subrange(0, x@.len() as int) =~= s@);
    }
    out
}

} // verus!
