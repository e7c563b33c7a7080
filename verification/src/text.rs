//! Text primitives, stated over sequences of characters.
//!
//! Strings are viewed as `Seq<char>`. The searching and trimming below work on
//! whole characters, so no position can fall inside an encoded character.
use vstd::prelude::*;

verus! {

// ---------------------------------------------------------------------------
// Building and taking apart
// ---------------------------------------------------------------------------
/// `String::push` appends the given character at the end of the string.
pub assume_specification[ String::push ](s: &mut String, c: char)
    ensures
        final(s)@ == old(s)@.push(c),
;

/// The views of a list of strings.
pub open spec fn views(list: Seq<String>) -> Seq<Seq<char>> {
    list.map_values(|s: String| s@)
}

/// The view of an optional string.
pub open spec fn opt_view(value: Option<String>) -> Option<Seq<char>> {
    match value {
        Some(s) => Some(s@),
        None => None,
    }
}

/// The characters of `s`, in order.
pub fn to_chars(s: &str) -> (v: Vec<char>)
    ensures
        v@ == s@,
{
    let mut v: Vec<char> = Vec::new();
    for c in it: s.chars()
        invariant
            v@ == s@.take(it.index()),
            it.seq() == s@,
    {
        v.push(c);
        assert(s@.take(it.index() + 1) =~= s@.take(it.index()).push(c));
    }
    assert(s@.take(s@.len() as int) =~= s@);
    v
}

/// The string made of the characters `from..to` of `v`.
pub fn from_chars(v: &Vec<char>, from: usize, to: usize) -> (s: String)
    requires
        from <= to <= v@.len(),
    ensures
        s@ == v@.subrange(from as int, to as int),
{
    let mut s: String = String::new();
    let mut i: usize = from;
    assert(v@.subrange(from as int, from as int) =~= Seq::<char>::empty());
    while i < to
        invariant
            from <= i <= to <= v@.len(),
            s@ == v@.subrange(from as int, i as int),
        decreases to - i,
    {
        s.push(v[i]);
        assert(v@.subrange(from as int, i + 1) =~= v@.subrange(from as int, i as int).push(
            v@[i as int],
        ));
        i = i + 1;
    }
    s
}

/// Whether two strings hold the same characters.
pub fn same(a: &str, b: &str) -> (r: bool)
    ensures
        r == (a@ == b@),
{
    a.to_owned() == b.to_owned()
}

pub fn cat2(a: &str, b: &str) -> (s: String)
    ensures
        s@ == a@ + b@,
{
    a.to_owned().concat(b)
}

pub fn cat3(a: &str, b: &str, c: &str) -> (s: String)
    ensures
        s@ == a@ + b@ + c@,
{
    a.to_owned().concat(b).concat(c)
}

pub fn cat4(a: &str, b: &str, c: &str, d: &str) -> (s: String)
    ensures
        s@ == a@ + b@ + c@ + d@,
{
    a.to_owned().concat(b).concat(c).concat(d)
}

pub fn cat5(a: &str, b: &str, c: &str, d: &str, e: &str) -> (s: String)
    ensures
        s@ == a@ + b@ + c@ + d@ + e@,
{
    a.to_owned().concat(b).concat(c).concat(d).concat(e)
}

/// The items of `list` in order, with `separator` between neighbours.
pub open spec fn joined(list: Seq<Seq<char>>, separator: Seq<char>) -> Seq<char>
    decreases list.len(),
{
    if list.len() == 0 {
        Seq::empty()
    } else if list.len() == 1 {
        list[0]
    } else {
        joined(list.drop_last(), separator) + separator + list.last()
    }
}

pub fn join(list: &Vec<String>, separator: &str) -> (s: String)
    ensures
        s@ == joined(views(list@), separator@),
{
    let mut s: String = String::new();
    let mut i: usize = 0;
    assert(views(list@).take(0) =~= Seq::<Seq<char>>::empty());
    while i < list.len()
        invariant
            i <= list@.len(),
            s@ == joined(views(list@).take(i as int), separator@),
        decreases list@.len() - i,
    {
        let ghost before = views(list@).take(i as int);
        let ghost after = views(list@).take(i + 1);
        if i != 0 {
            s.append(separator);
        }
        s.append(list[i].as_str());
        proof {
            assert(after.drop_last() =~= before);
            assert(after.last() == list@[i as int]@);
            if i == 0 {
                assert(Seq::<char>::empty() + list@[0]@ =~= list@[0]@);
            }
        }
        i = i + 1;
    }
    assert(views(list@).take(list@.len() as int) =~= views(list@));
    s
}

/// Whether `list` holds a string with the characters of `needle`.
pub fn list_contains(list: &Vec<String>, needle: &str) -> (r: bool)
    ensures
        r == views(list@).contains(needle@),
{
    let mut i: usize = 0;
    while i < list.len()
        invariant
            i <= list@.len(),
            forall|j: int| 0 <= j < i ==> views(list@)[j] != needle@,
        decreases list@.len() - i,
    {
        if same(list[i].as_str(), needle) {
            assert(views(list@)[i as int] == needle@);
            return true;
        }
        assert(views(list@)[i as int] == list@[i as int]@);
        i = i + 1;
    }
    assert(!views(list@).contains(needle@));
    false
}

// ---------------------------------------------------------------------------
// ASCII case
// ---------------------------------------------------------------------------
pub open spec fn is_ascii_upper(c: char) -> bool {
    'A' <= c && c <= 'Z'
}

pub open spec fn is_ascii_letter(c: char) -> bool {
    ('a' <= c && c <= 'z') || is_ascii_upper(c)
}

pub open spec fn is_ascii_digit(c: char) -> bool {
    '0' <= c && c <= '9'
}

pub open spec fn is_ascii_alphanumeric(c: char) -> bool {
    is_ascii_letter(c) || is_ascii_digit(c)
}

/// An ASCII capital becomes its small counterpart; every other character stays.
pub open spec fn lower_char(c: char) -> char {
    if is_ascii_upper(c) {
        (c as u32 + 32) as char
    } else {
        c
    }
}

pub open spec fn lowered(s: Seq<char>) -> Seq<char> {
    s.map_values(|c: char| lower_char(c))
}

pub fn ascii_alphanumeric(c: char) -> (r: bool)
    ensures
        r == is_ascii_alphanumeric(c),
{
    ('a' <= c && c <= 'z') || ('A' <= c && c <= 'Z') || ('0' <= c && c <= '9')
}

pub fn lower(c: char) -> (r: char)
    ensures
        r == lower_char(c),
{
    if 'A' <= c && c <= 'Z' {
        (c as u8 + 32u8) as char
    } else {
        c
    }
}

/// `s` with its ASCII capitals made small.
pub fn to_lower(s: &str) -> (r: String)
    ensures
        r@ == lowered(s@),
{
    let mut r: String = String::new();
    for c in it: s.chars()
        invariant
            r@ == lowered(s@.take(it.index())),
            it.seq() == s@,
    {
        r.push(lower(c));
        assert(lowered(s@.take(it.index() + 1)) =~= lowered(s@.take(it.index())).push(
            lower_char(c),
        ));
    }
    assert(s@.take(s@.len() as int) =~= s@);
    r
}

/// Whether two strings differ at most in the case of their ASCII letters.
pub fn same_ignoring_case(a: &str, b: &str) -> (r: bool)
    ensures
        r == (lowered(a@) == lowered(b@)),
{
    to_lower(a) == to_lower(b)
}

/// Lowering twice is lowering once.
pub proof fn lemma_lowered_idempotent(s: Seq<char>)
    ensures
        lowered(lowered(s)) == lowered(s),
{
    assert(lowered(lowered(s)) =~= lowered(s));
}

// ---------------------------------------------------------------------------
// White space
// ---------------------------------------------------------------------------
/// The characters with the Unicode property `White_Space`.
pub open spec fn is_white(c: char) -> bool {
    let u = c as u32;
    ||| 0x09 <= u <= 0x0d
    ||| u == 0x20
    ||| u == 0x85
    ||| u == 0xa0
    ||| u == 0x1680
    ||| 0x2000 <= u <= 0x200a
    ||| u == 0x2028
    ||| u == 0x2029
    ||| u == 0x202f
    ||| u == 0x205f
    ||| u == 0x3000
}

pub fn white(c: char) -> (r: bool)
    ensures
        r == is_white(c),
{
    let u: u32 = c as u32;
    (0x09 <= u && u <= 0x0d) || u == 0x20 || u == 0x85 || u == 0xa0 || u == 0x1680 || (0x2000 <= u
        && u <= 0x200a) || u == 0x2028 || u == 0x2029 || u == 0x202f || u == 0x205f || u == 0x3000
}

/// `s` without the white space it starts with.
pub open spec fn trimmed_start(s: Seq<char>) -> Seq<char>
    decreases s.len(),
{
    if s.len() > 0 && is_white(s[0]) {
        trimmed_start(s.drop_first())
    } else {
        s
    }
}

/// `s` without the white space it ends with.
pub open spec fn trimmed_end(s: Seq<char>) -> Seq<char>
    decreases s.len(),
{
    if s.len() > 0 && is_white(s.last()) {
        trimmed_end(s.drop_last())
    } else {
        s
    }
}

/// `s` without white space at either end.
pub open spec fn trimmed(s: Seq<char>) -> Seq<char> {
    trimmed_end(trimmed_start(s))
}

pub fn trim(s: &str) -> (r: String)
    ensures
        r@ == trimmed(s@),
{
    let v = to_chars(s);
    let n: usize = v.len();
    let mut lo: usize = 0;
    assert(v@.subrange(0, n as int) =~= v@);
    while lo < n && white(v[lo])
        invariant
            v@ == s@,
            n == v@.len(),
            lo <= n,
            trimmed_start(s@) == trimmed_start(v@.subrange(lo as int, n as int)),
        decreases n - lo,
    {
        assert(v@.subrange(lo as int, n as int).drop_first() =~= v@.subrange(lo + 1, n as int));
        lo = lo + 1;
    }
    let mut hi: usize = n;
    assert(trimmed_start(s@) == v@.subrange(lo as int, hi as int));
    while lo < hi && white(v[hi - 1])
        invariant
            v@ == s@,
            n == v@.len(),
            lo <= hi <= n,
            trimmed(s@) == trimmed_end(v@.subrange(lo as int, hi as int)),
        decreases hi - lo,
    {
        assert(v@.subrange(lo as int, hi as int).drop_last() =~= v@.subrange(lo as int, hi - 1));
        hi = hi - 1;
    }
    from_chars(&v, lo, hi)
}

/// Trimming and lowering can be done in either order.
pub proof fn lemma_trim_lowered(s: Seq<char>)
    ensures
        trimmed(lowered(s)) == lowered(trimmed(s)),
{
    lemma_trim_start_lowered(s);
    lemma_trim_end_lowered(trimmed_start(s));
}

proof fn lemma_trim_start_lowered(s: Seq<char>)
    ensures
        trimmed_start(lowered(s)) == lowered(trimmed_start(s)),
    decreases s.len(),
{
    if s.len() > 0 && is_white(s[0]) {
        lemma_trim_start_lowered(s.drop_first());
        assert(lowered(s).drop_first() =~= lowered(s.drop_first()));
    }
}

proof fn lemma_trim_end_lowered(s: Seq<char>)
    ensures
        trimmed_end(lowered(s)) == lowered(trimmed_end(s)),
    decreases s.len(),
{
    if s.len() > 0 && is_white(s.last()) {
        lemma_trim_end_lowered(s.drop_last());
        assert(lowered(s).drop_last() =~= lowered(s.drop_last()));
    }
}

/// A string with no white space is its own trimming.
pub proof fn lemma_no_white_is_trim(s: Seq<char>)
    requires
        forall|i: int| 0 <= i < s.len() ==> !is_white(s[i]),
    ensures
        trimmed(s) == s,
{
}

/// A line without white space in it is what is left when the line end is trimmed.
pub proof fn lemma_trim_line(s: Seq<char>)
    requires
        forall|i: int| 0 <= i < s.len() ==> !is_white(#[trigger] s[i]),
    ensures
        trimmed(s + "\n"@) == s,
{
    reveal_strlit("\n");
    let line = s + "\n"@;
    if s.len() > 0 {
        assert(line[0] == s[0]);
        assert(line.last() == '\n');
        assert(line.drop_last() =~= s);
        assert(trimmed_end(s) == s);
    } else {
        assert(line[0] == '\n');
        assert(line.drop_first() =~= s);
        assert(trimmed_start(s) == s && trimmed_end(s) == s);
    }
}

// ---------------------------------------------------------------------------
// Searching
// ---------------------------------------------------------------------------
/// Whether `needle` stands in `hay` at position `at`.
pub open spec fn occurs_at(hay: Seq<char>, needle: Seq<char>, at: int) -> bool {
    &&& 0 <= at
    &&& at + needle.len() <= hay.len()
    &&& hay.subrange(at, at + needle.len()) == needle
}

/// The first position at or after `from` at which `needle` stands in `hay`.
pub open spec fn find_from(hay: Seq<char>, needle: Seq<char>, from: int) -> Option<int>
    decreases hay.len() + 1 - from,
{
    if from < 0 || from + needle.len() > hay.len() {
        None
    } else if occurs_at(hay, needle, from) {
        Some(from)
    } else {
        find_from(hay, needle, from + 1)
    }
}

/// Whether `needle` stands somewhere in `hay`.
pub open spec fn has_part(hay: Seq<char>, needle: Seq<char>) -> bool {
    exists|at: int| #[trigger] occurs_at(hay, needle, at)
}

/// What `find_from` returns is the least position that qualifies, and `None`
/// means that there is none.
pub proof fn lemma_find_from(hay: Seq<char>, needle: Seq<char>, from: int)
    requires
        0 <= from,
    ensures
        match find_from(hay, needle, from) {
            Some(at) => {
                &&& from <= at
                &&& occurs_at(hay, needle, at)
                &&& forall|k: int| from <= k < at ==> !#[trigger] occurs_at(hay, needle, k)
            },
            None => forall|k: int| from <= k ==> !#[trigger] occurs_at(hay, needle, k),
        },
    decreases hay.len() + 1 - from,
{
    if from + needle.len() <= hay.len() && !occurs_at(hay, needle, from) {
        lemma_find_from(hay, needle, from + 1);
    }
}

fn stands_at(hay: &Vec<char>, needle: &Vec<char>, at: usize) -> (r: bool)
    requires
        at + needle@.len() <= hay@.len(),
    ensures
        r == occurs_at(hay@, needle@, at as int),
{
    let mut i: usize = 0;
    let n: usize = needle.len();
    let total: usize = hay.len();
    while i < n
        invariant
            n == needle@.len(),
            total == hay@.len(),
            i <= n,
            at + n <= total,
            forall|j: int| 0 <= j < i ==> hay@[at + j] == needle@[j],
        decreases n - i,
    {
        if hay[at + i] != needle[i] {
            assert(hay@.subrange(at as int, at + n)[i as int] != needle@[i as int]);
            return false;
        }
        i = i + 1;
    }
    assert(hay@.subrange(at as int, at + n) =~= needle@);
    true
}

/// The first position at or after `from` at which `needle` stands in `hay`.
pub fn find(hay: &Vec<char>, needle: &Vec<char>, from: usize) -> (r: Option<usize>)
    ensures
        match r {
            Some(at) => find_from(hay@, needle@, from as int) == Some(at as int),
            None => find_from(hay@, needle@, from as int) is None,
        },
        r matches Some(at) ==> from <= at && at + needle@.len() <= hay@.len(),
{
    if needle.len() > hay.len() {
        return None;
    }
    let last: usize = hay.len() - needle.len();
    let mut at: usize = from;
    while at <= last
        invariant
            last == hay@.len() - needle@.len(),
            from <= at,
            find_from(hay@, needle@, from as int) == find_from(hay@, needle@, at as int),
        decreases last + 1 - at,
    {
        if stands_at(hay, needle, at) {
            return Some(at);
        }
        if at == last {
            assert(find_from(hay@, needle@, at + 1) is None);
            return None;
        }
        at = at + 1;
    }
    None
}

/// Whether `needle` stands somewhere in `hay`.
pub fn contains(hay: &str, needle: &str) -> (r: bool)
    ensures
        r == has_part(hay@, needle@),
{
    let h = to_chars(hay);
    let n = to_chars(needle);
    proof {
        lemma_find_from(hay@, needle@, 0);
    }
    match find(&h, &n, 0) {
        Some(at) => true,
        None => false,
    }
}

/// Whether `s` contains the character `c`.
pub fn contains_char(s: &str, c: char) -> (r: bool)
    ensures
        r == s@.contains(c),
{
    let v = to_chars(s);
    let mut i: usize = 0;
    while i < v.len()
        invariant
            v@ == s@,
            i <= v@.len(),
            forall|j: int| 0 <= j < i ==> s@[j] != c,
        decreases v@.len() - i,
    {
        if v[i] == c {
            assert(s@[i as int] == c);
            return true;
        }
        i = i + 1;
    }
    false
}

/// Whether `s` starts with `prefix`.
pub open spec fn has_prefix(s: Seq<char>, prefix: Seq<char>) -> bool {
    prefix.len() <= s.len() && s.take(prefix.len() as int) == prefix
}

/// What follows `prefix` in `s`, where `s` starts with it.
pub fn strip_prefix(s: &str, prefix: &str) -> (r: Option<String>)
    ensures
        match r {
            Some(rest) => has_prefix(s@, prefix@) && rest@ == s@.skip(prefix@.len() as int),
            None => !has_prefix(s@, prefix@),
        },
{
    let v = to_chars(s);
    let p = to_chars(prefix);
    if p.len() > v.len() {
        return None;
    }
    assert(v@.subrange(0, p@.len() as int) =~= v@.take(p@.len() as int));
    if stands_at(&v, &p, 0) {
        assert(v@.subrange(p@.len() as int, v@.len() as int) =~= v@.skip(p@.len() as int));
        Some(from_chars(&v, p.len(), v.len()))
    } else {
        None
    }
}

/// The first position at or after `from` that holds `c`, or the length of `s`.
pub open spec fn index_of(s: Seq<char>, c: char, from: int) -> int
    decreases s.len() - from,
{
    if from < 0 || from >= s.len() {
        s.len() as int
    } else if s[from] == c {
        from
    } else {
        index_of(s, c, from + 1)
    }
}

pub proof fn lemma_index_of(s: Seq<char>, c: char, from: int)
    requires
        0 <= from <= s.len(),
    ensures
        from <= index_of(s, c, from) <= s.len(),
        index_of(s, c, from) < s.len() ==> s[index_of(s, c, from)] == c,
        forall|k: int| from <= k < index_of(s, c, from) ==> s[k] != c,
    decreases s.len() - from,
{
    if from < s.len() && s[from] != c {
        lemma_index_of(s, c, from + 1);
    }
}

fn position(v: &Vec<char>, c: char, from: usize) -> (r: usize)
    requires
        from <= v@.len(),
    ensures
        r == index_of(v@, c, from as int),
        from <= r <= v@.len(),
{
    let mut i: usize = from;
    while i < v.len() && v[i] != c
        invariant
            from <= i <= v@.len(),
            index_of(v@, c, from as int) == index_of(v@, c, i as int),
        decreases v@.len() - i,
    {
        i = i + 1;
    }
    i
}

/// The parts of `s` before and after the first `c`, where there is one.
pub fn split_once(s: &str, c: char) -> (r: Option<(String, String)>)
    ensures
        match r {
            Some((left, right)) => {
                let at = index_of(s@, c, 0);
                &&& s@.contains(c)
                &&& at < s@.len()
                &&& left@ == s@.take(at)
                &&& right@ == s@.skip(at + 1)
            },
            None => !s@.contains(c),
        },
{
    let v = to_chars(s);
    let at = position(&v, c, 0);
    proof {
        lemma_index_of(s@, c, 0);
    }
    if at == v.len() {
        return None;
    }
    assert(s@[at as int] == c);
    assert(v@.subrange(0, at as int) =~= v@.take(at as int));
    assert(v@.subrange(at + 1, v@.len() as int) =~= v@.skip(at + 1));
    Some((from_chars(&v, 0, at), from_chars(&v, at + 1, v.len())))
}

/// The pieces of `s` between its occurrences of `c`.
pub open spec fn pieces(s: Seq<char>, c: char) -> Seq<Seq<char>>
    decreases s.len(),
    via pieces_decreases
{
    let at = index_of(s, c, 0);
    if at >= s.len() {
        seq![s]
    } else {
        seq![s.take(at)] + pieces(s.skip(at + 1), c)
    }
}

#[via_fn]
proof fn pieces_decreases(s: Seq<char>, c: char) {
    lemma_index_of(s, c, 0);
}

pub fn split(s: &str, c: char) -> (r: Vec<String>)
    ensures
        views(r@) == pieces(s@, c),
{
    let v = to_chars(s);
    let n: usize = v.len();
    let mut parts: Vec<String> = Vec::new();
    let mut start: usize = 0;
    assert(v@.skip(0) =~= v@);
    assert(views(parts@) + pieces(v@.skip(0), c) =~= pieces(s@, c));
    loop
        invariant
            v@ == s@,
            n == v@.len(),
            start <= n,
            views(parts@) + pieces(v@.skip(start as int), c) == pieces(s@, c),
        decreases n + 1 - start,
    {
        let at = position(&v, c, start);
        let ghost rest = v@.skip(start as int);
        let ghost done = views(parts@);
        proof {
            lemma_index_of_skip(v@, c, start as int);
            assert(v@.subrange(start as int, at as int) =~= rest.take(at - start));
        }
        let part = from_chars(&v, start, at);
        parts.push(part);
        assert(views(parts@) =~= done.push(rest.take(at - start)));
        if at == n {
            proof {
                assert(rest.take(at - start) =~= rest);
                assert(views(parts@) =~= done + seq![rest]);
            }
            return parts;
        }
        proof {
            assert(rest.skip(at - start + 1) =~= v@.skip(at + 1));
            assert(views(parts@) + pieces(v@.skip(at + 1), c) =~= done + (seq![rest.take(
                at - start,
            )] + pieces(v@.skip(at + 1), c)));
        }
        start = at + 1;
    }
}

proof fn lemma_index_of_skip(s: Seq<char>, c: char, from: int)
    requires
        0 <= from <= s.len(),
    ensures
        index_of(s.skip(from), c, 0) == index_of(s, c, from) - from,
{
    lemma_index_of(s, c, from);
    lemma_index_of(s.skip(from), c, 0);
    let a = index_of(s, c, from) - from;
    let b = index_of(s.skip(from), c, 0);
    if a < b {
        assert(s.skip(from)[a] == s[from + a]);
    } else if b < a {
        assert(s.skip(from)[b] == s[from + b]);
    }
}

// ---------------------------------------------------------------------------
// Order
// ---------------------------------------------------------------------------
/// Whether `a` comes strictly before `b` in the order of strings: character by
/// character, by code point, a proper prefix first.
pub open spec fn precedes(a: Seq<char>, b: Seq<char>) -> bool
    decreases b.len(),
{
    if b.len() == 0 {
        false
    } else if a.len() == 0 {
        true
    } else if a[0] != b[0] {
        a[0] < b[0]
    } else {
        precedes(a.drop_first(), b.drop_first())
    }
}

/// Exactly one of `precedes(a, b)`, `a == b` and `precedes(b, a)` holds.
pub proof fn lemma_precedes_total(a: Seq<char>, b: Seq<char>)
    ensures
        a == b ==> !precedes(a, b) && !precedes(b, a),
        a != b ==> precedes(a, b) != precedes(b, a),
    decreases a.len() + b.len(),
{
    if a.len() > 0 && b.len() > 0 {
        lemma_precedes_total(a.drop_first(), b.drop_first());
        lemma_precedes_total(b.drop_first(), a.drop_first());
        assert(a =~= seq![a[0]] + a.drop_first());
        assert(b =~= seq![b[0]] + b.drop_first());
    } else if a.len() == 0 && b.len() == 0 {
        assert(a =~= b);
    }
}

pub proof fn lemma_precedes_transitive(a: Seq<char>, b: Seq<char>, c: Seq<char>)
    requires
        precedes(a, b),
        precedes(b, c),
    ensures
        precedes(a, c),
    decreases c.len(),
{
    if a.len() > 0 && a[0] == b[0] && b[0] == c[0] {
        lemma_precedes_transitive(a.drop_first(), b.drop_first(), c.drop_first());
    }
}

pub fn before(a: &str, b: &str) -> (r: bool)
    ensures
        r == precedes(a@, b@),
{
    let x = to_chars(a);
    let y = to_chars(b);
    let mut i: usize = 0;
    assert(x@.skip(0) =~= x@);
    assert(y@.skip(0) =~= y@);
    while i < x.len() && i < y.len() && x[i] == y[i]
        invariant
            x@ == a@,
            y@ == b@,
            i <= x@.len(),
            i <= y@.len(),
            precedes(a@, b@) == precedes(x@.skip(i as int), y@.skip(i as int)),
        decreases x@.len() - i,
    {
        assert(x@.skip(i as int).drop_first() =~= x@.skip(i + 1));
        assert(y@.skip(i as int).drop_first() =~= y@.skip(i + 1));
        i = i + 1;
    }
    if i >= y.len() {
        false
    } else if i >= x.len() {
        true
    } else {
        x[i] < y[i]
    }
}

// ---------------------------------------------------------------------------
// Bytes
// ---------------------------------------------------------------------------
/// `str::from_utf8` accepts exactly the byte sequences that are valid UTF-8, and
/// gives the text that they encode.
#[verifier::external_body]
pub(crate) fn from_utf8(bytes: &Vec<u8>) -> (r: Option<String>)
    ensures
        match r {
            Some(s) => vstd::utf8::valid_utf8(bytes@) && s@ == vstd::utf8::decode_utf8(bytes@),
            None => !vstd::utf8::valid_utf8(bytes@),
        },
{
    match std::str::from_utf8(bytes) {
        Ok(s) => Some(s.to_owned()),
        Err(_) => None,
    }
}

/// What `String::from_utf8_lossy` makes of a byte sequence.
pub uninterp spec fn lossy_text(bytes: Seq<u8>) -> Seq<char>;

/// `String::from_utf8_lossy` gives the text that valid UTF-8 encodes. Of other
/// bytes nothing is claimed but that the text depends on them alone.
#[verifier::external_body]
pub(crate) fn from_utf8_lossy(bytes: &Vec<u8>) -> (r: String)
    ensures
        r@ == lossy_text(bytes@),
        vstd::utf8::valid_utf8(bytes@) ==> r@ == vstd::utf8::decode_utf8(bytes@),
{
    String::from_utf8_lossy(bytes).into_owned()
}

/// `s` without the carriage returns and line feeds it ends with.
pub open spec fn without_line_end(s: Seq<char>) -> Seq<char>
    decreases s.len(),
{
    if s.len() > 0 && (s.last() == '\r' || s.last() == '\n') {
        without_line_end(s.drop_last())
    } else {
        s
    }
}

pub fn trim_line_end(s: &str) -> (r: String)
    ensures
        r@ == without_line_end(s@),
{
    let v = to_chars(s);
    let mut end: usize = v.len();
    assert(v@.take(v@.len() as int) =~= s@);
    while end > 0 && (v[end - 1] == '\r' || v[end - 1] == '\n')
        invariant
            v@ == s@,
            end <= v@.len(),
            without_line_end(s@) == without_line_end(v@.take(end as int)),
        decreases end,
    {
        assert(v@.take(end as int).drop_last() =~= v@.take(end - 1));
        end = end - 1;
    }
    assert(v@.subrange(0, end as int) =~= v@.take(end as int));
    from_chars(&v, 0, end)
}

/// The pieces of a text that begins with a piece and the separator.
pub proof fn lemma_pieces_prepend(piece: Seq<char>, rest: Seq<char>, c: char)
    requires
        !piece.contains(c),
    ensures
        pieces(piece + seq![c] + rest, c) == seq![piece] + pieces(rest, c),
{
    let s = piece + seq![c] + rest;
    lemma_index_of(s, c, 0);
    let k = index_of(s, c, 0);
    assert(s[piece.len() as int] == c);
    if k < piece.len() {
        assert(s[k] == piece[k]);
        assert(piece.contains(piece[k]));
    }
    assert(s.contains(c));
    assert(s.take(k) =~= piece);
    assert(s.skip(k + 1) =~= rest);
}

/// A text has at least one piece.
pub proof fn lemma_pieces_not_empty(s: Seq<char>, c: char)
    ensures
        pieces(s, c).len() > 0,
{
}

/// A text without the separator is its own only piece.
pub proof fn lemma_pieces_single(s: Seq<char>, c: char)
    requires
        !s.contains(c),
    ensures
        pieces(s, c) == seq![s],
{
    lemma_index_of(s, c, 0);
}

// ---------------------------------------------------------------------------
// Laws
// ---------------------------------------------------------------------------
proof fn lemma_trimmed_start(s: Seq<char>) -> (cut: int)
    ensures
        0 <= cut <= s.len(),
        trimmed_start(s) == s.skip(cut),
        forall|i: int| 0 <= i < cut ==> is_white(#[trigger] s[i]),
        cut < s.len() ==> !is_white(s[cut]),
    decreases s.len(),
{
    if s.len() > 0 && is_white(s[0]) {
        let cut = lemma_trimmed_start(s.drop_first());
        assert(s.drop_first().skip(cut) =~= s.skip(cut + 1));
        assert forall|i: int| 0 <= i < cut + 1 implies is_white(#[trigger] s[i]) by {
            if i > 0 {
                assert(s.drop_first()[i - 1] == s[i]);
            }
        }
        if cut + 1 < s.len() {
            assert(s.drop_first()[cut] == s[cut + 1]);
        }
        cut + 1
    } else {
        assert(s.skip(0) =~= s);
        0
    }
}

proof fn lemma_trimmed_end(s: Seq<char>) -> (cut: int)
    ensures
        0 <= cut <= s.len(),
        trimmed_end(s) == s.take(cut),
        forall|i: int| cut <= i < s.len() ==> is_white(#[trigger] s[i]),
        cut > 0 ==> !is_white(s[cut - 1]),
    decreases s.len(),
{
    if s.len() > 0 && is_white(s.last()) {
        let cut = lemma_trimmed_end(s.drop_last());
        assert(s.drop_last().take(cut) =~= s.take(cut));
        assert forall|i: int| cut <= i < s.len() implies is_white(#[trigger] s[i]) by {
            if i < s.len() - 1 {
                assert(s.drop_last()[i] == s[i]);
            }
        }
        cut
    } else {
        assert(s.take(s.len() as int) =~= s);
        s.len() as int
    }
}

/// Trimming takes away white space only, from the two ends only, and all of it
/// that stands there.
pub proof fn law_trimming_takes_white_space_from_the_ends(s: Seq<char>)
    ensures
        exists|left: int, right: int|
            {
                &&& 0 <= left <= right <= s.len()
                &&& trimmed(s) == #[trigger] s.subrange(left, right)
                &&& forall|i: int| 0 <= i < left || right <= i < s.len() ==> is_white(
                    #[trigger] s[i],
                )
            },
        trimmed(s).len() > 0 ==> !is_white(trimmed(s)[0]) && !is_white(trimmed(s).last()),
{
    let left = lemma_trimmed_start(s);
    let rest = s.skip(left);
    let kept = lemma_trimmed_end(rest);
    let right = left + kept;
    assert(rest.take(kept) =~= s.subrange(left, right));
    assert forall|i: int| 0 <= i < left || right <= i < s.len() implies is_white(
        #[trigger] s[i],
    ) by {
        if i >= right {
            assert(rest[i - left] == s[i]);
        }
    }
    if kept > 0 {
        assert(rest[0] == s[left]);
    }
}

/// Blanks, tabs and line ends are white space; no visible ASCII character is.
pub proof fn law_what_white_space_is(c: char)
    ensures
        is_white(' ') && is_white('\t') && is_white('\n') && is_white('\r'),
        '!' <= c <= '~' ==> !is_white(c),
{
}

/// In small letters a text has as many characters as before. A capital of the
/// ASCII alphabet becomes the small letter at the same place of the alphabet;
/// nothing else changes.
pub proof fn law_small_letters(s: Seq<char>, i: int)
    requires
        0 <= i < s.len(),
    ensures
        lowered(s).len() == s.len(),
        'A' <= s[i] <= 'Z' ==> 'a' <= lowered(s)[i] <= 'z' && lowered(s)[i] as int - 'a' as int
            == s[i] as int - 'A' as int,
        !('A' <= s[i] <= 'Z') ==> lowered(s)[i] == s[i],
{
}

/// A text is put together again from its pieces, none of which holds the
/// separator.
pub proof fn law_pieces_make_up_the_text(s: Seq<char>, c: char)
    ensures
        pieces(s, c).len() > 0,
        joined(pieces(s, c), seq![c]) == s,
        forall|i: int| 0 <= i < pieces(s, c).len() ==> !(#[trigger] pieces(s, c)[i]).contains(c),
    decreases s.len(),
{
    lemma_index_of(s, c, 0);
    let at = index_of(s, c, 0);
    if at >= s.len() {
        assert(!s.contains(c));
    } else {
        let first = s.take(at);
        let rest = s.skip(at + 1);
        let more = pieces(rest, c);
        law_pieces_make_up_the_text(rest, c);
        lemma_joined_front(first, more, seq![c]);
        assert(s =~= first + seq![c] + rest);
        assert(!first.contains(c)) by {
            if first.contains(c) {
                let k = choose|k: int| 0 <= k < first.len() && first[k] == c;
                assert(s[k] == c);
            }
        }
        assert forall|i: int| 0 <= i < pieces(s, c).len() implies !(#[trigger] pieces(
            s,
            c,
        )[i]).contains(c) by {
            if i > 0 {
                assert(pieces(s, c)[i] == more[i - 1]);
            }
        }
    }
}

proof fn lemma_joined_front(first: Seq<char>, more: Seq<Seq<char>>, separator: Seq<char>)
    requires
        more.len() > 0,
    ensures
        joined(seq![first] + more, separator) == first + separator + joined(more, separator),
    decreases more.len(),
{
    let all = seq![first] + more;
    if more.len() == 1 {
        assert(all.drop_last() =~= seq![first]);
        assert(all.last() == more[0]);
        assert(joined(all.drop_last(), separator) == first);
        assert(joined(more, separator) == more[0]);
    } else {
        lemma_joined_front(first, more.drop_last(), separator);
        assert(all.drop_last() =~= seq![first] + more.drop_last());
        assert(all.last() == more.last());
        assert(first + separator + joined(more.drop_last(), separator) + separator + more.last()
            =~= first + separator + joined(more, separator));
    }
}

/// The order of texts is that of their first difference.
pub proof fn law_order_goes_by_the_first_difference(
    common: Seq<char>,
    a: Seq<char>,
    b: Seq<char>,
)
    requires
        b.len() > 0,
        a.len() > 0 ==> a[0] < b[0],
    ensures
        precedes(common + a, common + b),
        !precedes(common + b, common + a),
    decreases common.len(),
{
    if common.len() > 0 {
        law_order_goes_by_the_first_difference(common.drop_first(), a, b);
        assert((common + a).drop_first() =~= common.drop_first() + a);
        assert((common + b).drop_first() =~= common.drop_first() + b);
    } else {
        assert(common + a =~= a);
        assert(common + b =~= b);
    }
}

proof fn lemma_without_line_end(s: Seq<char>) -> (cut: int)
    ensures
        0 <= cut <= s.len(),
        without_line_end(s) == s.take(cut),
        forall|i: int| cut <= i < s.len() ==> #[trigger] s[i] == '\r' || s[i] == '\n',
        cut > 0 ==> s[cut - 1] != '\r' && s[cut - 1] != '\n',
    decreases s.len(),
{
    if s.len() > 0 && (s.last() == '\r' || s.last() == '\n') {
        let cut = lemma_without_line_end(s.drop_last());
        assert(s.drop_last().take(cut) =~= s.take(cut));
        assert forall|i: int| cut <= i < s.len() implies #[trigger] s[i] == '\r' || s[i]
            == '\n' by {
            if i < s.len() - 1 {
                assert(s.drop_last()[i] == s[i]);
            }
        }
        cut
    } else {
        assert(s.take(s.len() as int) =~= s);
        s.len() as int
    }
}

/// A line without its end is the line up to the carriage returns and line feeds
/// at its end, and no shorter.
pub proof fn law_a_line_loses_its_end_only(line: Seq<char>, end: Seq<char>)
    requires
        line.len() > 0 ==> line.last() != '\r' && line.last() != '\n',
        forall|i: int| 0 <= i < end.len() ==> #[trigger] end[i] == '\r' || end[i] == '\n',
    ensures
        without_line_end(line + end) == line,
{
    let all = line + end;
    let cut = lemma_without_line_end(all);
    if cut > line.len() {
        assert(all[cut - 1] == end[cut - 1 - line.len()]);
    } else if cut < line.len() {
        assert(all[line.len() - 1] == line.last());
    }
    assert(all.take(cut) =~= line);
}

/// A part is first found behind a text that does not hold its first character.
pub proof fn lemma_first_part(before: Seq<char>, part: Seq<char>, rest: Seq<char>)
    requires
        part.len() > 0,
        !before.contains(part[0]),
    ensures
        find_from(before + part + rest, part, 0) == Some(before.len() as int),
{
    let all = before + part + rest;
    let at = before.len() as int;
    assert(occurs_at(all, part, at)) by {
        assert(all.subrange(at, at + part.len()) =~= part);
    }
    lemma_find_from(all, part, 0);
    let k = find_from(all, part, 0)->0;
    assert(k <= at);
    if k < at {
        assert(all.subrange(k, k + part.len())[0] == all[k]);
        assert(before[k] == part[0]);
    }
}

/// White space around a text that neither begins nor ends with any is trimmed
/// away, and the text is what is left.
pub proof fn law_padding_is_trimmed(left: Seq<char>, core: Seq<char>, right: Seq<char>)
    requires
        forall|i: int| 0 <= i < left.len() ==> is_white(#[trigger] left[i]),
        forall|i: int| 0 <= i < right.len() ==> is_white(#[trigger] right[i]),
        core.len() > 0 ==> !is_white(core[0]) && !is_white(core.last()),
    ensures
        trimmed(left + core + right) == core,
{
    let all = left + core + right;
    let cut = lemma_trimmed_start(all);
    if core.len() == 0 {
        if cut < all.len() {
            assert(all[cut] == (if cut < left.len() {
                left[cut]
            } else {
                right[cut - left.len()]
            }));
        }
        assert(all.skip(cut) =~= core);
    } else {
        assert(all[left.len() as int] == core[0]);
        if cut < left.len() {
            assert(all[cut] == left[cut]);
        }
        let rest = all.skip(cut);
        assert(rest =~= core + right);
        let end = lemma_trimmed_end(rest);
        assert(rest[core.len() - 1] == core.last());
        if end > core.len() {
            assert(rest[end - 1] == right[end - 1 - core.len()]);
        }
        assert(rest.take(end) =~= core);
    }
}

/// White space is these characters, and no others.
pub proof fn law_all_white_space(c: char)
    ensures
        is_white(c) <==> seq![
            '\t',
            '\n',
            '\u{b}',
            '\u{c}',
            '\r',
            ' ',
            '\u{85}',
            '\u{a0}',
            '\u{1680}',
            '\u{2000}',
            '\u{2001}',
            '\u{2002}',
            '\u{2003}',
            '\u{2004}',
            '\u{2005}',
            '\u{2006}',
            '\u{2007}',
            '\u{2008}',
            '\u{2009}',
            '\u{200a}',
            '\u{2028}',
            '\u{2029}',
            '\u{202f}',
            '\u{205f}',
            '\u{3000}',
        ].contains(c),
{
    let all = seq![
        '\t',
        '\n',
        '\u{b}',
        '\u{c}',
        '\r',
        ' ',
        '\u{85}',
        '\u{a0}',
        '\u{1680}',
        '\u{2000}',
        '\u{2001}',
        '\u{2002}',
        '\u{2003}',
        '\u{2004}',
        '\u{2005}',
        '\u{2006}',
        '\u{2007}',
        '\u{2008}',
        '\u{2009}',
        '\u{200a}',
        '\u{2028}',
        '\u{2029}',
        '\u{202f}',
        '\u{205f}',
        '\u{3000}',
    ];
    if is_white(c) {
        let u = c as int;
        let k = if u <= 13 {
            u - 9
        } else if u == 32 {
            5
        } else if u == 0x85 {
            6
        } else if u == 0xa0 {
            7
        } else if u == 0x1680 {
            8
        } else if u <= 0x200a {
            9 + u - 0x2000
        } else if u == 0x2028 {
            20
        } else if u == 0x2029 {
            21
        } else if u == 0x202f {
            22
        } else if u == 0x205f {
            23
        } else {
            24
        };
        assert(all[k] == c);
    }
}

/// A text has a part exactly where it can be cut into that part and what stands
/// before and behind it; what is found of it is where it stands first.
pub proof fn law_where_parts_are(before: Seq<char>, part: Seq<char>, after: Seq<char>, hay: Seq<char>)
    ensures
        has_part(before + part + after, part),
        has_part(hay, part) ==> exists|at: int|
            0 <= at <= hay.len() - part.len() && hay == hay.take(at) + part + #[trigger] hay.skip(
                at + part.len(),
            ),
        has_part(hay, part) <==> find_from(hay, part, 0) is Some,
        find_from(hay, part, 0) matches Some(at) ==> {
            &&& hay.subrange(at, at + part.len()) == part
            &&& forall|k: int|
                0 <= k < at ==> #[trigger] hay.subrange(k, k + part.len()) != part
        },
{
    let all = before + part + after;
    let at = before.len() as int;
    assert(all.subrange(at, at + part.len()) =~= part);
    assert(occurs_at(all, part, at));
    lemma_find_from(hay, part, 0);
    if has_part(hay, part) {
        let k = choose|k: int| #[trigger] occurs_at(hay, part, k);
        assert(hay =~= hay.take(k) + part + hay.skip(k + part.len())) by {
            assert(hay.subrange(k, k + part.len()) == part);
            assert(hay =~= hay.take(k) + hay.subrange(k, k + part.len()) + hay.skip(
                k + part.len(),
            ));
        }
    }
    if let Some(first) = find_from(hay, part, 0) {
        assert forall|k: int| 0 <= k < first implies #[trigger] hay.subrange(k, k + part.len())
            != part by {
            assert(!occurs_at(hay, part, k));
        }
    }
}

/// A list of strings is taken string by string, and an optional string as it is.
pub proof fn law_views_are_faithful(list: Seq<String>, i: int, value: String)
    requires
        0 <= i < list.len(),
    ensures
        views(list).len() == list.len(),
        views(list)[i] == list[i]@,
        opt_view(Some(value)) == Some(value@),
        opt_view(None) is None,
{
}

/// Texts are joined with the separator between neighbours, and nowhere else.
pub proof fn law_what_is_joined(list: Seq<Seq<char>>, item: Seq<char>, separator: Seq<char>)
    ensures
        joined(Seq::<Seq<char>>::empty(), separator) == Seq::<char>::empty(),
        joined(seq![item], separator) == item,
        list.len() > 0 ==> joined(list.push(item), separator) == joined(list, separator)
            + separator + item,
{
    assert(list.push(item).drop_last() =~= list);
}

} // verus!
