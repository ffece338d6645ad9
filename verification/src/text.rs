//! Character-level string helpers shared by the scanners, renderers and parsers.
use vstd::prelude::*;

verus! {

/// Collects the characters of `s` into a vector.
pub fn chars_of(s: &str) -> (v: Vec<char>)
    ensures
        v@ == s@,
{
    let mut v: Vec<char> = Vec::new();
    for c in it: s.chars()
        invariant
            v@ == it.seq().take(it.index() as int),
            it.seq() == s@,
    {
        v.push(c);
    }
    v
}

/// Appends one character to a string (`String::push`).
#[verifier::external_body]
pub(crate) fn push_char(s: &mut String, c: char)
    ensures
        final(s)@ == old(s)@.push(c),
{
    s.push(c);
}

/// Appends a string slice to a string.
pub fn push_str(s: &mut String, t: &str)
    ensures
        final(s)@ == old(s)@ + t@,
{
    s.append(t);
}

/// An owned copy of a string slice.
pub fn owned(s: &str) -> (r: String)
    ensures
        r@ == s@,
{
    String::from_str(s)
}

/// Builds a string from a slice of characters.
pub fn string_from_chars(v: &[char]) -> (r: String)
    ensures
        r@ == v@,
{
    let mut r = String::new();
    let mut i: usize = 0;
    while i < v.len()
        invariant
            0 <= i <= v@.len(),
            r@ == v@.take(i as int),
        decreases v@.len() - i,
    {
        push_char(&mut r, v[i]);
        assert(v@.take(i as int).push(v@[i as int]) =~= v@.take(i + 1));
        i += 1;
    }
    assert(v@.take(v@.len() as int) =~= v@);
    r
}

/// Builds a string from a range `[from, to)` of a character slice.
pub fn string_from_range(v: &[char], from: usize, to: usize) -> (r: String)
    requires
        from <= to <= v@.len(),
    ensures
        r@ == v@.subrange(from as int, to as int),
{
    let mut r = String::new();
    let mut i: usize = from;
    while i < to
        invariant
            from <= i <= to <= v@.len(),
            r@ == v@.subrange(from as int, i as int),
        decreases to - i,
    {
        push_char(&mut r, v[i]);
        assert(v@.subrange(from as int, i as int).push(v@[i as int]) =~= v@.subrange(
            from as int,
            i + 1,
        ));
        i += 1;
    }
    r
}

/// Equality of two strings by their characters.
pub fn str_eq(a: &str, b: &str) -> (r: bool)
    ensures
        r == (a@ == b@),
{
    let x = owned(a);
    let y = owned(b);
    x == y
}

// ---------------------------------------------------------------------------
// Lexicographic order (the order of `String`'s `Ord`: code point by code point)
// ---------------------------------------------------------------------------

/// `a` sorts strictly before `b`: at the first difference `a` has the smaller character,
/// or `a` is a proper prefix of `b`.
pub open spec fn seq_lt(a: Seq<char>, b: Seq<char>) -> bool
    decreases a.len(),
{
    if a.len() == 0 {
        b.len() > 0
    } else if b.len() == 0 {
        false
    } else if a[0] < b[0] {
        true
    } else if a[0] == b[0] {
        seq_lt(a.drop_first(), b.drop_first())
    } else {
        false
    }
}

pub proof fn lemma_lt_irreflexive(a: Seq<char>)
    ensures
        !seq_lt(a, a),
    decreases a.len(),
{
    if a.len() > 0 {
        lemma_lt_irreflexive(a.drop_first());
    }
}

pub proof fn lemma_lt_asymmetric(a: Seq<char>, b: Seq<char>)
    requires
        seq_lt(a, b),
    ensures
        !seq_lt(b, a),
    decreases a.len(),
{
    if a.len() > 0 && b.len() > 0 && a[0] == b[0] {
        lemma_lt_asymmetric(a.drop_first(), b.drop_first());
    }
}

pub proof fn lemma_lt_transitive(a: Seq<char>, b: Seq<char>, c: Seq<char>)
    requires
        seq_lt(a, b),
        seq_lt(b, c),
    ensures
        seq_lt(a, c),
    decreases a.len(),
{
    if a.len() > 0 && b.len() > 0 && c.len() > 0 && a[0] == b[0] && b[0] == c[0] {
        lemma_lt_transitive(a.drop_first(), b.drop_first(), c.drop_first());
    }
}

pub proof fn lemma_lt_total(a: Seq<char>, b: Seq<char>)
    ensures
        a == b || seq_lt(a, b) || seq_lt(b, a),
    decreases a.len(),
{
    if a.len() > 0 && b.len() > 0 && a[0] == b[0] {
        lemma_lt_total(a.drop_first(), b.drop_first());
        if a.drop_first() == b.drop_first() {
            assert(a =~= seq![a[0]] + a.drop_first());
            assert(b =~= seq![b[0]] + b.drop_first());
        }
    } else if a.len() > 0 && b.len() > 0 {
        assert(a[0] != b[0]);
    } else if a.len() == 0 && b.len() == 0 {
        assert(a =~= b);
    }
}

/// Lexicographic comparison: `a` sorts strictly before `b`.
pub fn str_lt(a: &str, b: &str) -> (r: bool)
    ensures
        r == seq_lt(a@, b@),
{
    let x = chars_of(a);
    let y = chars_of(b);
    let mut i: usize = 0;
    assert(x@.skip(0) =~= x@);
    assert(y@.skip(0) =~= y@);
    while i < x.len() && i < y.len()
        invariant
            0 <= i <= x@.len(),
            i <= y@.len(),
            x@ == a@,
            y@ == b@,
            seq_lt(x@, y@) == seq_lt(x@.skip(i as int), y@.skip(i as int)),
        decreases x@.len() - i,
    {
        assert(x@.skip(i as int)[0] == x@[i as int]);
        assert(y@.skip(i as int)[0] == y@[i as int]);
        if x[i] < y[i] {
            return true;
        }
        if x[i] != y[i] {
            return false;
        }
        assert(x@.skip(i as int).drop_first() =~= x@.skip(i + 1));
        assert(y@.skip(i as int).drop_first() =~= y@.skip(i + 1));
        i += 1;
    }
    i < y.len()
}


// ---------------------------------------------------------------------------
// Searching, trimming, splitting
// ---------------------------------------------------------------------------

/// `needle` occurs in `hay` at position `i`.
pub open spec fn occurs_at(hay: Seq<char>, needle: Seq<char>, i: int) -> bool {
    0 <= i && i + needle.len() <= hay.len() && hay.subrange(i, i + needle.len()) == needle
}

/// Position of the first occurrence of `needle` in `hay` at or after `from`.
pub open spec fn find_from(hay: Seq<char>, needle: Seq<char>, from: int) -> Option<int>
    decreases hay.len() + 1 - from,
{
    if from < 0 || from + needle.len() > hay.len() {
        None
    } else if occurs_at(hay, needle, from) {
        Some(from)
    } else {
        find_from(hay, needle, from + 1)
    }
}

/// Position of the first occurrence of `needle` in `hay` (`str::find`).
pub open spec fn find_first(hay: Seq<char>, needle: Seq<char>) -> Option<int> {
    find_from(hay, needle, 0)
}

/// Whether `needle` occurs at position `i` of `hay`.
pub fn occurs_at_exec(hay: &Vec<char>, needle: &Vec<char>, i: usize) -> (r: bool)
    ensures
        r == occurs_at(hay@, needle@, i as int),
{
    if i > hay.len() || needle.len() > hay.len() - i {
        return false;
    }
    let mut j: usize = 0;
    while j < needle.len()
        invariant
            i + needle@.len() <= hay@.len(),
            hay@.len() == hay.len(),
            0 <= j <= needle@.len(),
            forall|k: int| 0 <= k < j ==> hay@[i + k] == needle@[k],
        decreases needle@.len() - j,
    {
        let k: usize = i + j;
        if hay[k] != needle[j] {
            assert(hay@.subrange(i as int, i + needle@.len())[j as int] != needle@[j as int]);
            return false;
        }
        j += 1;
    }
    assert(hay@.subrange(i as int, i + needle@.len()) =~= needle@);
    true
}

/// First occurrence of `needle` in `hay` at or after `from`.
pub fn find_from_exec(hay: &Vec<char>, needle: &Vec<char>, from: usize) -> (r: Option<usize>)
    ensures
        r matches Some(i) ==> find_from(hay@, needle@, from as int) == Some(i as int),
        r is None ==> find_from(hay@, needle@, from as int) is None,
{
    if from > hay.len() || needle.len() > hay.len() - from {
        return None;
    }
    let mut i: usize = from;
    loop
        invariant
            from <= i <= hay@.len(),
            i + needle@.len() <= hay@.len(),
            find_from(hay@, needle@, from as int) == find_from(hay@, needle@, i as int),
        decreases hay@.len() - i,
    {
        if occurs_at_exec(hay, needle, i) {
            return Some(i);
        }
        if i >= hay.len() || needle.len() >= hay.len() - i {
            assert(find_from(hay@, needle@, i + 1) is None);
            return None;
        }
        i += 1;
    }
}

/// Whitespace as `char::is_whitespace` defines it (the Unicode `White_Space` property).
pub open spec fn is_ws(c: char) -> bool {
    let n = c as u32;
    (9 <= n <= 13) || n == 32 || n == 0x85 || n == 0xA0 || n == 0x1680 || (0x2000 <= n <= 0x200A)
        || n == 0x2028 || n == 0x2029 || n == 0x202F || n == 0x205F || n == 0x3000
}

/// Whether `c` is whitespace.
pub fn is_ws_exec(c: char) -> (r: bool)
    ensures
        r == is_ws(c),
{
    let n = c as u32;
    (9 <= n && n <= 13) || n == 32 || n == 0x85 || n == 0xA0 || n == 0x1680 || (0x2000 <= n && n
        <= 0x200A) || n == 0x2028 || n == 0x2029 || n == 0x202F || n == 0x205F || n == 0x3000
}

/// `s` without leading whitespace.
pub open spec fn trim_start(s: Seq<char>) -> Seq<char>
    decreases s.len(),
{
    if s.len() > 0 && is_ws(s[0]) {
        trim_start(s.drop_first())
    } else {
        s
    }
}

/// `s` without trailing whitespace.
pub open spec fn trim_end(s: Seq<char>) -> Seq<char>
    decreases s.len(),
{
    if s.len() > 0 && is_ws(s.last()) {
        trim_end(s.drop_last())
    } else {
        s
    }
}

/// `s` without leading and trailing whitespace (`str::trim`).
pub open spec fn trim(s: Seq<char>) -> Seq<char> {
    trim_end(trim_start(s))
}

/// The bounds `[a, b)` of `trim(v[from..to])` within `v`.
pub fn trim_bounds(v: &Vec<char>, from: usize, to: usize) -> (r: (usize, usize))
    requires
        from <= to <= v@.len(),
    ensures
        from <= r.0 <= r.1 <= to,
        v@.subrange(r.0 as int, r.1 as int) == trim(v@.subrange(from as int, to as int)),
{
    let mut a: usize = from;
    while a < to && is_ws_exec(v[a])
        invariant
            from <= a <= to <= v@.len(),
            trim_start(v@.subrange(from as int, to as int)) == trim_start(v@.subrange(a as int, to as int)),
        decreases to - a,
    {
        assert(v@.subrange(a as int, to as int).drop_first() =~= v@.subrange(a + 1, to as int));
        a += 1;
    }
    let mut b: usize = to;
    while b > a && is_ws_exec(v[b - 1])
        invariant
            from <= a <= b <= to <= v@.len(),
            trim_end(v@.subrange(a as int, to as int)) == trim_end(v@.subrange(a as int, b as int)),
        decreases b - a,
    {
        assert(v@.subrange(a as int, b as int).drop_last() =~= v@.subrange(a as int, b - 1));
        b -= 1;
    }
    (a, b)
}

/// `s` trimmed of whitespace at both ends.

/// Whether `s` begins with `prefix`.
pub open spec fn starts_with(s: Seq<char>, prefix: Seq<char>) -> bool {
    prefix.len() <= s.len() && s.subrange(0, prefix.len() as int) == prefix
}

/// Whether `s` begins with `prefix`.
pub fn starts_with_exec(s: &Vec<char>, prefix: &str) -> (r: bool)
    ensures
        r == starts_with(s@, prefix@),
{
    let p = chars_of(prefix);
    let r = occurs_at_exec(s, &p, 0);
    r
}

/// The pieces of `s` between occurrences of `sep` (`str::split` with a non-empty pattern).
pub open spec fn split_by(s: Seq<char>, sep: Seq<char>) -> Seq<Seq<char>>
    decreases s.len(),
{
    if sep.len() == 0 {
        seq![s]
    } else {
        match find_first(s, sep) {
            Some(i) => if i + sep.len() <= s.len() && i >= 0 {
                seq![s.subrange(0, i)] + split_by(s.subrange(i + sep.len(), s.len() as int), sep)
            } else {
                seq![s]
            },
            None => seq![s],
        }
    }
}

/// `hay` contains `needle` (`str::contains`).
pub open spec fn contains(hay: Seq<char>, needle: Seq<char>) -> bool {
    find_first(hay, needle) is Some
}

/// The first occurrence found from `from` lies at or after `from` and fits in `hay`.
pub proof fn lemma_find_from_bounds(hay: Seq<char>, needle: Seq<char>, from: int)
    ensures
        find_from(hay, needle, from) matches Some(i) ==> from <= i && i + needle.len() <= hay.len()
            && occurs_at(hay, needle, i),
    decreases hay.len() + 1 - from,
{
    if from < 0 || from + needle.len() > hay.len() {
    } else if occurs_at(hay, needle, from) {
    } else {
        lemma_find_from_bounds(hay, needle, from + 1);
    }
}

/// Searching `hay` from `from` is searching its suffix from `pos` on, shifted by `pos`.
pub proof fn lemma_find_from_shift(hay: Seq<char>, needle: Seq<char>, pos: int, from: int)
    requires
        0 <= pos <= from,
        pos <= hay.len(),
    ensures
        find_from(hay, needle, from) == (match find_from(hay.subrange(pos, hay.len() as int), needle, from - pos) {
            Some(j) => Some(j + pos),
            None => None::<int>,
        }),
    decreases hay.len() + 1 - from,
{
    let t = hay.subrange(pos, hay.len() as int);
    if from + needle.len() > hay.len() {
    } else {
        assert(t.subrange(from - pos, from - pos + needle.len()) =~= hay.subrange(from, from + needle.len()));
        if occurs_at(hay, needle, from) {
        } else {
            lemma_find_from_shift(hay, needle, pos, from + 1);
        }
    }
}

/// Whether `hay` contains `needle`.
pub fn contains_exec(hay: &Vec<char>, needle: &Vec<char>) -> (r: bool)
    ensures
        r == contains(hay@, needle@),
{
    let r = find_from_exec(hay, needle, 0);
    r.is_some()
}

/// Position of the last occurrence of `c` in `s` (`str::rfind` with a character).
pub open spec fn find_last_char(s: Seq<char>, c: char) -> Option<int>
    decreases s.len(),
{
    if s.len() == 0 {
        None
    } else if s.last() == c {
        Some(s.len() - 1)
    } else {
        find_last_char(s.drop_last(), c)
    }
}

/// The last position of `c` in `v[..to]`.
pub fn find_last_char_exec(v: &Vec<char>, to: usize, c: char) -> (r: Option<usize>)
    requires
        to <= v@.len(),
    ensures
        r matches Some(i) ==> find_last_char(v@.subrange(0, to as int), c) == Some(i as int),
        r is None ==> find_last_char(v@.subrange(0, to as int), c) is None,
{
    let mut b: usize = to;
    while b > 0
        invariant
            b <= to <= v@.len(),
            find_last_char(v@.subrange(0, to as int), c) == find_last_char(v@.subrange(0, b as int), c),
        decreases b,
    {
        if v[b - 1] == c {
            return Some(b - 1);
        }
        assert(v@.subrange(0, b as int).drop_last() =~= v@.subrange(0, b - 1));
        b -= 1;
    }
    None
}

/// `s` without leading copies of `c` (`str::trim_start_matches` with a character).
pub open spec fn strip_leading(s: Seq<char>, c: char) -> Seq<char>
    decreases s.len(),
{
    if s.len() > 0 && s[0] == c {
        strip_leading(s.drop_first(), c)
    } else {
        s
    }
}

/// `s` without trailing copies of `c` (`str::trim_end_matches` with a character).
pub open spec fn strip_trailing(s: Seq<char>, c: char) -> Seq<char>
    decreases s.len(),
{
    if s.len() > 0 && s.last() == c {
        strip_trailing(s.drop_last(), c)
    } else {
        s
    }
}

/// `s` without copies of `c` at either end (`str::trim_matches` with a character).
pub open spec fn strip_both(s: Seq<char>, c: char) -> Seq<char> {
    strip_trailing(strip_leading(s, c), c)
}

/// The bounds `[a, b)` of `strip_both(v[from..to], c)` within `v`.
pub fn strip_bounds(v: &Vec<char>, from: usize, to: usize, c: char, at_start: bool, at_end: bool) -> (r: (usize, usize))
    requires
        from <= to <= v@.len(),
    ensures
        from <= r.0 <= r.1 <= to,
        at_start && at_end ==> v@.subrange(r.0 as int, r.1 as int) == strip_both(v@.subrange(from as int, to as int), c),
        at_start && !at_end ==> v@.subrange(r.0 as int, r.1 as int) == strip_leading(v@.subrange(from as int, to as int), c),
{
    let mut a: usize = from;
    if at_start {
        while a < to && v[a] == c
            invariant
                from <= a <= to <= v@.len(),
                strip_leading(v@.subrange(from as int, to as int), c) == strip_leading(v@.subrange(a as int, to as int), c),
            decreases to - a,
        {
            assert(v@.subrange(a as int, to as int).drop_first() =~= v@.subrange(a + 1, to as int));
            a += 1;
        }
    }
    let mut b: usize = to;
    if at_end {
        while b > a && v[b - 1] == c
            invariant
                from <= a <= b <= to <= v@.len(),
                strip_trailing(v@.subrange(a as int, to as int), c) == strip_trailing(v@.subrange(a as int, b as int), c),
            decreases b - a,
        {
            assert(v@.subrange(a as int, b as int).drop_last() =~= v@.subrange(a as int, b - 1));
            b -= 1;
        }
    }
    (a, b)
}

/// `split_by` yields at least one piece.
pub proof fn lemma_split_nonempty(s: Seq<char>, sep: Seq<char>)
    ensures
        split_by(s, sep).len() >= 1,
    decreases s.len(),
{
    if sep.len() > 0 {
        match find_first(s, sep) {
            Some(i) => if i + sep.len() <= s.len() && i >= 0 {
                lemma_split_nonempty(s.subrange(i + sep.len(), s.len() as int), sep);
            },
            None => {},
        }
    }
}

/// The pieces of `s` between occurrences of a non-empty `sep` (`str::split`).
pub fn split_str(s: &Vec<char>, sep: &Vec<char>) -> (r: Vec<String>)
    requires
        sep@.len() > 0,
    ensures
        r@.map_values(|x: String| x@) == split_by(s@, sep@),
{
    let mut out: Vec<String> = Vec::new();
    let mut pos: usize = 0;
    let n: usize = s.len();
    assert(s@.subrange(0, s@.len() as int) =~= s@);
    loop
        invariant
            n == s@.len(),
            pos <= s@.len(),
            sep@.len() > 0,
            out@.map_values(|x: String| x@) + split_by(s@.subrange(pos as int, s@.len() as int), sep@)
                == split_by(s@, sep@),
        decreases s@.len() - pos,
    {
        let ghost rest = s@.subrange(pos as int, s@.len() as int);
        let found = find_from_exec(s, sep, pos);
        proof {
            lemma_find_from_shift(s@, sep@, pos as int, pos as int);
            lemma_find_from_bounds(s@, sep@, pos as int);
        }
        match found {
            Some(i) => {
                let piece = string_from_range(s.as_slice(), pos, i);
                let ghost old_out = out@.map_values(|x: String| x@);
                out.push(piece);
                proof {
                    assert(find_first(rest, sep@) == Some(i - pos));
                    assert(rest.subrange(0, i - pos) =~= s@.subrange(pos as int, i as int));
                    assert(rest.subrange(i - pos + sep@.len(), rest.len() as int) =~= s@.subrange(
                        i + sep@.len(),
                        s@.len() as int,
                    ));
                    assert(out@.map_values(|x: String| x@) =~= old_out.push(s@.subrange(pos as int, i as int)));
                    assert(old_out + split_by(rest, sep@) =~= out@.map_values(|x: String| x@) + split_by(
                        s@.subrange(i + sep@.len(), s@.len() as int),
                        sep@,
                    ));
                }
                assert(i + sep@.len() <= s@.len());
                pos = i + sep.len();
            },
            None => {
                let piece = string_from_range(s.as_slice(), pos, s.len());
                let ghost old_out = out@.map_values(|x: String| x@);
                out.push(piece);
                proof {
                    assert(find_first(rest, sep@) is None);
                    assert(out@.map_values(|x: String| x@) =~= old_out + split_by(rest, sep@));
                }
                return out;
            },
        }
    }
}

/// Trimming the start never lengthens a string.
pub proof fn lemma_trim_start_len(s: Seq<char>)
    ensures
        trim_start(s).len() <= s.len(),
    decreases s.len(),
{
    if s.len() > 0 {
        lemma_trim_start_len(s.drop_first());
    }
}

/// Trimming the end never lengthens a string.
pub proof fn lemma_trim_end_len(s: Seq<char>)
    ensures
        trim_end(s).len() <= s.len(),
    decreases s.len(),
{
    if s.len() > 0 {
        lemma_trim_end_len(s.drop_last());
    }
}

/// Trimming never lengthens a string.
pub proof fn lemma_trim_len(s: Seq<char>)
    ensures
        trim(s).len() <= s.len(),
{
    lemma_trim_start_len(s);
    lemma_trim_end_len(trim_start(s));
}

/// `v[from..to]` trimmed of whitespace at both ends, as a vector.
pub fn trimmed(v: &Vec<char>, from: usize, to: usize) -> (r: Vec<char>)
    requires
        from <= to <= v@.len(),
    ensures
        r@ == trim(v@.subrange(from as int, to as int)),
{
    let (a, b) = trim_bounds(v, from, to);
    slice_vec(v, a, b)
}

/// The characters `v[from..to]` as a vector.
pub fn slice_vec(v: &Vec<char>, from: usize, to: usize) -> (r: Vec<char>)
    requires
        from <= to <= v@.len(),
    ensures
        r@ == v@.subrange(from as int, to as int),
{
    let mut r: Vec<char> = Vec::new();
    let mut i: usize = from;
    while i < to
        invariant
            from <= i <= to <= v@.len(),
            r@ == v@.subrange(from as int, i as int),
        decreases to - i,
    {
        r.push(v[i]);
        assert(v@.subrange(from as int, i as int).push(v@[i as int]) =~= v@.subrange(from as int, i + 1));
        i += 1;
    }
    r
}

/// The characters of an optional string.
pub open spec fn opt_view(o: Option<String>) -> Option<Seq<char>> {
    match o {
        Some(s) => Some(s@),
        None => None,
    }
}

/// No position from `from` on holds the single-character needle `c`: the search finds nothing.
proof fn lemma_find_char_absent(hay: Seq<char>, c: char, from: int)
    requires
        0 <= from,
        forall|i: int| from <= i < hay.len() ==> hay[i] != c,
    ensures
        find_from(hay, seq![c], from) is None,
    decreases hay.len() + 1 - from,
{
    if from + 1 > hay.len() {
    } else {
        assert(hay.subrange(from, from + 1)[0] == hay[from]);
        lemma_find_char_absent(hay, c, from + 1);
    }
}

/// The first `c` from `from` on is at `at`, where `at` holds `c` and nothing before it does.
proof fn lemma_find_char_at(hay: Seq<char>, c: char, from: int, at: int)
    requires
        0 <= from <= at < hay.len(),
        hay[at] == c,
        forall|i: int| from <= i < at ==> hay[i] != c,
    ensures
        find_from(hay, seq![c], from) == Some(at),
    decreases at - from,
{
    if from == at {
        assert(hay.subrange(from, from + 1) =~= seq![c]);
    } else {
        assert(hay.subrange(from, from + 1)[0] == hay[from]);
        lemma_find_char_at(hay, c, from + 1, at);
    }
}

/// Text without `c` is one piece when split at `c`.
pub proof fn lemma_split_char_whole(s: Seq<char>, c: char)
    requires
        forall|i: int| 0 <= i < s.len() ==> s[i] != c,
    ensures
        split_by(s, seq![c]) == seq![s],
{
    lemma_find_char_absent(s, c, 0);
}

/// Splitting `a c b` at `c`, where `a` holds no `c`, gives `a` and then the pieces of `b`.
pub proof fn lemma_split_char_front(a: Seq<char>, b: Seq<char>, c: char)
    requires
        forall|i: int| 0 <= i < a.len() ==> a[i] != c,
    ensures
        split_by(a + seq![c] + b, seq![c]) == seq![a] + split_by(b, seq![c]),
{
    let s = a + seq![c] + b;
    lemma_find_char_at(s, c, 0, a.len() as int);
    assert(s.subrange(0, a.len() as int) =~= a);
    assert(s.subrange(a.len() + 1int, s.len() as int) =~= b);
}

/// A space before a string goes away when trimming its start.
pub proof fn lemma_trim_start_space(v: Seq<char>)
    ensures
        trim_start(seq![' '] + v) == trim_start(v),
{
    assert((seq![' '] + v).drop_first() =~= v);
}

} // verus!
