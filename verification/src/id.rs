//! Typed record identifiers backed by UUIDs.
use vstd::prelude::*;
use std::marker::PhantomData;
use crate::text::{chars_of, owned, push_str, string_from_range};

verus! {

/// A primary key value.
pub enum PrimaryKey {
    String(String),
    Integer(i64),
    /// A UUID, as its 128-bit value.
    Uuid(u128),
}

/// The lower-case hexadecimal digit of a nibble.
pub open spec fn hex_digit(n: u128) -> char {
    if n < 10 {
        ((n + 48) as u8) as char
    } else {
        ((n + 87) as u8) as char
    }
}

/// Nibble `i` of a UUID value, counting from the most significant.
pub open spec fn nibble(v: u128, i: int) -> u128 {
    ((v >> ((124 - 4 * i) as u128)) & 15u128)
}

/// The 32 lower-case hex digits of a UUID value (its "simple" form).
pub open spec fn uuid_simple(v: u128) -> Seq<char> {
    Seq::new(32, |i: int| hex_digit(nibble(v, i)))
}

/// The hyphenated form of a UUID value: its hex digits in groups of 8-4-4-4-12.
pub open spec fn uuid_hyphenated(v: u128) -> Seq<char> {
    let d = uuid_simple(v);
    d.subrange(0, 8) + seq!['-'] + d.subrange(8, 12) + seq!['-'] + d.subrange(12, 16) + seq!['-']
        + d.subrange(16, 20) + seq!['-'] + d.subrange(20, 32)
}

/// `uuid::Uuid::to_string` (hyphenated, lower case) of a UUID value; `Uuid::parse_str`
/// reads that text back as the same value.
#[verifier::external_body]
fn uuid_to_hyphenated(v: u128) -> (r: String)
    ensures
        r@ == uuid_hyphenated(v),
        spec_uuid_parse(r@) == Some(v),
{
    uuid::Uuid::from_u128(v).to_string()
}

/// `uuid::Uuid::simple` (32 lower-case hex digits) of a UUID value.
#[verifier::external_body]
fn uuid_to_simple(v: u128) -> (r: String)
    ensures
        r@ == uuid_simple(v),
{
    uuid::Uuid::from_u128(v).simple().to_string()
}

/// The value `uuid::Uuid::parse_str` reads from a string, if it reads one.
pub uninterp spec fn spec_uuid_parse(s: Seq<char>) -> Option<u128>;

/// `uuid::Uuid::parse_str`, as a 128-bit value.
#[verifier::external_body]
fn uuid_parse(s: &str) -> (r: Option<u128>)
    ensures
        r == spec_uuid_parse(s@),
{
    match uuid::Uuid::parse_str(s) {
        Ok(u) => Some(u.as_u128()),
        Err(_) => None,
    }
}

/// A version 4 UUID value: the version nibble (the 13th hex digit) is 4 and the variant
/// nibble (the 17th) is 8, 9, a or b (RFC 9562).
pub open spec fn version4(v: u128) -> bool {
    nibble(v, 12) == 4 && 8 <= nibble(v, 16) < 12
}

/// A fresh random UUID value (`uuid::Uuid::new_v4`): random bits with the version and
/// variant bits of a version 4 UUID set; which random value comes is not stated.
#[verifier::external_body]
fn uuid_random() -> (r: u128)
    ensures
        version4(r),
{
    uuid::Uuid::new_v4().as_u128()
}

/// A typed id: the UUID of a record of type `T`.
#[derive(Debug, PartialEq, Eq, Hash)]
pub struct SimpleId<T> {
    pub value: u128,
    pub _marker: PhantomData<T>,
}

impl<T> Clone for SimpleId<T> {
    fn clone(&self) -> (r: Self)
        ensures
            r == *self,
    {
        SimpleId { value: self.value, _marker: PhantomData }
    }
}

/// The characters of `s` split at every `:`.
pub open spec fn colon_parts(s: Seq<char>) -> Seq<Seq<char>>
    decreases s.len(),
{
    if s.len() == 0 {
        seq![seq![]]
    } else {
        let rest = colon_parts(s.drop_last());
        if s.last() == ':' {
            rest.push(seq![])
        } else {
            rest.update(rest.len() - 1, rest.last().push(s.last()))
        }
    }
}

/// The UUID an id string holds: `table:uuid` (exactly one `:`) reads the part after the
/// colon, anything else reads the whole string.
pub open spec fn spec_parse_simple_id(s: Seq<char>) -> Option<u128> {
    let parts = colon_parts(s);
    if parts.len() == 2 {
        spec_uuid_parse(parts[1])
    } else {
        spec_uuid_parse(s)
    }
}

proof fn lemma_colon_parts_len(s: Seq<char>)
    ensures
        colon_parts(s).len() >= 1,
    decreases s.len(),
{
    if s.len() > 0 {
        lemma_colon_parts_len(s.drop_last());
    }
}

/// Counts the colon-separated parts of `s` (capped at 3) and finds the last colon.
fn split_colons(s: &Vec<char>) -> (r: (usize, usize))
    ensures
        (r.0 == 2) <==> (colon_parts(s@).len() == 2),
        r.0 == 2 ==> r.1 < s@.len() && s@.subrange(r.1 + 1, s@.len() as int) == colon_parts(s@)[1],
{
    let mut count: usize = 1;
    let mut last_colon: usize = 0;
    let mut i: usize = 0;
    assert(s@.take(0) =~= Seq::<char>::empty());
    while i < s.len()
        invariant
            0 <= i <= s@.len(),
            1 <= count <= 3,
            count < 3 ==> colon_parts(s@.take(i as int)).len() == count,
            count == 3 ==> colon_parts(s@.take(i as int)).len() >= 3,
            count == 2 ==> last_colon < i && colon_parts(s@.take(i as int)).last() == s@.subrange(
                last_colon + 1,
                i as int,
            ),
        decreases s@.len() - i,
    {
        let ghost t = s@.take(i + 1);
        assert(t.drop_last() =~= s@.take(i as int));
        assert(t.last() == s@[i as int]);
        proof {
            lemma_colon_parts_len(s@.take(i as int));
        }
        if s[i] == ':' {
            if count < 3 {
                count += 1;
            }
            last_colon = i;
            assert(s@.subrange(last_colon + 1, i + 1) =~= Seq::<char>::empty());
        } else {
            if count == 2 {
                assert(s@.subrange(last_colon + 1, i + 1) =~= s@.subrange(last_colon + 1, i as int).push(
                    s@[i as int],
                ));
            }
        }
        i += 1;
    }
    assert(s@.take(s@.len() as int) =~= s@);
    (count, last_colon)
}

/// The UUID text of a `table:uuid` id string: the second part where the string splits at
/// `:` into exactly two parts; `None` otherwise (the string is then read as a bare UUID).
pub fn uuid_part(s: &str) -> (r: Option<String>)
    ensures
        r is Some <==> colon_parts(s@).len() == 2,
        r matches Some(p) ==> p@ == colon_parts(s@)[1],
{
    let cs = chars_of(s);
    let (count, last_colon) = split_colons(&cs);
    if count == 2 {
        assert(last_colon < cs.len());
        Some(string_from_range(cs.as_slice(), last_colon + 1, cs.len()))
    } else {
        None
    }
}

/// Reads the UUID of an id string: `table:uuid` or a bare UUID.
pub fn parse_simple_id(s: &str) -> (r: Option<u128>)
    ensures
        r == spec_parse_simple_id(s@),
{
    let cs = chars_of(s);
    let (count, last_colon) = split_colons(&cs);
    if count == 2 {
        assert(last_colon < cs.len());
        let tail = string_from_range(cs.as_slice(), last_colon + 1, cs.len());
        uuid_parse(tail.as_str())
    } else {
        uuid_parse(s)
    }
}

impl<T> SimpleId<T> {
    /// A fresh random id: a version 4 UUID.
    pub fn new() -> (r: Self)
        ensures
            version4(r.value),
    {
        SimpleId { value: uuid_random(), _marker: PhantomData }
    }

    /// The id with the given UUID value.
    pub fn from_uuid(value: u128) -> (r: Self)
        ensures
            r.value == value,
    {
        SimpleId { value, _marker: PhantomData }
    }

    /// The UUID as a hyphenated string; it reads back as the same id.
    pub fn as_uuid_str(&self) -> (r: String)
        ensures
            r@ == uuid_hyphenated(self.value),
            spec_parse_simple_id(r@) == Some(self.value),
    {
        let r = uuid_to_hyphenated(self.value);
        proof {
            lemma_record_string_roundtrip(Seq::empty(), self.value);
        }
        r
    }

    /// The compact record token: `u` followed by the 32 hex digits.
    pub fn token_part(&self) -> (r: String)
        ensures
            r@ == seq!['u'] + uuid_simple(self.value),
    {
        let mut r = owned("u");
        let d = uuid_to_simple(self.value);
        proof {
            reveal_strlit("u");
        }
        push_str(&mut r, d.as_str());
        r
    }

    /// The serialized form `table:uuid`; where the table holds no colon, it reads back as
    /// the same id.
    pub fn to_record_string(&self, table: &str) -> (r: String)
        ensures
            r@ == table@ + seq![':'] + uuid_hyphenated(self.value),
            no_colon(table@) ==> spec_parse_simple_id(r@) == Some(self.value),
    {
        let mut r = owned(table);
        push_str(&mut r, ":");
        proof {
            reveal_strlit(":");
        }
        let u = uuid_to_hyphenated(self.value);
        push_str(&mut r, u.as_str());
        proof {
            if no_colon(table@) {
                lemma_record_string_roundtrip(table@, self.value);
            }
        }
        r
    }

    /// Reads an id from `table:uuid` or a bare UUID string.
    pub fn parse(s: &str) -> (r: Option<Self>)
        ensures
            r matches Some(id) ==> spec_parse_simple_id(s@) == Some(id.value),
            r is None <==> spec_parse_simple_id(s@) is None,
    {
        match parse_simple_id(s) {
            Some(v) => Some(SimpleId { value: v, _marker: PhantomData }),
            None => None,
        }
    }

    /// Reads an id from the `id` entry of a record object: the whole text must be a UUID
    /// (no `table:` prefix).
    pub fn from_record_id(s: &str) -> (r: Option<Self>)
        ensures
            r matches Some(id) ==> spec_uuid_parse(s@) == Some(id.value),
            r is None <==> spec_uuid_parse(s@) is None,
    {
        match uuid_parse(s) {
            Some(v) => Some(SimpleId { value: v, _marker: PhantomData }),
            None => None,
        }
    }
}

/// `s` holds no `:`.
pub open spec fn no_colon(s: Seq<char>) -> bool {
    forall|i: int| 0 <= i < s.len() ==> s[i] != ':'
}

/// The hex digit of a nibble is no colon.
proof fn lemma_hex_digit_not_colon(n: u128)
    requires
        n < 16,
    ensures
        hex_digit(n) != ':',
{
}

/// The hyphenated form of a UUID holds no colon.
proof fn lemma_hyphenated_no_colon(v: u128)
    ensures
        no_colon(uuid_hyphenated(v)),
{
    assert forall|i: int| 0 <= i < 32 implies #[trigger] uuid_simple(v)[i] != ':' by {
        let n = nibble(v, i);
        let sh = (124 - 4 * i) as u128;
        assert((v >> sh) & 15u128 <= 15u128) by (bit_vector);
        lemma_hex_digit_not_colon(n);
    }
    let d = uuid_simple(v);
    let h = uuid_hyphenated(v);
    assert forall|i: int| 0 <= i < h.len() implies h[i] != ':' by {
        if i < 8 {
            assert(h[i] == d[i]);
        } else if i == 8 || i == 13 || i == 18 || i == 23 {
        } else if i < 13 {
            assert(h[i] == d[i - 1]);
        } else if i < 18 {
            assert(h[i] == d[i - 2]);
        } else if i < 23 {
            assert(h[i] == d[i - 3]);
        } else {
            assert(h[i] == d[i - 4]);
        }
    }
}

/// Splitting text without colons gives it whole, as the one part after the last colon.
proof fn lemma_colon_parts_tail(a: Seq<char>, b: Seq<char>)
    requires
        no_colon(b),
    ensures
        colon_parts(a + seq![':'] + b) == colon_parts(a).push(b),
    decreases b.len(),
{
    if b.len() == 0 {
        assert(b =~= Seq::<char>::empty());
        assert(a + seq![':'] + b =~= a.push(':'));
        assert((a + seq![':'] + b).drop_last() =~= a);
    } else {
        let s = a + seq![':'] + b;
        let bl = b.drop_last();
        assert(s.drop_last() =~= a + seq![':'] + bl);
        assert(no_colon(bl));
        lemma_colon_parts_tail(a, bl);
        assert(s.last() == b.last());
        assert(b.last() != ':');
        let rest = colon_parts(a).push(bl);
        assert(colon_parts(s) == rest.update(rest.len() - 1, rest.last().push(s.last())));
        assert(bl.push(b.last()) =~= b);
        assert(rest.update(rest.len() - 1, bl.push(b.last())) =~= colon_parts(a).push(b));
    }
}

/// Text without colons is one part.
proof fn lemma_colon_parts_whole(a: Seq<char>)
    requires
        no_colon(a),
    ensures
        colon_parts(a) == seq![a],
    decreases a.len(),
{
    if a.len() > 0 {
        lemma_colon_parts_whole(a.drop_last());
        assert(a.drop_last().push(a.last()) =~= a);
    } else {
        assert(a =~= Seq::<char>::empty());
    }
}

/// Where the hyphenated form of a UUID reads back as it, so does `table:uuid` (the table
/// holding no colon).
proof fn lemma_record_string_roundtrip(table: Seq<char>, v: u128)
    requires
        no_colon(table),
        spec_uuid_parse(uuid_hyphenated(v)) == Some(v),
    ensures
        spec_parse_simple_id(table + seq![':'] + uuid_hyphenated(v)) == Some(v),
        spec_parse_simple_id(uuid_hyphenated(v)) == Some(v),
{
    lemma_hyphenated_no_colon(v);
    lemma_colon_parts_whole(table);
    lemma_colon_parts_tail(table, uuid_hyphenated(v));
    lemma_colon_parts_whole(uuid_hyphenated(v));
    assert(colon_parts(table + seq![':'] + uuid_hyphenated(v)) =~= seq![table, uuid_hyphenated(v)]);
}

} // verus!
