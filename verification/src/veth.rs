use vstd::prelude::*;
use vstd::string::StrSliceExecFns;
use vstd::string::StringExecFns;
use vstd::string::StringSliceAdditionalSpecFns;

verus! {

/// `b':'` and `b'-'` separate the bytes of a textual MAC address.
pub open spec fn is_separator(b: u8) -> bool {
    b == 0x3a || b == 0x2d
}

/// The pieces of `s` between separators, in order (`n` separators give
/// `n + 1` pieces, empty ones included).
pub open spec fn split_fields(s: Seq<u8>) -> Seq<Seq<u8>>
    decreases s.len(),
{
    if s.len() == 0 {
        seq![Seq::<u8>::empty()]
    } else {
        let init = split_fields(s.drop_last());
        if is_separator(s.last()) {
            init.push(Seq::<u8>::empty())
        } else {
            init.update(init.len() - 1, init.last().push(s.last()))
        }
    }
}

/// `split_fields` always yields at least one piece.
pub proof fn lemma_split_fields_nonempty(s: Seq<u8>)
    ensures
        split_fields(s).len() >= 1,
    decreases s.len(),
{
    if s.len() > 0 {
        lemma_split_fields_nonempty(s.drop_last());
    }
}

/// The value of an ASCII hexadecimal digit.
pub open spec fn hex_digit(b: u8) -> Option<u8> {
    if 0x30 <= b <= 0x39 {
        Some((b - 0x30) as u8)
    } else if 0x41 <= b <= 0x46 {
        Some((b - 0x41 + 10) as u8)
    } else if 0x61 <= b <= 0x66 {
        Some((b - 0x61 + 10) as u8)
    } else {
        None
    }
}

/// Every byte of `d` is a hexadecimal digit.
pub open spec fn all_hex(d: Seq<u8>) -> bool {
    forall|i: int| 0 <= i < d.len() ==> (#[trigger] hex_digit(d[i])) is Some
}

/// The number that the hexadecimal digits `d` write.
pub open spec fn hex_value(d: Seq<u8>) -> int
    decreases d.len(),
{
    if d.len() == 0 {
        0
    } else {
        hex_value(d.drop_last()) * 16 + hex_digit(d.last()).unwrap() as int
    }
}

/// The byte that at least one hexadecimal digit write, if below 256.
pub open spec fn hex_byte(digits: Seq<u8>) -> Option<u8> {
    if digits.len() > 0 && all_hex(digits) && hex_value(digits) <= 255 {
        Some(hex_value(digits) as u8)
    } else {
        None
    }
}

/// What `u8::from_str_radix(field, 16)` accepts: an optional `+`, then at
/// least one hexadecimal digit, for a value below 256.
pub open spec fn field_value(field: Seq<u8>) -> Option<u8> {
    if field.len() > 0 && field[0] == 0x2b {
        hex_byte(field.skip(1))
    } else {
        hex_byte(field)
    }
}

/// One of the first six pieces of `s` is no hexadecimal byte.
pub open spec fn mac_has_bad_digit(s: Seq<u8>) -> bool {
    let fields = split_fields(s);
    exists|i: int| 0 <= i < fields.len() && i < 6 && (#[trigger] field_value(fields[i])) is None
}

/// The six bytes that `s` writes, if it writes a MAC address.
pub open spec fn mac_bytes_of_text(s: Seq<u8>) -> Option<Seq<u8>> {
    let fields = split_fields(s);
    if !mac_has_bad_digit(s) && fields.len() == 6 {
        Some(Seq::new(6, |i: int| field_value(fields[i]).unwrap()))
    } else {
        None
    }
}

/// Why a text is no MAC address.
#[derive(Debug)]
pub enum MacAddrError {
    /// The text (held here) has not six pieces.
    InvalidAddress(String),
    /// A piece is no hexadecimal byte.
    InvalidRadixDigit,
}

impl MacAddrError {
    /// The message that reports the error.
    pub fn message(&self) -> (s: String)
        ensures
            self matches MacAddrError::InvalidAddress(text) ==> s@ == "Invalid MAC address: "@
                + text@,
            self is InvalidRadixDigit ==> s@ == "Invalid radix digit"@,
    {
        match self {
            MacAddrError::InvalidAddress(text) => "Invalid MAC address: ".to_owned().concat(
                text.as_str(),
            ),
            MacAddrError::InvalidRadixDigit => "Invalid radix digit".to_owned(),
        }
    }
}

/// A MAC address.
#[derive(Debug, Clone, Copy, PartialEq, Eq, PartialOrd, Ord, Hash, Default)]
pub struct MacAddr {
    bytes: [u8; 6],
}

/// The ranges of the pieces of `s` between separators.
fn split_ranges(s: &[u8]) -> (ranges: Vec<(usize, usize)>)
    ensures
        ranges@.len() == split_fields(s@).len(),
        forall|k: int|
            0 <= k < ranges@.len() ==> {
                let (a, b) = #[trigger] ranges@[k];
                &&& a <= b <= s@.len()
                &&& split_fields(s@)[k] == s@.subrange(a as int, b as int)
            },
{
    let mut ranges: Vec<(usize, usize)> = Vec::new();
    let mut start: usize = 0;
    let mut i: usize = 0;
    assert(s@.take(0) =~= Seq::<u8>::empty());
    assert(ranges@.map_values(|r: (usize, usize)| s@.subrange(r.0 as int, r.1 as int)).push(
        s@.subrange(0, 0),
    ) =~= seq![Seq::<u8>::empty()]);
    while i < s.len()
        invariant
            start <= i <= s@.len(),
            split_fields(s@.take(i as int)) == ranges@.map_values(
                |r: (usize, usize)| s@.subrange(r.0 as int, r.1 as int),
            ).push(s@.subrange(start as int, i as int)),
            forall|k: int|
                0 <= k < ranges@.len() ==> {
                    let (a, b) = #[trigger] ranges@[k];
                    a <= b <= start
                },
        decreases s@.len() - i,
    {
        let ghost before = ranges@;
        assert(s@.take(i + 1).drop_last() =~= s@.take(i as int));
        assert(s@.take(i + 1).last() == s@[i as int]);
        if s[i] == 0x3a || s[i] == 0x2d {
            let ghost old_start = start;
            ranges.push((start, i));
            start = i + 1;
            assert(s@.subrange(start as int, (i + 1) as int) =~= Seq::<u8>::empty());
            assert(ranges@.map_values(|r: (usize, usize)| s@.subrange(r.0 as int, r.1 as int))
                =~= before.map_values(|r: (usize, usize)| s@.subrange(r.0 as int, r.1 as int)).push(
                s@.subrange(old_start as int, i as int)));
        } else {
            assert(s@.subrange(start as int, (i + 1) as int) =~= s@.subrange(
                start as int,
                i as int,
            ).push(s@[i as int]));
        }
        i = i + 1;
    }
    let ghost before = ranges@;
    ranges.push((start, i));
    assert(s@.take(i as int) =~= s@);
    assert forall|k: int| 0 <= k < ranges@.len() implies split_fields(s@)[k] == s@.subrange(
        ranges@[k].0 as int,
        ranges@[k].1 as int,
    ) by {
        if k < before.len() {
            assert(split_fields(s@)[k] == before.map_values(
                |r: (usize, usize)| s@.subrange(r.0 as int, r.1 as int),
            )[k]);
        }
    }
    ranges
}


/// `hex_value` of digits is at least that of any prefix, and never negative.
pub proof fn lemma_hex_value_prefix(d: Seq<u8>, k: int)
    requires
        all_hex(d),
        0 <= k <= d.len(),
    ensures
        0 <= hex_value(d.take(k)) <= hex_value(d),
    decreases d.len(),
{
    if k == d.len() {
        assert(d.take(k) =~= d);
        if d.len() > 0 {
            lemma_hex_value_prefix(d.drop_last(), 0);
        } else {
        }
    } else {
        assert(all_hex(d.drop_last())) by {
            assert forall|i: int| 0 <= i < d.drop_last().len() implies (#[trigger] hex_digit(
                d.drop_last()[i],
            )) is Some by {
                assert(d.drop_last()[i] == d[i]);
            }
        }
        lemma_hex_value_prefix(d.drop_last(), k);
        lemma_hex_value_prefix(d.drop_last(), d.drop_last().len() as int);
        assert(d.drop_last().take(k) =~= d.take(k));
        assert(d.drop_last().take(d.drop_last().len() as int) =~= d.drop_last());
        assert(hex_digit(d[d.len() - 1]) is Some);
    }
}

/// The value of an ASCII hexadecimal digit.
fn hex_digit_value(b: u8) -> (r: Option<u8>)
    ensures
        r == hex_digit(b),
{
    if 0x30 <= b && b <= 0x39 {
        Some(b - 0x30)
    } else if 0x41 <= b && b <= 0x46 {
        Some(b - 0x41 + 10)
    } else if 0x61 <= b && b <= 0x66 {
        Some(b - 0x61 + 10)
    } else {
        None
    }
}

/// Reads the byte that `s[a..b]` writes in hexadecimal, as `u8::from_str_radix`
/// with radix 16 does.
fn parse_field(s: &[u8], a: usize, b: usize) -> (r: Option<u8>)
    requires
        a <= b <= s@.len(),
    ensures
        r == field_value(s@.subrange(a as int, b as int)),
{
    let ghost field = s@.subrange(a as int, b as int);
    let mut d = a;
    if b > a && s[a] == 0x2b {
        d = a + 1;
        assert(field.skip(1) =~= s@.subrange(d as int, b as int));
    } else {
        assert(field =~= s@.subrange(d as int, b as int));
    }
    let ghost digits = s@.subrange(d as int, b as int);
    if d == b {
        return None;
    }
    let mut value: u32 = 0;
    let mut j = d;
    assert(s@.subrange(d as int, d as int) =~= Seq::<u8>::empty());
    while j < b
        invariant
            d < b <= s@.len(),
            d <= j <= b,
            digits == s@.subrange(d as int, b as int),
            field_value(s@.subrange(a as int, b as int)) == hex_byte(digits),
            value <= 255,
            all_hex(s@.subrange(d as int, j as int)),
            value == hex_value(s@.subrange(d as int, j as int)),
        decreases b - j,
    {
        let ghost prefix = s@.subrange(d as int, (j + 1) as int);
        assert(prefix.drop_last() =~= s@.subrange(d as int, j as int));
        assert(prefix.last() == s@[j as int]);
        match hex_digit_value(s[j]) {
            None => {
                assert(digits[j - d] == s@[j as int]);
                assert(!all_hex(digits));
                return None;
            },
            Some(v) => {
                assert(all_hex(prefix)) by {
                    assert forall|i: int| 0 <= i < prefix.len() implies (#[trigger] hex_digit(
                        prefix[i],
                    )) is Some by {
                        if i < prefix.len() - 1 {
                            assert(prefix[i] == s@.subrange(d as int, j as int)[i]);
                        }
                    }
                }
                value = value * 16 + v as u32;
                if value > 255 {
                    proof {
                        if all_hex(digits) {
                            lemma_hex_value_prefix(digits, (j + 1 - d) as int);
                            assert(digits.take((j + 1 - d) as int) =~= prefix);
                        }
                    }
                    return None;
                }
            },
        }
        j = j + 1;
    }
    assert(s@.subrange(d as int, j as int) =~= digits);
    Some(value as u8)
}

impl MacAddr {
    /// The six bytes of the address.
    pub closed spec fn bytes_of(&self) -> Seq<u8> {
        self.bytes@
    }

    /// The address whose bytes are `bytes`.
    pub closed spec fn of_bytes(bytes: [u8; 6]) -> MacAddr {
        MacAddr { bytes }
    }

    /// The address with the given bytes.
    pub fn new(bytes: [u8; 6]) -> (r: MacAddr)
        ensures
            r == MacAddr::of_bytes(bytes),
            r.bytes_of() == bytes@,
    {
        MacAddr { bytes }
    }

    /// The bytes of the address.
    pub fn bytes(self) -> (r: [u8; 6])
        ensures
            r@ == self.bytes_of(),
    {
        self.bytes
    }

    /// Reads a MAC address written as six hexadecimal bytes separated by `:`
    /// or `-`.
    ///
    /// The pieces are read in order: one of the first six that is no
    /// hexadecimal byte gives `InvalidRadixDigit`; otherwise a text of other
    /// than six pieces gives `InvalidAddress`, with the text.
    pub fn parse(input: &str) -> (res: Result<MacAddr, MacAddrError>)
        ensures
            mac_has_bad_digit(input.spec_bytes()) ==> res matches Err(MacAddrError::InvalidRadixDigit),
            !mac_has_bad_digit(input.spec_bytes()) && split_fields(input.spec_bytes()).len() != 6 ==> (res matches Err(
                MacAddrError::InvalidAddress(text),
            ) && text@ == input@),
            mac_bytes_of_text(input.spec_bytes()) matches Some(b) ==> (res matches Ok(m) && m.bytes_of()
                == b),
    {
        let s = input.as_bytes();
        let ghost fields = split_fields(s@);
        let ranges = split_ranges(s);
        let mut values: Vec<u8> = Vec::new();
        let mut nth: usize = 0;
        while nth < ranges.len()
            invariant
                s@ == input.spec_bytes(),
                fields == split_fields(s@),
                ranges@.len() == fields.len(),
                forall|k: int|
                    0 <= k < ranges@.len() ==> {
                        let (a, b) = #[trigger] ranges@[k];
                        &&& a <= b <= s@.len()
                        &&& fields[k] == s@.subrange(a as int, b as int)
                    },
                nth <= ranges@.len(),
                nth <= 6,
                values@.len() == nth,
                forall|k: int| 0 <= k < nth ==> field_value(#[trigger] fields[k]) == Some(values@[k]),
            decreases ranges@.len() - nth,
        {
            if nth == 6 {
                proof {
                    assert forall|k: int| 0 <= k < fields.len() && k < 6 implies !((
                    #[trigger] field_value(fields[k])) is None) by {
                        assert(field_value(fields[k]) == Some(values@[k]));
                    }
                }
                return Err(MacAddrError::InvalidAddress(input.to_owned()));
            }
            let (a, b) = ranges[nth];
            assert(fields[nth as int] == s@.subrange(a as int, b as int));
            match parse_field(s, a, b) {
                None => {
                    return Err(MacAddrError::InvalidRadixDigit);
                },
                Some(v) => {
                    values.push(v);
                },
            }
            nth = nth + 1;
        }
        proof {
            assert forall|k: int| 0 <= k < fields.len() && k < 6 implies !((#[trigger] field_value(
                fields[k],
            )) is None) by {
                assert(field_value(fields[k]) == Some(values@[k]));
            }
        }
        if nth != 6 {
            return Err(MacAddrError::InvalidAddress(input.to_owned()));
        }
        let bytes: [u8; 6] = [values[0], values[1], values[2], values[3], values[4], values[5]];
        proof {
            assert(bytes@ =~= Seq::new(6, |i: int| field_value(fields[i]).unwrap()));
        }
        Ok(MacAddr { bytes })
    }
}


/// The upper-case hexadecimal digit for `n < 16`.
pub open spec fn hex_upper(n: int) -> char {
    if n < 10 {
        (0x30 + n) as char
    } else {
        (0x41 + n - 10) as char
    }
}

/// A byte as two upper-case hexadecimal digits.
pub open spec fn byte_text(b: u8) -> Seq<char> {
    seq![hex_upper(b as int / 16), hex_upper(b as int % 16)]
}

/// Six bytes written as `XX:XX:XX:XX:XX:XX`.
pub open spec fn mac_text(b: Seq<u8>) -> Seq<char> {
    byte_text(b[0]) + seq![':'] + byte_text(b[1]) + seq![':'] + byte_text(b[2]) + seq![':']
        + byte_text(b[3]) + seq![':'] + byte_text(b[4]) + seq![':'] + byte_text(b[5])
}

/// The upper-case hexadecimal digit for `n < 16`.
fn hex_upper_digit(n: u8) -> (c: char)
    requires
        n < 16,
    ensures
        c == hex_upper(n as int),
{
    if n < 10 {
        (0x30 + n) as char
    } else {
        (0x41 + n - 10) as char
    }
}

/// Calls `String::from_iter` on the characters.
#[verifier::external_body]
fn string_from_chars(chars: Vec<char>) -> (s: String)
    ensures
        s@ == chars@,
{
    String::from_iter(chars)
}

/// Appends a byte as two upper-case hexadecimal digits.
fn push_byte_text(chars: &mut Vec<char>, b: u8)
    ensures
        final(chars)@ == old(chars)@ + byte_text(b),
{
    chars.push(hex_upper_digit(b / 16));
    chars.push(hex_upper_digit(b % 16));
    assert(final(chars)@ =~= old(chars)@ + byte_text(b));
}

impl MacAddr {
    /// The address as `XX:XX:XX:XX:XX:XX`, in upper-case hexadecimal.
    pub fn to_string(&self) -> (s: String)
        ensures
            s@ == mac_text(self.bytes_of()),
    {
        let mut chars: Vec<char> = Vec::new();
        push_byte_text(&mut chars, self.bytes[0]);
        chars.push(':');
        push_byte_text(&mut chars, self.bytes[1]);
        chars.push(':');
        push_byte_text(&mut chars, self.bytes[2]);
        chars.push(':');
        push_byte_text(&mut chars, self.bytes[3]);
        chars.push(':');
        push_byte_text(&mut chars, self.bytes[4]);
        chars.push(':');
        push_byte_text(&mut chars, self.bytes[5]);
        assert(chars@ =~= mac_text(self.bytes@));
        string_from_chars(chars)
    }
}

/// An address holds exactly the bytes it was made from, and two addresses made
/// from bytes are equal exactly when the bytes are.
pub proof fn lemma_of_bytes(a: [u8; 6], b: [u8; 6])
    ensures
        MacAddr::of_bytes(a).bytes_of() == a@,
        MacAddr::of_bytes(a) == MacAddr::of_bytes(b) <==> a@ == b@,
{
    broadcast use vstd::array::group_array_axioms;

    if a@ == b@ {
        assert forall|i: int| 0 <= i < 6 implies a[i] == b[i] by {
            assert(a@[i] == b@[i]);
        }
        assert(a =~= b);
    }
}

impl From<[u8; 6]> for MacAddr {
    fn from(v: [u8; 6]) -> (r: Self) {
        MacAddr::new(v)
    }
}

impl vstd::std_specs::convert::FromSpecImpl<[u8; 6]> for MacAddr {
    open spec fn obeys_from_spec() -> bool {
        true
    }

    open spec fn from_spec(v: [u8; 6]) -> Self {
        MacAddr::of_bytes(v)
    }
}

impl std::str::FromStr for MacAddr {
    type Err = MacAddrError;

    fn from_str(input: &str) -> (res: Result<Self, Self::Err>)
        ensures
            mac_has_bad_digit(input.spec_bytes()) ==> res matches Err(MacAddrError::InvalidRadixDigit),
            !mac_has_bad_digit(input.spec_bytes()) && split_fields(input.spec_bytes()).len() != 6 ==> (res matches Err(
                MacAddrError::InvalidAddress(text),
            ) && text@ == input@),
            mac_bytes_of_text(input.spec_bytes()) matches Some(b) ==> (res matches Ok(m) && m.bytes_of()
                == b),
    {
        MacAddr::parse(input)
    }
}


/// Appending bytes without separators extends the last piece.
pub proof fn lemma_split_fields_append(x: Seq<u8>, y: Seq<u8>)
    requires
        forall|i: int| 0 <= i < y.len() ==> !is_separator(#[trigger] y[i]),
    ensures
        split_fields(x + y) == split_fields(x).update(
            split_fields(x).len() - 1,
            split_fields(x).last() + y,
        ),
    decreases y.len(),
{
    lemma_split_fields_nonempty(x);
    if y.len() == 0 {
        assert(x + y =~= x);
        assert(split_fields(x).last() + y =~= split_fields(x).last());
        assert(split_fields(x).update(split_fields(x).len() - 1, split_fields(x).last())
            =~= split_fields(x));
    } else {
        let y0 = y.drop_last();
        lemma_split_fields_append(x, y0);
        assert((x + y).drop_last() =~= x + y0);
        assert((x + y).last() == y.last());
        assert(!is_separator(y[y.len() - 1]));
        let s0 = split_fields(x);
        assert(s0.last() + y =~= (s0.last() + y0).push(y.last()));
        assert(split_fields(x + y) =~= s0.update(s0.len() - 1, s0.last() + y));
    }
}

/// A separator starts a new, empty piece.
pub proof fn lemma_split_fields_separator(x: Seq<u8>, c: u8)
    requires
        is_separator(c),
    ensures
        split_fields(x.push(c)) == split_fields(x).push(Seq::<u8>::empty()),
{
    assert(x.push(c).drop_last() =~= x);
}

/// The ASCII code of `hex_upper(n)`.
pub open spec fn hex_upper_byte(n: int) -> u8 {
    hex_upper(n) as u8
}

/// The ASCII codes of `byte_text(b)`.
pub open spec fn byte_digits(b: u8) -> Seq<u8> {
    seq![hex_upper_byte(b as int / 16), hex_upper_byte(b as int % 16)]
}

/// Two upper-case digits hold no separator and read back as the byte they write.
proof fn lemma_byte_text_value(b: u8)
    ensures
        field_value(byte_digits(b)) == Some(b),
        forall|i: int| 0 <= i < byte_digits(b).len() ==> !is_separator(#[trigger] byte_digits(b)[i]),
{
    let hi = b as int / 16;
    let lo = b as int % 16;
    let d = seq![hex_upper_byte(hi), hex_upper_byte(lo)];
    assert(0 <= hi < 16 && 0 <= lo < 16);
    assert(hex_digit(hex_upper_byte(hi)) == Some(hi as u8));
    assert(hex_digit(hex_upper_byte(lo)) == Some(lo as u8));
    assert(all_hex(d));
    assert(d.drop_last() =~= seq![hex_upper_byte(hi)]);
    assert(d.drop_last().drop_last() =~= Seq::<u8>::empty());
    assert(hex_value(d.drop_last().drop_last()) == 0);
    assert(hex_value(d.drop_last()) == hi);
    assert(hex_value(d) == hi * 16 + lo);
    assert(hi * 16 + lo == b);
    assert(d[0] != 0x2b);
}

/// Reading back the text of an address gives the address: the ASCII bytes of
/// `mac_text(b)` write exactly the bytes `b`.
pub proof fn lemma_mac_text_roundtrip(b: Seq<u8>)
    requires
        b.len() == 6,
    ensures
        mac_bytes_of_text(vstd::utf8::encode_utf8(mac_text(b))) == Some(b),
{
    let text = mac_text(b);
    assert forall|i: int| 0 <= i < text.len() implies (text[i] as u32) < 128 by {
        let k = i / 3;
        assert(0 <= b[k] as int / 16 < 16);
        assert(0 <= b[k] as int % 16 < 16);
    }
    assert(vstd::utf8::is_ascii_chars(text));
    vstd::utf8::is_ascii_chars_encode_utf8(text);
    let t = vstd::utf8::encode_utf8(text);
    let f = |k: int| byte_digits(b[k]);
    let sep = seq![0x3au8];
    assert(t =~= f(0) + sep + f(1) + sep + f(2) + sep + f(3) + sep + f(4) + sep + f(5)) by {
        assert forall|i: int| 0 <= i < t.len() implies t[i] == (f(0) + sep + f(1) + sep + f(2)
            + sep + f(3) + sep + f(4) + sep + f(5))[i] by {
            assert(t[i] == text[i] as u8);
        }
    }
    lemma_byte_text_value(b[0]);
    lemma_byte_text_value(b[1]);
    lemma_byte_text_value(b[2]);
    lemma_byte_text_value(b[3]);
    lemma_byte_text_value(b[4]);
    lemma_byte_text_value(b[5]);
    let e = Seq::<u8>::empty();
    assert(split_fields(e) =~= seq![e]);
    lemma_split_fields_append(e, f(0));
    assert(e + f(0) =~= f(0));
    let p0 = f(0);
    assert(split_fields(p0) =~= seq![f(0)]);
    lemma_split_fields_separator(p0, 0x3au8);
    assert(p0.push(0x3au8) =~= p0 + sep);
    let p1 = p0 + sep + f(1);
    lemma_split_fields_append(p0 + sep, f(1));
    assert(split_fields(p1) =~= seq![f(0), f(1)]);
    lemma_split_fields_separator(p1, 0x3au8);
    assert(p1.push(0x3au8) =~= p1 + sep);
    let p2 = p1 + sep + f(2);
    lemma_split_fields_append(p1 + sep, f(2));
    assert(split_fields(p2) =~= seq![f(0), f(1), f(2)]);
    lemma_split_fields_separator(p2, 0x3au8);
    assert(p2.push(0x3au8) =~= p2 + sep);
    let p3 = p2 + sep + f(3);
    lemma_split_fields_append(p2 + sep, f(3));
    assert(split_fields(p3) =~= seq![f(0), f(1), f(2), f(3)]);
    lemma_split_fields_separator(p3, 0x3au8);
    assert(p3.push(0x3au8) =~= p3 + sep);
    let p4 = p3 + sep + f(4);
    lemma_split_fields_append(p3 + sep, f(4));
    assert(split_fields(p4) =~= seq![f(0), f(1), f(2), f(3), f(4)]);
    lemma_split_fields_separator(p4, 0x3au8);
    assert(p4.push(0x3au8) =~= p4 + sep);
    let p5 = p4 + sep + f(5);
    lemma_split_fields_append(p4 + sep, f(5));
    assert(split_fields(p5) =~= seq![f(0), f(1), f(2), f(3), f(4), f(5)]);
    assert(t == p5);
    let fields = split_fields(t);
    assert(!mac_has_bad_digit(t)) by {
        assert forall|i: int| 0 <= i < fields.len() && i < 6 implies !((#[trigger] field_value(
            fields[i],
        )) is None) by {
            assert(fields[i] == f(i));
            assert(field_value(byte_digits(b[i])) == Some(b[i]));
        }
    }
    assert(Seq::new(6, |i: int| field_value(fields[i]).unwrap()) =~= b) by {
        assert forall|i: int| 0 <= i < 6 implies field_value(fields[i]).unwrap() == b[i] by {
            assert(fields[i] == f(i));
            assert(field_value(byte_digits(b[i])) == Some(b[i]));
        }
    }
}


/// Whether bit `b` of `mask` is set.
pub open spec fn bit_set(mask: u64, b: u64) -> bool {
    (mask >> b) & 1u64 == 1u64
}

/// Setting bit `c` sets that bit and leaves the others as they were.
proof fn lemma_set_bit(mask: u64, c: u64)
    requires
        c < 64,
    ensures
        forall|b: u64|
            b < 64 ==> (#[trigger] bit_set(mask | (1u64 << c), b) <==> (bit_set(mask, b) || b
                == c)),
{
    assert forall|b: u64| b < 64 implies (#[trigger] bit_set(mask | (1u64 << c), b) <==> (
    bit_set(mask, b) || b == c)) by {
        assert((((mask | (1u64 << c)) >> b) & 1u64 == 1u64) <==> (((mask >> b) & 1u64 == 1u64)
            || b == c)) by (bit_vector)
            requires
                b < 64,
                c < 64,
        ;
    }
}

/// The receive-packet-steering bitmap of a queue: bit `c` is set for each core
/// `c` in `cores`, and no other bit.
pub fn rps_cpu_mask(cores: &[usize]) -> (mask: u64)
    requires
        forall|i: int| 0 <= i < cores@.len() ==> cores@[i] < 64,
    ensures
        forall|b: u64| b < 64 ==> (#[trigger] bit_set(mask, b) <==> cores@.contains(b as usize)),
{
    let mut mask: u64 = 0;
    assert forall|b: u64| b < 64 implies !#[trigger] bit_set(0u64, b) by {
        assert((0u64 >> b) & 1u64 == 0u64) by (bit_vector);
    }
    let mut i: usize = 0;
    while i < cores.len()
        invariant
            i <= cores@.len(),
            forall|k: int| 0 <= k < cores@.len() ==> cores@[k] < 64,
            forall|b: u64|
                b < 64 ==> (#[trigger] bit_set(mask, b) <==> cores@.take(i as int).contains(
                    b as usize,
                )),
        decreases cores@.len() - i,
    {
        let core = cores[i];
        let c = core as u64;
        proof {
            lemma_set_bit(mask, c);
            let before = cores@.take(i as int);
            let after = cores@.take(i + 1);
            assert(after =~= before.push(core));
            assert forall|b: u64| b < 64 implies (#[trigger] bit_set(mask | (1u64 << c), b)
                <==> after.contains(b as usize)) by {
                if before.contains(b as usize) {
                    let k = choose|k: int| 0 <= k < before.len() && before[k] == b as usize;
                    assert(after[k] == b as usize);
                }
                if b == c {
                    assert(after[i as int] == b as usize);
                }
                if after.contains(b as usize) {
                    let k = choose|k: int| 0 <= k < after.len() && after[k] == b as usize;
                    if k < i {
                        assert(before[k] == b as usize);
                    }
                }
            }
        }
        mask = mask | (1u64 << c);
        i = i + 1;
    }
    assert(cores@.take(i as int) =~= cores@);
    mask
}

/// Whether a queue directory of a device is a receive queue: its name starts
/// with `rx-`.
pub fn is_rx_queue(name: &str) -> (r: bool)
    ensures
        r == (name@.len() >= 3 && name@.subrange(0, 3) == "rx-"@),
{
    proof {
        reveal_strlit("rx-");
    }
    if name.unicode_len() < 3 {
        return false;
    }
    let first = name.get_char(0);
    let second = name.get_char(1);
    let third = name.get_char(2);
    let r = first == 'r' && second == 'x' && third == '-';
    proof {
        let head = name@.subrange(0, 3);
        if r {
            assert(head =~= "rx-"@);
        } else {
            assert(head[0] == first && head[1] == second && head[2] == third);
            assert(head != "rx-"@);
        }
    }
    r
}

/// The ASCII code of the lower-case hexadecimal digit for `n < 16`.
pub open spec fn hex_lower_byte(n: int) -> u8 {
    if n < 10 {
        (0x30 + n) as u8
    } else {
        (0x61 + n - 10) as u8
    }
}

/// Case does not matter to a hexadecimal digit: each of `a` to `f` reads as its
/// upper-case letter does, and both are digits.
pub proof fn lemma_hex_digit_case(b: u8)
    requires
        0x61 <= b <= 0x66,
    ensures
        hex_digit(b) is Some,
        hex_digit(b) == hex_digit((b - 0x20) as u8),
{
}

/// The digits of every value below 16 read back as that value, in upper and
/// in lower case; and a byte that reads as a digit is one of those two digits
/// of its value.
pub proof fn lemma_hex_digit_values(n: int, b: u8)
    ensures
        0 <= n < 16 ==> hex_digit(hex_upper_byte(n)) == Some(n as u8),
        0 <= n < 16 ==> hex_digit(hex_lower_byte(n)) == Some(n as u8),
        hex_digit(b) matches Some(v) ==> v < 16 && (b == hex_upper_byte(v as int) || b
            == hex_lower_byte(v as int)),
{
}

/// A byte as two lower-case hexadecimal digits.
pub open spec fn byte_digits_lower(b: u8) -> Seq<u8> {
    seq![hex_lower_byte(b as int / 16), hex_lower_byte(b as int % 16)]
}

/// Six bytes written as `xx:xx:xx:xx:xx:xx` in lower-case hexadecimal.
pub open spec fn mac_bytes_lower(b: Seq<u8>) -> Seq<u8> {
    byte_digits_lower(b[0]) + seq![0x3au8] + byte_digits_lower(b[1]) + seq![0x3au8]
        + byte_digits_lower(b[2]) + seq![0x3au8] + byte_digits_lower(b[3]) + seq![0x3au8]
        + byte_digits_lower(b[4]) + seq![0x3au8] + byte_digits_lower(b[5])
}

/// Two lower-case digits hold no separator and read back as the byte they write.
proof fn lemma_byte_digits_lower_value(b: u8)
    ensures
        field_value(byte_digits_lower(b)) == Some(b),
        forall|i: int|
            0 <= i < byte_digits_lower(b).len() ==> !is_separator(
                #[trigger] byte_digits_lower(b)[i],
            ),
{
    let hi = b as int / 16;
    let lo = b as int % 16;
    let d = seq![hex_lower_byte(hi), hex_lower_byte(lo)];
    assert(0 <= hi < 16 && 0 <= lo < 16);
    assert(hex_digit(hex_lower_byte(hi)) == Some(hi as u8));
    assert(hex_digit(hex_lower_byte(lo)) == Some(lo as u8));
    assert(all_hex(d));
    assert(d.drop_last() =~= seq![hex_lower_byte(hi)]);
    assert(d.drop_last().drop_last() =~= Seq::<u8>::empty());
    assert(hex_value(d.drop_last().drop_last()) == 0);
    assert(hex_value(d.drop_last()) == hi);
    assert(hex_value(d) == hi * 16 + lo);
    assert(hi * 16 + lo == b);
    assert(d[0] != 0x2b);
    assert(d =~= byte_digits_lower(b));
}

/// Parsing the lower-case text of an address gives the address: case does not
/// matter to the parser.
pub proof fn lemma_mac_text_lower_roundtrip(b: Seq<u8>)
    requires
        b.len() == 6,
    ensures
        mac_bytes_of_text(mac_bytes_lower(b)) == Some(b),
{
    let t = mac_bytes_lower(b);
    let f = |k: int| byte_digits_lower(b[k]);
    let sep = seq![0x3au8];
    lemma_byte_digits_lower_value(b[0]);
    lemma_byte_digits_lower_value(b[1]);
    lemma_byte_digits_lower_value(b[2]);
    lemma_byte_digits_lower_value(b[3]);
    lemma_byte_digits_lower_value(b[4]);
    lemma_byte_digits_lower_value(b[5]);
    let e = Seq::<u8>::empty();
    assert(split_fields(e) =~= seq![e]);
    lemma_split_fields_append(e, f(0));
    assert(e + f(0) =~= f(0));
    let p0 = f(0);
    assert(split_fields(p0) =~= seq![f(0)]);
    lemma_split_fields_separator(p0, 0x3au8);
    assert(p0.push(0x3au8) =~= p0 + sep);
    let p1 = p0 + sep + f(1);
    lemma_split_fields_append(p0 + sep, f(1));
    assert(split_fields(p1) =~= seq![f(0), f(1)]);
    lemma_split_fields_separator(p1, 0x3au8);
    assert(p1.push(0x3au8) =~= p1 + sep);
    let p2 = p1 + sep + f(2);
    lemma_split_fields_append(p1 + sep, f(2));
    assert(split_fields(p2) =~= seq![f(0), f(1), f(2)]);
    lemma_split_fields_separator(p2, 0x3au8);
    assert(p2.push(0x3au8) =~= p2 + sep);
    let p3 = p2 + sep + f(3);
    lemma_split_fields_append(p2 + sep, f(3));
    assert(split_fields(p3) =~= seq![f(0), f(1), f(2), f(3)]);
    lemma_split_fields_separator(p3, 0x3au8);
    assert(p3.push(0x3au8) =~= p3 + sep);
    let p4 = p3 + sep + f(4);
    lemma_split_fields_append(p3 + sep, f(4));
    assert(split_fields(p4) =~= seq![f(0), f(1), f(2), f(3), f(4)]);
    lemma_split_fields_separator(p4, 0x3au8);
    assert(p4.push(0x3au8) =~= p4 + sep);
    let p5 = p4 + sep + f(5);
    lemma_split_fields_append(p4 + sep, f(5));
    assert(split_fields(p5) =~= seq![f(0), f(1), f(2), f(3), f(4), f(5)]);
    assert(t =~= p5);
    let fields = split_fields(t);
    assert(!mac_has_bad_digit(t)) by {
        assert forall|i: int| 0 <= i < fields.len() && i < 6 implies !((#[trigger] field_value(
            fields[i],
        )) is None) by {
            assert(fields[i] == f(i));
        }
    }
    assert(Seq::new(6, |i: int| field_value(fields[i]).unwrap()) =~= b) by {
        assert forall|i: int| 0 <= i < 6 implies field_value(fields[i]).unwrap() == b[i] by {
            assert(fields[i] == f(i));
        }
    }
}

} // verus!
