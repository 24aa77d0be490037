//! The values that compiled programs hand to the runtime: integers, longs,
//! booleans, variants of these, and strings of UTF-16 code units.

use vstd::prelude::*;

verus! {

/// The runtime's errors. There are none yet: no value of this type is ever
/// made (its one field is private and nothing here makes one).
pub struct Error {
    none: (),
}

/// A 16-bit integer.
#[derive(Clone, Copy)]
pub struct Integer {
    inner: i16,
}

impl View for Integer {
    type V = i16;

    closed spec fn view(&self) -> i16 {
        self.inner
    }
}

impl Integer {
    /// The integer with value `value`.
    pub fn new(value: i16) -> (i: Integer)
        ensures
            i@ == value,
    {
        Integer { inner: value }
    }

    /// Whether the integer is zero.
    pub fn is_zero(self) -> (b: bool)
        ensures
            b == (self@ == 0),
    {
        self.inner == 0
    }
}

/// A 32-bit integer.
#[derive(Clone, Copy)]
pub struct Long {
    inner: i32,
}

impl View for Long {
    type V = i32;

    closed spec fn view(&self) -> i32 {
        self.inner
    }
}

impl Long {
    /// The long with value `value`.
    pub fn new(value: i32) -> (l: Long)
        ensures
            l@ == value,
    {
        Long { inner: value }
    }

    /// Whether the long is zero.
    pub fn is_zero(self) -> (b: bool)
        ensures
            b == (self@ == 0),
    {
        self.inner == 0
    }
}

/// A truth value.
pub struct Boolean {
    inner: bool,
}

impl View for Boolean {
    type V = bool;

    closed spec fn view(&self) -> bool {
        self.inner
    }
}

impl Boolean {
    /// `True`.
    pub fn true_() -> (b: Boolean)
        ensures
            b@ == true,
    {
        Boolean { inner: true }
    }

    /// `False`.
    pub fn false_() -> (b: Boolean)
        ensures
            b@ == false,
    {
        Boolean { inner: false }
    }

    /// The truth value.
    pub fn value(&self) -> (v: bool)
        ensures
            v == self@,
    {
        self.inner
    }
}

/// The runtime's results.
pub type Result<T> = core::result::Result<T, Error>;

/// A value of one of the types above.
pub enum Variant {
    Boolean(Boolean),
    Integer(Integer),
    Long(Long),
}

// ---------------------------------------------------------------------------
// UTF-16.

pub open spec fn is_high_surrogate(u: u16) -> bool {
    55296 <= u <= 56319
}

pub open spec fn is_low_surrogate(u: u16) -> bool {
    56320 <= u <= 57343
}

/// The code units of one character in UTF-16: one unit below U+10000, else
/// a high and a low surrogate.
pub open spec fn utf16_encode_char(c: char) -> Seq<u16> {
    let v = c as u32;
    if v < 65536 {
        seq![v as u16]
    } else {
        let w = (v - 65536) as u32;
        seq![(55296 + w / 1024) as u16, (56320 + w % 1024) as u16]
    }
}

/// The UTF-16 encoding of a text.
pub open spec fn utf16_encode(s: Seq<char>) -> Seq<u16>
    decreases s.len(),
{
    if s.len() == 0 {
        Seq::empty()
    } else {
        utf16_encode_char(s[0]) + utf16_encode(s.drop_first())
    }
}

/// U+FFFD REPLACEMENT CHARACTER.
pub open spec fn replacement_char() -> char {
    65533u32 as char
}

/// UTF-16 decoding in which each surrogate without its partner becomes
/// U+FFFD.
pub open spec fn utf16_decode_lossy(u: Seq<u16>) -> Seq<char>
    decreases u.len(),
{
    if u.len() == 0 {
        Seq::empty()
    } else if u.len() >= 2 && is_high_surrogate(u[0]) && is_low_surrogate(u[1]) {
        seq![(65536 + (u[0] - 55296) * 1024 + (u[1] - 56320)) as u32 as char]
            + utf16_decode_lossy(u.skip(2))
    } else if is_high_surrogate(u[0]) || is_low_surrogate(u[0]) {
        seq![replacement_char()] + utf16_decode_lossy(u.skip(1))
    } else {
        seq![u[0] as u32 as char] + utf16_decode_lossy(u.skip(1))
    }
}

/// Calls `str::encode_utf16`, collected into a vector: the text's UTF-16
/// code units, one for a character below U+10000, a surrogate pair for any
/// other.
#[verifier::external_body]
pub(crate) fn encode_utf16(s: &str) -> (units: Vec<u16>)
    ensures
        units@ == utf16_encode(s@),
{
    s.encode_utf16().collect()
}

/// Calls `std::string::String::from_utf16_lossy`: the text of the code
/// units, a surrogate pair giving one character and each unpaired surrogate
/// giving U+FFFD (as `char::decode_utf16` with the replacement character).
#[verifier::external_body]
fn from_utf16_lossy(units: &[u16]) -> (s: std::string::String)
    ensures
        s@ == utf16_decode_lossy(units@),
{
    std::string::String::from_utf16_lossy(units)
}

/// The code units before the first NUL, or all of them.
pub open spec fn before_nul(u: Seq<u16>) -> Seq<u16>
    decreases u.len(),
{
    if u.len() == 0 || u[0] == 0 {
        Seq::empty()
    } else {
        seq![u[0]] + before_nul(u.drop_first())
    }
}

/// A string: a sequence of UTF-16 code units, at most `u32::MAX` of them.
pub struct String {
    units: Vec<u16>,
}

impl View for String {
    type V = Seq<u16>;

    closed spec fn view(&self) -> Seq<u16> {
        self.units@
    }
}

impl String {
    /// Every string's length fits in 32 bits.
    pub closed spec fn wf(&self) -> bool {
        self.units@.len() <= u32::MAX
    }

    /// The string of the given code units. A runtime string holds
    /// at most `u32::MAX` units; longer text is refused as "String too long".
    pub fn from_units(units: Vec<u16>) -> (s: String)
        requires
            units@.len() <= u32::MAX,
        ensures
            s.wf(),
            s@ == units@,
    {
        String { units }
    }

    /// The string of a Rust text, encoded in UTF-16.
    pub fn from_str(text: &str) -> (s: String)
        requires
            utf16_encode(text@).len() <= u32::MAX,
        ensures
            s.wf(),
            s@ == utf16_encode(text@),
    {
        String { units: encode_utf16(text) }
    }

    /// The code units.
    pub fn as_slice(&self) -> (units: &[u16])
        ensures
            units@ == self@,
    {
        self.units.as_slice()
    }

    /// The text of the code units before the first NUL, decoded from UTF-16
    /// with U+FFFD for each unpaired surrogate.
    pub fn to_rust_string_lossy(&self) -> (text: std::string::String)
        ensures
            text@ == utf16_decode_lossy(before_nul(self@)),
    {
        let mut prefix: Vec<u16> = Vec::new();
        let mut i: usize = 0;
        let ghost u = self@;
        assert(u.skip(0) =~= u);
        while i < self.units.len() && self.units[i] != 0
            invariant
                i <= u.len(),
                u == self.units@,
                before_nul(u) == prefix@ + before_nul(u.skip(i as int)),
            decreases u.len() - i,
        {
            let c = self.units[i];
            prefix.push(c);
            proof {
                let rest = u.skip(i as int);
                assert(rest.drop_first() =~= u.skip(i + 1));
                assert(prefix@.drop_last() + (seq![c] + before_nul(u.skip(i + 1))) =~= prefix@
                    + before_nul(u.skip(i + 1)));
            }
            i = i + 1;
        }
        proof {
            assert(before_nul(u.skip(i as int)) =~= Seq::<u16>::empty());
            assert(prefix@ + Seq::<u16>::empty() =~= prefix@);
        }
        from_utf16_lossy(prefix.as_slice())
    }
}


// ---------------------------------------------------------------------------
// Laws of the string type.

proof fn lemma_decode_unit_char(c: char)
    requires
        (c as u32) < 65536,
    ensures
        !is_high_surrogate((c as u32) as u16),
        !is_low_surrogate((c as u32) as u16),
        ((c as u32) as u16) as u32 as char == c,
{
}

proof fn lemma_pair_arith(v: u32)
    requires
        65536 <= v <= 1114111,
    ensures
        55296 <= 55296 + (v - 65536) / 1024 <= 56319,
        56320 <= 56320 + (v - 65536) % 1024 <= 57343,
        65536 + ((55296 + (v - 65536) / 1024) - 55296) * 1024 + ((56320 + (v - 65536) % 1024)
            - 56320) == v,
{
    let w = (v - 65536) as int;
    assert(0 <= w < 1048576);
    assert(w / 1024 * 1024 + w % 1024 == w) by (nonlinear_arith);
    assert(0 <= w / 1024 < 1024) by (nonlinear_arith)
        requires
            0 <= w < 1048576,
    ;
    assert(0 <= w % 1024 < 1024) by (nonlinear_arith);
}

/// A character below U+10000 is one code unit of its own value; any other is
/// a surrogate pair, a high surrogate (D800 to DBFF) then a low one (DC00 to
/// DFFF), whose ten-bit halves give the character's value less 10000 (hex).
pub proof fn lemma_utf16_char_units(c: char)
    ensures
        (c as u32) < 0x10000 ==> utf16_encode_char(c) == seq![(c as u32) as u16],
        (c as u32) >= 0x10000 ==> {
            let u = utf16_encode_char(c);
            &&& u.len() == 2
            &&& 0xD800 <= u[0] <= 0xDBFF
            &&& 0xDC00 <= u[1] <= 0xDFFF
            &&& (u[0] - 0xD800) * 0x400 + (u[1] - 0xDC00) + 0x10000 == c as u32
        },
{
    let v = c as u32;
    if v >= 0x10000 {
        assert(v <= 0x10FFFF);
        let w = (v - 65536) as u32;
        assert(w / 1024 <= 1023 && w % 1024 <= 1023) by (nonlinear_arith)
            requires
                w <= 0xFFFFF,
        ;
        assert((w / 1024) * 1024 + w % 1024 == w) by (nonlinear_arith);
    }
}

/// Decoding the UTF-16 encoding of a text gives the text back.
pub proof fn lemma_utf16_roundtrip(s: Seq<char>)
    ensures
        utf16_decode_lossy(utf16_encode(s)) == s,
    decreases s.len(),
{
    if s.len() == 0 {
        assert(utf16_encode(s) =~= Seq::<u16>::empty());
    } else {
        let c = s[0];
        let rest = s.drop_first();
        lemma_utf16_roundtrip(rest);
        let e = utf16_encode(s);
        let er = utf16_encode(rest);
        let v = c as u32;
        vstd::utf8::char_is_scalar(c);
        vstd::utf8::char_u32_cast(c, v);
        assert(e == utf16_encode_char(c) + er);
        if v < 65536 {
            lemma_decode_unit_char(c);
            assert(e.skip(1) =~= er);
            assert(e[0] == v as u16);
        } else {
            assert(v <= 1114111);
            lemma_pair_arith(v);
            assert(e.skip(2) =~= er);
            let w = (v - 65536) as u32;
            assert(e[0] == (55296 + w / 1024) as u16);
            assert(e[1] == (56320 + w % 1024) as u16);
            assert((65536 + (e[0] - 55296) * 1024 + (e[1] - 56320)) as u32 == v);
            assert(v as char == c);
        }
        assert(utf16_decode_lossy(e) =~= seq![c] + rest);
        assert(seq![c] + rest =~= s);
    }
}

/// No character but NUL encodes to a zero code unit.
proof fn lemma_encode_no_nul(s: Seq<char>)
    requires
        !s.contains('\0'),
    ensures
        before_nul(utf16_encode(s)) == utf16_encode(s),
    decreases s.len(),
{
    if s.len() > 0 {
        let rest = s.drop_first();
        assert(!rest.contains('\0')) by {
            if rest.contains('\0') {
                let k = choose|k: int| 0 <= k < rest.len() && rest[k] == '\0';
                assert(s[k + 1] == '\0');
            }
        }
        lemma_encode_no_nul(rest);
        let e = utf16_encode(s);
        let c = s[0];
        assert(c != '\0') by {
            if c == '\0' {
                assert(s[0] == '\0');
            }
        }
        assert(e == utf16_encode_char(c) + utf16_encode(rest));
        let v = c as u32;
        vstd::utf8::char_is_scalar(c);
        vstd::utf8::char_u32_cast(c, v);
        assert(v != 0);
        if v < 65536 {
            assert(e[0] != 0);
            assert(e.drop_first() =~= utf16_encode(rest));
            assert(e =~= seq![e[0]] + e.drop_first());
            assert(before_nul(e) == seq![e[0]] + before_nul(e.drop_first()));
        } else {
            let e1 = e.drop_first();
            assert(e[0] != 0);
            assert(e1[0] != 0);
            assert(e1.drop_first() =~= utf16_encode(rest));
            assert(e1 =~= seq![e1[0]] + e1.drop_first());
            assert(e =~= seq![e[0]] + e1);
            assert(before_nul(e1) == seq![e1[0]] + before_nul(e1.drop_first()));
            assert(before_nul(e) == seq![e[0]] + before_nul(e1));
        }
    } else {
        assert(utf16_encode(s) =~= Seq::<u16>::empty());
    }
}

/// A string made from a text without NUL gives that text back.
pub proof fn lemma_string_text_roundtrip(text: Seq<char>)
    requires
        !text.contains('\0'),
    ensures
        utf16_decode_lossy(before_nul(utf16_encode(text))) == text,
{
    lemma_encode_no_nul(text);
    lemma_utf16_roundtrip(text);
}

} // verus!
