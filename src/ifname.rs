//! Interface names: fixed-capacity, NUL-terminated byte buffers.
use vstd::prelude::*;
use vstd::string::StringSliceAdditionalSpecFns;
use vstd::utf8::{encode_utf8, is_ascii_chars, is_ascii_chars_encode_utf8};

use crate::seqs::{first_index, lemma_first_index, lemma_first_index_props};
use crate::text::{
    append_dec_usize, ascii_chars, debug_quoted, debug_text, dec_text, escape_bytes, escaped_text,
};

verus! {

/// Capacity of an interface name, terminating NUL included.
pub const IF_NAME_SIZE: usize = 16;

/// Shortest interface name.
pub const IF_NAME_MIN: usize = 1;

/// Longest interface name.
pub const IF_NAME_MAX: usize = 15;

/// An interface name, NUL-padded to its capacity.
#[derive(Copy, Clone, Debug, Hash, PartialEq, Eq)]
pub struct IfName {
    name: [u8; 16],
}

/// What is wrong with the bytes of a would-be interface name.
#[derive(Copy, Clone, Debug, PartialEq, Eq, Structural)]
pub enum NameFault {
    /// Fewer than `IF_NAME_MIN` bytes.
    TooSmall,
    /// More than `IF_NAME_MAX` bytes.
    TooLarge,
    /// A NUL byte at the given position.
    Nul(usize),
}

/// Why a text is not an interface name; each variant carries the text.
#[derive(Clone, Debug, PartialEq, Eq)]
pub enum IfNameError {
    TooSmall(String),
    TooLarge(String),
    InvalidText(String, usize),
}

/// What is wrong with `b` as an interface name, if anything: the length is
/// checked first, then the bytes for a NUL.
pub open spec fn name_fault(b: Seq<u8>) -> Option<NameFault> {
    if b.len() < IF_NAME_MIN {
        Some(NameFault::TooSmall)
    } else if b.len() > IF_NAME_MAX {
        Some(NameFault::TooLarge)
    } else if first_index(b, 0u8) < b.len() {
        Some(NameFault::Nul(first_index(b, 0u8) as usize))
    } else {
        None
    }
}

/// `b` followed by NUL bytes up to the capacity.
pub open spec fn padded(b: Seq<u8>) -> Seq<u8> {
    b + Seq::new((IF_NAME_SIZE - b.len()) as nat, |i: int| 0u8)
}

/// The bytes before the first NUL.
pub open spec fn c_bytes(b: Seq<u8>) -> Seq<u8> {
    b.take(first_index(b, 0u8) as int)
}

/// Text of an interface name: its bytes before the first NUL, escaped as
/// `<[u8]>::escape_ascii` does.
pub open spec fn name_text(b: Seq<u8>) -> Seq<char> {
    ascii_chars(escape_bytes(c_bytes(b)))
}

impl IfName {
    /// The sixteen bytes of the buffer.
    pub closed spec fn view(&self) -> Seq<u8> {
        self.name@
    }

    /// The buffer holds `IF_NAME_SIZE` bytes.
    pub proof fn lemma_view_len(&self)
        ensures
            self@.len() == IF_NAME_SIZE,
    {
    }

    /// The name held in the given buffer, taken as it is.
    pub fn from(octets: &[u8; 16]) -> (r: IfName)
        ensures
            r@ == octets@,
    {
        IfName { name: *octets }
    }

    /// The bytes of the buffer.
    pub fn octets(&self) -> (r: &[u8; 16])
        ensures
            r@ == self@,
    {
        &self.name
    }

    /// The capacity of the buffer.
    pub fn len(&self) -> (r: usize)
        ensures
            r == IF_NAME_SIZE,
            r == self@.len(),
    {
        IF_NAME_SIZE
    }

    /// The name made of the bytes `b`, when they are one.
    pub fn try_from_octets(b: &[u8]) -> (r: Result<IfName, NameFault>)
        ensures
            match name_fault(b@) {
                Some(f) => r == Err::<IfName, NameFault>(f),
                None => r is Ok && r->Ok_0@ == padded(b@),
            },
    {
        let n = b.len();
        if n < IF_NAME_MIN {
            return Err(NameFault::TooSmall);
        }
        if n > IF_NAME_MAX {
            return Err(NameFault::TooLarge);
        }
        let mut name: [u8; 16] = [0u8; 16];
        let mut i: usize = 0;
        while i < n
            invariant
                n == b@.len(),
                n <= IF_NAME_MAX,
                i <= n,
                name@.len() == 16,
                forall|j: int| 0 <= j < i ==> b@[j] != 0u8,
                forall|j: int| 0 <= j < i ==> name@[j] == b@[j],
                forall|j: int| i <= j < 16 ==> name@[j] == 0u8,
            decreases n - i,
        {
            if b[i] == 0u8 {
                proof {
                    lemma_first_index(b@, 0u8, i as int);
                }
                return Err(NameFault::Nul(i));
            }
            name[i] = b[i];
            i = i + 1;
        }
        proof {
            lemma_first_index(b@, 0u8, n as int);
            assert(name@ =~= padded(b@));
        }
        Ok(IfName { name })
    }

    /// Parses an interface name: between `IF_NAME_MIN` and `IF_NAME_MAX` bytes,
    /// none of them NUL.
    pub fn try_from(value: &str) -> (r: Result<IfName, IfNameError>)
        ensures
            match name_fault(value.spec_bytes()) {
                None => r is Ok && r->Ok_0@ == padded(value.spec_bytes()),
                Some(NameFault::TooSmall) => r matches Err(IfNameError::TooSmall(v)) && v@ == value@,
                Some(NameFault::TooLarge) => r matches Err(IfNameError::TooLarge(v)) && v@ == value@,
                Some(NameFault::Nul(p)) => r matches Err(IfNameError::InvalidText(v, q)) && v@
                    == value@ && q == p,
            },
    {
        match IfName::try_from_octets(value.as_bytes()) {
            Ok(name) => Ok(name),
            Err(NameFault::TooSmall) => Err(IfNameError::TooSmall(String::from_str(value))),
            Err(NameFault::TooLarge) => Err(IfNameError::TooLarge(String::from_str(value))),
            Err(NameFault::Nul(p)) => Err(IfNameError::InvalidText(String::from_str(value), p)),
        }
    }

    /// The name as text: the bytes before the first NUL, escaped.
    pub fn to_string(&self) -> (r: String)
        ensures
            r@ == name_text(self@),
    {
        let mut b: Vec<u8> = Vec::new();
        let mut i: usize = 0;
        while i < IF_NAME_SIZE && self.name[i] != 0u8
            invariant
                i <= 16,
                self@.len() == 16,
                b@ == self@.take(i as int),
                forall|j: int| 0 <= j < i ==> self@[j] != 0u8,
            decreases 16 - i,
        {
            b.push(self.name[i]);
            proof {
                assert(self@.take(i as int + 1) =~= self@.take(i as int).push(self@[i as int]));
            }
            i = i + 1;
        }
        proof {
            lemma_first_index(self@, 0u8, i as int);
        }
        escaped_text(b.as_slice())
    }

    /// The text of the name, quoted as `{:?}` quotes a string.
    pub fn debug_string(&self) -> (r: String)
        ensures
            r@ == debug_text(name_text(self@)),
    {
        let t = self.to_string();
        debug_quoted(t.as_str())
    }
}

/// Text of an error for the given text, as `IfName::<Kind>Error { ... }`.
pub open spec fn name_error_text(e: IfNameError) -> Seq<char> {
    match e {
        IfNameError::TooSmall(v) => "IfName::TooSmallError { value: "@ + debug_text(v@) + ", len: "@
            + ascii_chars(dec_text(encode_utf8(v@).len() as int)) + ", min: "@ + ascii_chars(dec_text(IF_NAME_MIN as int))
            + " }"@,
        IfNameError::TooLarge(v) => "IfName::TooLargeError { value: "@ + debug_text(v@) + ", len: "@
            + ascii_chars(dec_text(encode_utf8(v@).len() as int)) + ", max: "@ + ascii_chars(dec_text(IF_NAME_MAX as int))
            + " }"@,
        IfNameError::InvalidText(v, p) => "IfName::InvalidCStringError { value: "@ + debug_text(v@)
            + ", error: \"nul byte found in provided data at position: "@ + ascii_chars(dec_text(p as int))
            + "\" }"@,
    }
}

impl IfNameError {
    /// Describes the error, naming the text and the rule it breaks.
    pub fn to_string(&self) -> (r: String)
        ensures
            r@ == name_error_text(*self),
    {
        match self {
            IfNameError::TooSmall(v) => {
                let mut r = String::from_str("IfName::TooSmallError { value: ");
                r.append(debug_quoted(v.as_str()).as_str());
                r.append(", len: ");
                append_dec_usize(&mut r, v.as_str().as_bytes().len());
                r.append(", min: ");
                append_dec_usize(&mut r, IF_NAME_MIN);
                r.append(" }");
                r
            },
            IfNameError::TooLarge(v) => {
                let mut r = String::from_str("IfName::TooLargeError { value: ");
                r.append(debug_quoted(v.as_str()).as_str());
                r.append(", len: ");
                append_dec_usize(&mut r, v.as_str().as_bytes().len());
                r.append(", max: ");
                append_dec_usize(&mut r, IF_NAME_MAX);
                r.append(" }");
                r
            },
            IfNameError::InvalidText(v, p) => {
                let mut r = String::from_str("IfName::InvalidCStringError { value: ");
                r.append(debug_quoted(v.as_str()).as_str());
                r.append(", error: \"nul byte found in provided data at position: ");
                append_dec_usize(&mut r, *p);
                r.append("\" }");
                r
            },
        }
    }
}

/// A character that names print as it is: printable ASCII other than the
/// quotes and the backslash, which the rendering escapes.
pub open spec fn is_plain_name_char(c: char) -> bool {
    ' ' <= c <= '~' && c != '"' && c != '\'' && c != '\\'
}

/// Plain bytes are their own escape.
proof fn lemma_escape_plain(b: Seq<u8>)
    requires
        forall|i: int| 0 <= i < b.len() ==> is_plain_name_char(#[trigger] b[i] as char),
    ensures
        escape_bytes(b) == b,
    decreases b.len(),
{
    if b.len() > 0 {
        lemma_escape_plain(b.drop_last());
        assert(is_plain_name_char(b[b.len() - 1] as char));
        assert(b.drop_last().push(b.last()) =~= b);
    }
}

/// A name of plain characters, of a length in range, parses, and its text is
/// the name it was parsed from.
pub proof fn lemma_ifname_round_trip(s: Seq<char>)
    requires
        IF_NAME_MIN <= s.len() <= IF_NAME_MAX,
        forall|i: int| 0 <= i < s.len() ==> is_plain_name_char(#[trigger] s[i]),
    ensures
        name_fault(encode_utf8(s)) is None,
        name_text(padded(encode_utf8(s))) == s,
{
    assert(is_ascii_chars(s));
    is_ascii_chars_encode_utf8(s);
    let b = encode_utf8(s);
    assert(b =~= Seq::new(s.len(), |i: int| s[i] as u8));
    assert forall|i: int| 0 <= i < b.len() implies #[trigger] b[i] != 0u8 && is_plain_name_char(b[i] as char) by {
        assert(b[i] == s[i] as u8);
        assert(is_plain_name_char(s[i]));
    }
    lemma_first_index(b, 0u8, b.len() as int);
    let p = padded(b);
    assert forall|j: int| 0 <= j < b.len() implies p[j] != 0u8 by {
        assert(p[j] == b[j]);
    }
    lemma_first_index(p, 0u8, b.len() as int);
    assert(c_bytes(p) =~= b);
    lemma_escape_plain(b);
    assert(ascii_chars(b) =~= s);
}

/// The bounds of a name's length: none is too small, fifteen bytes without
/// a NUL are a name, sixteen are too large.
pub proof fn lemma_name_length_bounds(b: Seq<u8>)
    ensures
        b.len() == 0 ==> name_fault(b) == Some(NameFault::TooSmall),
        b.len() == IF_NAME_MAX && (forall|i: int| 0 <= i < b.len() ==> #[trigger] b[i] != 0u8)
            ==> name_fault(b) is None,
        b.len() == IF_NAME_MAX + 1 ==> name_fault(b) == Some(NameFault::TooLarge),
{
    if b.len() == IF_NAME_MAX && (forall|i: int| 0 <= i < b.len() ==> #[trigger] b[i] != 0u8) {
        lemma_first_index(b, 0u8, b.len() as int);
    }
}

} // verus!
