//! Link-level (Ethernet MAC) addresses.
use vstd::prelude::*;

use crate::seqs::{first_index, lemma_first_index, lemma_first_index_props};
use crate::text::{ascii_chars, dec_text, hex2, push_dec, push_hex2, ascii_string, is_ascii_bytes};

verus! {

/// Number of octets of a link-level address.
pub const OCTETS_SIZE: usize = 6;

/// A link-level address: exactly six raw octets.
#[derive(Copy, Clone, Debug, Hash, PartialEq, Eq)]
pub struct LinkLevelAddress {
    octets: [u8; 6],
}

/// Why a text is not a link-level address.
#[derive(Clone, Debug, PartialEq, Eq)]
pub struct ParseLinkLevelAddressError {
    /// The text that was parsed.
    pub source: String,
    /// What was wrong with it.
    pub error: String,
}

/// How reading one token as an octet fails.
pub enum HexFault {
    /// The token is empty.
    Empty,
    /// The token holds a character that is not a hexadecimal digit.
    InvalidDigit,
    /// The token has one digit.
    TooShort,
    /// The token has more than two digits.
    TooLong,
}

/// Value of a hexadecimal digit of either case, or -1 for any other character.
pub open spec fn hex_value(c: char) -> int {
    if '0' <= c <= '9' {
        c as int - 48
    } else if 'a' <= c <= 'f' {
        c as int - 87
    } else if 'A' <= c <= 'F' {
        c as int - 55
    } else {
        -1
    }
}

/// A token read as an octet: exactly two hexadecimal digits of either case.
/// An empty token, then a character that is not a digit, then a wrong number
/// of digits, decide the failure, in that order.
pub open spec fn hex_byte(t: Seq<char>) -> Result<u8, HexFault> {
    if t.len() == 0 {
        Err(HexFault::Empty)
    } else if exists|i: int| 0 <= i < t.len() && hex_value(#[trigger] t[i]) < 0 {
        Err(HexFault::InvalidDigit)
    } else if t.len() > 2 {
        Err(HexFault::TooLong)
    } else if t.len() < 2 {
        Err(HexFault::TooShort)
    } else {
        Ok((hex_value(t[0]) * 16 + hex_value(t[1])) as u8)
    }
}

/// The tokens of `s` split at `:` into at most `n` pieces, the last holding the rest.
pub open spec fn split_colon(s: Seq<char>, n: nat) -> Seq<Seq<char>>
    decreases n,
{
    let p = first_index(s, ':');
    if n <= 1 || p >= s.len() {
        seq![s]
    } else {
        seq![s.take(p as int)] + split_colon(s.skip(p as int + 1), (n - 1) as nat)
    }
}

/// The bytes of the tokens, or the first token that is not a byte with its fault.
pub open spec fn hex_tokens(ts: Seq<Seq<char>>) -> Result<Seq<u8>, (Seq<char>, HexFault)>
    decreases ts.len(),
{
    if ts.len() == 0 {
        Ok(Seq::empty())
    } else {
        match hex_byte(ts[0]) {
            Err(f) => Err((ts[0], f)),
            Ok(v) => match hex_tokens(ts.drop_first()) {
                Ok(rest) => Ok(seq![v] + rest),
                Err(e) => Err(e),
            },
        }
    }
}

/// Text of the failure of one token.
pub open spec fn fault_text(f: HexFault) -> Seq<char> {
    match f {
        HexFault::Empty => "cannot parse integer from empty string"@,
        HexFault::InvalidDigit => "invalid digit found in string"@,
        HexFault::TooShort => "octet must have two hexadecimal digits"@,
        HexFault::TooLong => "number too large to fit in target type"@,
    }
}

/// The error text for a token that is not a byte.
pub open spec fn token_error_text(token: Seq<char>, f: HexFault) -> Seq<char> {
    "error in token `"@ + token + "`: "@ + fault_text(f)
}

/// The error text for a text with the wrong number of tokens.
pub open spec fn count_error_text(count: nat) -> Seq<char> {
    "source tokens length ("@ + ascii_chars(dec_text(count as int))
        + ") does not match LinkLevelAddress length (6)"@
}

/// The octets written in `s`, or the error text.
pub open spec fn parse_lladdr(s: Seq<char>) -> Result<Seq<u8>, Seq<char>> {
    match hex_tokens(split_colon(s, 6)) {
        Err((t, f)) => Err(token_error_text(t, f)),
        Ok(v) => if v.len() == 6 {
            Ok(v)
        } else {
            Err(count_error_text(v.len()))
        },
    }
}

/// Colon-separated lower-case hexadecimal rendering of octets.
pub open spec fn hex_colon(o: Seq<u8>) -> Seq<u8>
    decreases o.len(),
{
    if o.len() == 0 {
        Seq::empty()
    } else if o.len() == 1 {
        hex2(o[0])
    } else {
        hex2(o[0]) + seq![58u8] + hex_colon(o.drop_first())
    }
}

impl LinkLevelAddress {
    /// The six octets.
    pub closed spec fn view(&self) -> Seq<u8> {
        self.octets@
    }

    /// An address holds six octets.
    pub proof fn lemma_view_len(&self)
        ensures
            self@.len() == OCTETS_SIZE,
    {
    }

    /// The address made of the given octets.
    pub fn from(octets: &[u8; 6]) -> (r: LinkLevelAddress)
        ensures
            r@ == octets@,
    {
        LinkLevelAddress { octets: *octets }
    }

    /// The octets of the address.
    pub fn octets(&self) -> (r: &[u8; 6])
        ensures
            r@ == self@,
    {
        &self.octets
    }

    /// The number of octets, always six.
    pub fn len(&self) -> (r: usize)
        ensures
            r == 6,
            r == self@.len(),
    {
        OCTETS_SIZE
    }

    /// Lower-case colon-separated hexadecimal text, `aa:bb:cc:dd:ee:ff`.
    pub fn to_string(&self) -> (r: String)
        ensures
            r@ == ascii_chars(hex_colon(self@)),
    {
        let mut out: Vec<u8> = Vec::new();
        let mut i: usize = 0;
        while i < 6
            invariant
                i <= 6,
                self@.len() == 6,
                out@ == if i == 0 {
                    Seq::<u8>::empty()
                } else if i < 6 {
                    hex_colon(self@.take(i as int)) + seq![58u8]
                } else {
                    hex_colon(self@.take(i as int))
                },
            decreases 6 - i,
        {
            push_hex2(&mut out, self.octets[i]);
            proof {
                lemma_hex_colon_push(self@.take(i as int), self@[i as int]);
                assert(self@.take(i as int + 1) =~= self@.take(i as int).push(self@[i as int]));
            }
            if i < 5 {
                out.push(58u8);
            }
            i = i + 1;
        }
        proof {
            assert(self@.take(6) =~= self@);
            lemma_hex_colon_ascii(self@);
        }
        ascii_string(&out)
    }

    /// Same text as `to_string`.
    pub fn debug_string(&self) -> (r: String)
        ensures
            r@ == ascii_chars(hex_colon(self@)),
    {
        self.to_string()
    }

    /// Parses `aa:bb:cc:dd:ee:ff`: split at `:` into at most six tokens, each an
    /// octet of two hexadecimal digits of either case, exactly six of them.
    pub fn from_str(source: &str) -> (r: Result<LinkLevelAddress, ParseLinkLevelAddressError>)
        ensures
            match parse_lladdr(source@) {
                Ok(o) => r is Ok && r->Ok_0@ == o,
                Err(t) => r is Err && r->Err_0.source@ == source@ && r->Err_0.error@ == t,
            },
    {
        let n = source.unicode_len();
        let ghost s = source@;
        let mut octets: [u8; 6] = [0u8; 6];
        let mut count: usize = 0;
        let mut start: usize = 0;
        let ghost mut done: Seq<Seq<char>> = Seq::empty();
        proof {
            assert(s.skip(0) =~= s);
            assert(done + split_colon(s, 6) =~= split_colon(s, 6));
            assert(octets@.take(0) =~= Seq::<u8>::empty());
        }
        loop
            invariant
                n == s.len(),
                s == source@,
                count < 6,
                start <= n,
                done.len() == count,
                split_colon(s, 6) == done + split_colon(s.skip(start as int), (6 - count) as nat),
                hex_tokens(done) == Ok::<Seq<u8>, (Seq<char>, HexFault)>(octets@.take(count as int)),
                octets@.len() == 6,
            decreases n - start + 6 - count,
        {
            let ghost rest = s.skip(start as int);
            let end = if count == 5 {
                n
            } else {
                find_colon(source, start, n)
            };
            proof {
                lemma_first_index_props(rest, ':');
                if count < 5 {
                    lemma_first_index(rest, ':', end - start);
                }
            }
            let token = source.substring_char(start, end);
            let ghost tokens_here = split_colon(rest, (6 - count) as nat);
            proof {
                assert(token@ =~= rest.take(end - start));
                assert(tokens_here[0] == token@);
                if end < n {
                    assert(s.skip(end + 1) =~= rest.skip(end - start + 1));
                    assert(tokens_here =~= seq![token@] + split_colon(s.skip(end + 1), (5 - count) as nat));
                } else {
                    assert(rest.take(end - start) =~= rest);
                    assert(tokens_here =~= seq![token@]);
                }
            }
            match from_str_radix_16(source, token) {
                Ok(v) => {
                    let ghost before = octets@;
                    octets[count] = v;
                    let ghost next = done.push(token@);
                    proof {
                        assert(hex_byte(token@) == Ok::<u8, HexFault>(v));
                        assert(seq![token@].drop_first() =~= Seq::<Seq<char>>::empty());
                        assert(hex_tokens(Seq::<Seq<char>>::empty()) == Ok::<Seq<u8>, (Seq<char>, HexFault)>(Seq::<u8>::empty()));
                        assert(seq![token@][0] == token@);
                        assert(seq![v] + Seq::<u8>::empty() =~= seq![v]);
                        assert(hex_tokens(seq![token@]) == Ok::<Seq<u8>, (Seq<char>, HexFault)>(seq![v]));
                        lemma_hex_tokens_append(done, seq![token@]);
                        assert(done + seq![token@] =~= next);
                        assert(octets@.take(count as int) =~= before.take(count as int));
                        assert(octets@.take(count as int + 1) =~= before.take(count as int) + seq![v]);
                        assert(hex_tokens(next) == Ok::<Seq<u8>, (Seq<char>, HexFault)>(octets@.take(count as int + 1)));
                    }
                    if end == n {
                        proof {
                            assert(split_colon(s, 6) =~= next);
                        }
                        if count == 5 {
                            proof {
                                assert(octets@.take(6) =~= octets@);
                            }
                            return Ok(LinkLevelAddress { octets });
                        } else {
                            let mut e: Vec<u8> = Vec::new();
                            push_dec(&mut e, (count + 1) as i64);
                            proof {
                                assert(e@ =~= dec_text((count + 1) as int));
                                crate::text::lemma_dec_text_ascii((count + 1) as int);
                            }
                            let digits = ascii_string(&e);
                            let mut error = String::from_str("source tokens length (");
                            error.append(digits.as_str());
                            error.append(") does not match LinkLevelAddress length (6)");
                            return Err(ParseLinkLevelAddressError { source: String::from_str(source), error });
                        }
                    }
                    proof {
                        assert(next + split_colon(s.skip(end + 1), (5 - count) as nat)
                            =~= done + tokens_here);
                        done = next;
                    }
                    count = count + 1;
                    start = end + 1;
                },
                Err(e) => {
                    proof {
                        lemma_hex_tokens_append(done, tokens_here);
                    }
                    return Err(e);
                },
            }
        }
    }
}

impl ParseLinkLevelAddressError {
    /// `Failed to parse `<source>` as LinkLevelAddr, <error>`.
    pub fn to_string(&self) -> (r: String)
        ensures
            r@ == "Failed to parse `"@ + self.source@ + "` as LinkLevelAddr, "@ + self.error@,
    {
        let mut r = String::from_str("Failed to parse `");
        r.append(self.source.as_str());
        r.append("` as LinkLevelAddr, ");
        r.append(self.error.as_str());
        r
    }
}

/// Index of the first `:` at or after `start`, or `n` when there is none.
fn find_colon(s: &str, start: usize, n: usize) -> (r: usize)
    requires
        n == s@.len(),
        start <= n,
    ensures
        start <= r <= n,
        forall|j: int| start <= j < r ==> s@[j] != ':',
        r < n ==> s@[r as int] == ':',
{
    let mut i = start;
    while i < n
        invariant
            n == s@.len(),
            start <= i <= n,
            forall|j: int| start <= j < i ==> s@[j] != ':',
        decreases n - i,
    {
        if s.get_char(i) == ':' {
            return i;
        }
        i = i + 1;
    }
    i
}

/// Reads `token`, a piece of `source`, as an octet: two hexadecimal digits.
pub fn from_str_radix_16(source: &str, token: &str) -> (r: Result<u8, ParseLinkLevelAddressError>)
    ensures
        match hex_byte(token@) {
            Ok(v) => r == Ok::<u8, ParseLinkLevelAddressError>(v),
            Err(f) => r is Err && r->Err_0.source@ == source@
                && r->Err_0.error@ == token_error_text(token@, f),
        },
{
    let n = token.unicode_len();
    if n == 0 {
        return Err(token_error(source, token, HexFault::Empty));
    }
    let mut i: usize = 0;
    while i < n
        invariant
            i <= n,
            n == token@.len(),
            forall|j: int| 0 <= j < i ==> hex_value(#[trigger] token@[j]) >= 0,
        decreases n - i,
    {
        let c = token.get_char(i);
        if digit_value(c) == 16 {
            return Err(token_error(source, token, HexFault::InvalidDigit));
        }
        i = i + 1;
    }
    if n > 2 {
        return Err(token_error(source, token, HexFault::TooLong));
    }
    if n < 2 {
        return Err(token_error(source, token, HexFault::TooShort));
    }
    let hi = digit_value(token.get_char(0));
    let lo = digit_value(token.get_char(1));
    Ok((hi * 16 + lo) as u8)
}

/// Value of a hexadecimal digit, or 16 for any other character.
fn digit_value(c: char) -> (r: u32)
    ensures
        hex_value(c) < 0 ==> r == 16,
        hex_value(c) >= 0 ==> r == hex_value(c) && r < 16,
{
    if '0' <= c && c <= '9' {
        (c as u32) - 48
    } else if 'a' <= c && c <= 'f' {
        (c as u32) - 87
    } else if 'A' <= c && c <= 'F' {
        (c as u32) - 55
    } else {
        16
    }
}

/// The error for a token of `source` that is not a byte.
fn token_error(source: &str, token: &str, fault: HexFault) -> (r: ParseLinkLevelAddressError)
    ensures
        r.source@ == source@,
        r.error@ == token_error_text(token@, fault),
{
    let mut error = String::from_str("error in token `");
    error.append(token);
    error.append("`: ");
    match fault {
        HexFault::Empty => error.append("cannot parse integer from empty string"),
        HexFault::InvalidDigit => error.append("invalid digit found in string"),
        HexFault::TooShort => error.append("octet must have two hexadecimal digits"),
        HexFault::TooLong => error.append("number too large to fit in target type"),
    }
    ParseLinkLevelAddressError { source: String::from_str(source), error }
}

/// Reading tokens one list after another.
proof fn lemma_hex_tokens_append(a: Seq<Seq<char>>, b: Seq<Seq<char>>)
    ensures
        hex_tokens(a) is Err ==> hex_tokens(a + b) == hex_tokens(a),
        hex_tokens(a) is Ok ==> hex_tokens(a + b) == match hex_tokens(b) {
            Ok(vb) => Ok::<Seq<u8>, (Seq<char>, HexFault)>(hex_tokens(a)->Ok_0 + vb),
            Err(e) => Err(e),
        },
    decreases a.len(),
{
    if a.len() == 0 {
        assert(a + b =~= b);
        if let Ok(vb) = hex_tokens(b) {
            assert(Seq::<u8>::empty() + vb =~= vb);
        }
    } else {
        assert((a + b).drop_first() =~= a.drop_first() + b);
        assert((a + b)[0] == a[0]);
        lemma_hex_tokens_append(a.drop_first(), b);
        if let Ok(va) = hex_tokens(a) {
            if let Ok(vb) = hex_tokens(b) {
                let v = hex_byte(a[0])->Ok_0;
                let ra = hex_tokens(a.drop_first())->Ok_0;
                assert(seq![v] + (ra + vb) =~= (seq![v] + ra) + vb);
            }
        }
    }
}

proof fn lemma_hex_colon_push(o: Seq<u8>, b: u8)
    ensures
        hex_colon(o.push(b)) == if o.len() == 0 {
            hex2(b)
        } else {
            hex_colon(o) + seq![58u8] + hex2(b)
        },
    decreases o.len(),
{
    if o.len() == 0 {
        assert(o.push(b) =~= seq![b]);
    } else if o.len() == 1 {
        assert(o.push(b).drop_first() =~= seq![b]);
        assert(o.push(b)[0] == o[0]);
        assert(hex_colon(seq![b]) == hex2(b));
    } else {
        assert(o.push(b).drop_first() =~= o.drop_first().push(b));
        lemma_hex_colon_push(o.drop_first(), b);
        assert(o.push(b)[0] == o[0]);
        let a = hex2(o[0]);
        let r = hex_colon(o.drop_first());
        assert(a + seq![58u8] + (r + seq![58u8] + hex2(b)) =~= (a + seq![58u8] + r) + seq![58u8]
            + hex2(b));
    }
}

proof fn lemma_hex_colon_ascii(o: Seq<u8>)
    ensures
        is_ascii_bytes(hex_colon(o)),
    decreases o.len(),
{
    if o.len() > 0 {
        crate::text::lemma_hex2_ascii(o[0]);
        if o.len() > 1 {
            lemma_hex_colon_ascii(o.drop_first());
            let a = hex2(o[0]);
            let r = hex_colon(o.drop_first());
            let w = a + seq![58u8] + r;
            assert forall|i: int| 0 <= i < w.len() implies #[trigger] w[i] < 128 by {
                if i < 2 {
                    assert(w[i] == a[i]);
                } else if i > 2 {
                    assert(w[i] == r[i - 3]);
                }
            }
        }
    }
}

/// The character of a hexadecimal digit reads back as its value.
proof fn lemma_hex_digit_value(d: nat)
    requires
        d < 16,
    ensures
        hex_value(crate::text::hex_digit_byte(d) as char) == d,
        crate::text::hex_digit_byte(d) as char != ':',
        crate::text::hex_digit_byte(d) as char != '+',
{
}

/// Two hexadecimal digits read back as the byte they were written from.
proof fn lemma_hex2_value(b: u8)
    ensures
        hex_byte(ascii_chars(hex2(b))) == Ok::<u8, HexFault>(b),
        ascii_chars(hex2(b)).len() == 2,
        ascii_chars(hex2(b))[0] != ':',
        ascii_chars(hex2(b))[1] != ':',
{
    let hi = (b / 16) as nat;
    let lo = (b % 16) as nat;
    lemma_hex_digit_value(hi);
    lemma_hex_digit_value(lo);
    let t = ascii_chars(hex2(b));
    assert(t.len() == 2);
    assert(t[0] == crate::text::hex_digit_byte(hi) as char);
    assert(t[1] == crate::text::hex_digit_byte(lo) as char);
    assert(!exists|i: int| 0 <= i < t.len() && hex_value(#[trigger] t[i]) < 0);
    assert(hi * 16 + lo == b) by (nonlinear_arith)
        requires
            hi == b / 16,
            lo == b % 16,
    ;
}

/// Splitting the rendering of `o` at colons gives the two-digit text of each
/// octet, and reading those tokens gives `o` back.
proof fn lemma_split_hex_colon(o: Seq<u8>)
    requires
        o.len() >= 1,
    ensures
        hex_tokens(split_colon(ascii_chars(hex_colon(o)), o.len())) == Ok::<Seq<u8>, (Seq<char>, HexFault)>(o),
    decreases o.len(),
{
    let s = ascii_chars(hex_colon(o));
    lemma_hex2_value(o[0]);
    let h = ascii_chars(hex2(o[0]));
    if o.len() == 1 {
        lemma_first_index(s, ':', 2);
        assert(split_colon(s, 1) =~= seq![s]);
        assert(s =~= h);
        assert(seq![s].drop_first() =~= Seq::<Seq<char>>::empty());
        assert(hex_tokens(Seq::<Seq<char>>::empty()) == Ok::<Seq<u8>, (Seq<char>, HexFault)>(Seq::<u8>::empty()));
        assert(seq![o[0]] + Seq::<u8>::empty() =~= o);
    } else {
        let rest = o.drop_first();
        let r = ascii_chars(hex_colon(rest));
        assert(hex_colon(o) == hex2(o[0]) + seq![58u8] + hex_colon(rest));
        assert(s =~= h + seq![':'] + r);
        lemma_first_index(s, ':', 2);
        assert(s.take(2) =~= h);
        assert(s.skip(3) =~= r);
        lemma_split_hex_colon(rest);
        let ts = split_colon(s, o.len());
        assert(ts == seq![h] + split_colon(r, rest.len()));
        assert(ts[0] == h);
        assert(ts.drop_first() =~= split_colon(r, rest.len()));
        assert(seq![o[0]] + rest =~= o);
    }
}

/// Rendering an address and parsing the text gives the address back.
pub proof fn lemma_lladdr_round_trip(o: Seq<u8>)
    requires
        o.len() == 6,
    ensures
        parse_lladdr(ascii_chars(hex_colon(o))) == Ok::<Seq<u8>, Seq<char>>(o),
{
    lemma_split_hex_colon(o);
}

} // verus!
