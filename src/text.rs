//! Rendering of numbers, bytes and diagnostics as text.
use vstd::prelude::*;

verus! {

/// The characters of a sequence of ASCII bytes.
pub open spec fn ascii_chars(b: Seq<u8>) -> Seq<char> {
    b.map_values(|x: u8| x as char)
}

/// Every byte is ASCII.
pub open spec fn is_ascii_bytes(b: Seq<u8>) -> bool {
    forall|i: int| 0 <= i < b.len() ==> #[trigger] b[i] < 128
}

/// ASCII digit of a value below ten.
pub open spec fn digit_byte(d: nat) -> u8 {
    (48 + d) as u8
}

/// Decimal digits of a natural number, most significant first, without leading zeros.
pub open spec fn dec_digits(n: nat) -> Seq<u8>
    decreases n,
{
    if n < 10 {
        seq![digit_byte(n)]
    } else {
        dec_digits(n / 10).push(digit_byte(n % 10))
    }
}

/// Decimal notation of an integer, with a leading `-` when negative.
pub open spec fn dec_text(n: int) -> Seq<u8> {
    if n < 0 {
        seq![45u8] + dec_digits((-n) as nat)
    } else {
        dec_digits(n as nat)
    }
}

/// Lower-case hexadecimal digit of a value below sixteen.
pub open spec fn hex_digit_byte(d: nat) -> u8 {
    if d < 10 {
        (48 + d) as u8
    } else {
        (87 + d) as u8
    }
}

/// Two lower-case hexadecimal digits of a byte.
pub open spec fn hex2(b: u8) -> Seq<u8> {
    seq![hex_digit_byte((b / 16) as nat), hex_digit_byte((b % 16) as nat)]
}

/// The escape of one byte, as `<[u8]>::escape_ascii` writes it.
pub open spec fn escape_byte(b: u8) -> Seq<u8> {
    if b == 9 {
        seq![92u8, 116u8]
    } else if b == 10 {
        seq![92u8, 110u8]
    } else if b == 13 {
        seq![92u8, 114u8]
    } else if b == 34 || b == 39 || b == 92 {
        seq![92u8, b]
    } else if 32 <= b < 127 {
        seq![b]
    } else {
        seq![92u8, 120u8] + hex2(b)
    }
}

/// The escape of a byte sequence, byte by byte.
pub open spec fn escape_bytes(b: Seq<u8>) -> Seq<u8>
    decreases b.len(),
{
    if b.len() == 0 {
        Seq::empty()
    } else {
        escape_bytes(b.drop_last()) + escape_byte(b.last())
    }
}

/// What `{:?}` writes for a string: the text quoted and escaped.
pub uninterp spec fn debug_text(s: Seq<char>) -> Seq<char>;

/// Relies on `String::from_utf8`: ASCII bytes are valid UTF-8, one character each.
#[verifier::external_body]
pub(crate) fn ascii_string(b: &Vec<u8>) -> (r: String)
    requires
        is_ascii_bytes(b@),
    ensures
        r@ == ascii_chars(b@),
{
    match String::from_utf8(b.clone()) {
        Ok(s) => s,
        Err(_) => String::new(),
    }
}

/// Relies on the `Debug` impl of `str`: the quoted, escaped form of a text.
#[verifier::external_body]
pub(crate) fn debug_quoted(s: &str) -> (r: String)
    ensures
        r@ == debug_text(s@),
{
    format!("{:?}", s)
}

/// Relies on `io::Error::from_raw_os_error` and its `Display`: the system's
/// description of an error number. The text depends on the system, so
/// nothing is promised of it.
#[verifier::external_body]
pub(crate) fn os_error_message(errno: i32) -> String {
    std::io::Error::from_raw_os_error(errno).to_string()
}

pub proof fn lemma_digit_ascii(d: nat)
    requires
        d < 16,
    ensures
        hex_digit_byte(d) < 128,
        d < 10 ==> digit_byte(d) < 128,
{
}

pub proof fn lemma_dec_digits_ascii(n: nat)
    ensures
        is_ascii_bytes(dec_digits(n)),
        dec_digits(n).len() >= 1,
    decreases n,
{
    if n >= 10 {
        lemma_dec_digits_ascii(n / 10);
    }
}

/// The decimal notation of an integer is ASCII.
pub proof fn lemma_dec_text_ascii(n: int)
    ensures
        is_ascii_bytes(dec_text(n)),
{
    if n < 0 {
        lemma_dec_digits_ascii((-n) as nat);
        let d = dec_digits((-n) as nat);
        let w = seq![45u8] + d;
        assert forall|i: int| 0 <= i < w.len() implies #[trigger] w[i] < 128 by {
            if i > 0 {
                assert(w[i] == d[i - 1]);
            }
        }
    } else {
        lemma_dec_digits_ascii(n as nat);
    }
}

/// Both hexadecimal digits of a byte are ASCII.
pub proof fn lemma_hex2_ascii(b: u8)
    ensures
        is_ascii_bytes(hex2(b)),
{
    lemma_digit_ascii((b / 16) as nat);
    lemma_digit_ascii((b % 16) as nat);
}

/// Appends the decimal digits of `n`.
pub fn push_dec_u64(out: &mut Vec<u8>, n: u64)
    ensures
        final(out)@ == old(out)@ + dec_digits(n as nat),
    decreases n,
{
    if n >= 10 {
        push_dec_u64(out, n / 10);
    }
    let d: u8 = (n % 10) as u8;
    out.push(48u8 + d);
    proof {
        assert(final(out)@ =~= old(out)@ + dec_digits(n as nat));
    }
}

/// Appends the decimal notation of `n`.
pub fn push_dec(out: &mut Vec<u8>, n: i64)
    ensures
        final(out)@ == old(out)@ + dec_text(n as int),
{
    if n < 0 {
        out.push(45u8);
        let m: u64 = ((0i64 - (n + 1)) as u64) + 1;
        push_dec_u64(out, m);
        proof {
            assert(final(out)@ =~= old(out)@ + dec_text(n as int));
        }
    } else {
        push_dec_u64(out, n as u64);
    }
}

/// Decimal notation of `n` as text.
pub fn decimal(n: i64) -> (r: String)
    ensures
        r@ == ascii_chars(dec_text(n as int)),
{
    let mut b: Vec<u8> = Vec::new();
    push_dec(&mut b, n);
    proof {
        lemma_dec_digits_ascii(if n < 0 { (-n) as nat } else { n as nat });
        assert(b@ =~= dec_text(n as int));
        assert(is_ascii_bytes(b@));
    }
    ascii_string(&b)
}

/// Appends the decimal notation of `n` to a text.
pub fn append_dec(s: &mut String, n: i64)
    ensures
        final(s)@ == old(s)@ + ascii_chars(dec_text(n as int)),
{
    let d = decimal(n);
    s.append(d.as_str());
}

/// Appends the decimal notation of a size to a text.
pub fn append_dec_usize(s: &mut String, n: usize)
    ensures
        final(s)@ == old(s)@ + ascii_chars(dec_text(n as int)),
{
    let mut b: Vec<u8> = Vec::new();
    push_dec_u64(&mut b, n as u64);
    proof {
        lemma_dec_digits_ascii(n as nat);
        assert(b@ =~= dec_text(n as int));
    }
    let d = ascii_string(&b);
    s.append(d.as_str());
}

/// Appends the two lower-case hexadecimal digits of `b`.
pub fn push_hex2(out: &mut Vec<u8>, b: u8)
    ensures
        final(out)@ == old(out)@ + hex2(b),
{
    let hi: u8 = b / 16;
    let lo: u8 = b % 16;
    let hc: u8 = if hi < 10 { 48 + hi } else { 87 + hi };
    let lc: u8 = if lo < 10 { 48 + lo } else { 87 + lo };
    out.push(hc);
    out.push(lc);
    proof {
        assert(final(out)@ =~= old(out)@ + hex2(b));
    }
}

/// Appends the escape of one byte.
pub fn push_escaped_byte(out: &mut Vec<u8>, b: u8)
    ensures
        final(out)@ == old(out)@ + escape_byte(b),
{
    if b == 9 {
        out.push(92u8);
        out.push(116u8);
    } else if b == 10 {
        out.push(92u8);
        out.push(110u8);
    } else if b == 13 {
        out.push(92u8);
        out.push(114u8);
    } else if b == 34 || b == 39 || b == 92 {
        out.push(92u8);
        out.push(b);
    } else if 32 <= b && b < 127 {
        out.push(b);
    } else {
        out.push(92u8);
        out.push(120u8);
        push_hex2(out, b);
    }
    proof {
        assert(final(out)@ =~= old(out)@ + escape_byte(b));
    }
}

proof fn lemma_escape_ascii(b: Seq<u8>)
    ensures
        is_ascii_bytes(escape_bytes(b)),
    decreases b.len(),
{
    if b.len() > 0 {
        lemma_escape_ascii(b.drop_last());
        let x = b.last();
        lemma_digit_ascii((x / 16) as nat);
        lemma_digit_ascii((x % 16) as nat);
        let e = escape_byte(x);
        assert(is_ascii_bytes(e));
        let whole = escape_bytes(b);
        assert(whole =~= escape_bytes(b.drop_last()) + e);
        assert forall|i: int| 0 <= i < whole.len() implies #[trigger] whole[i] < 128 by {
            if i >= escape_bytes(b.drop_last()).len() {
                assert(whole[i] == e[i - escape_bytes(b.drop_last()).len()]);
            }
        }
    }
}

/// The escape of a byte sequence as text, as `<[u8]>::escape_ascii` renders it.
pub fn escaped_text(b: &[u8]) -> (r: String)
    ensures
        r@ == ascii_chars(escape_bytes(b@)),
{
    let mut out: Vec<u8> = Vec::new();
    let mut i: usize = 0;
    while i < b.len()
        invariant
            i <= b@.len(),
            out@ == escape_bytes(b@.subrange(0, i as int)),
        decreases b@.len() - i,
    {
        push_escaped_byte(&mut out, b[i]);
        proof {
            let s = b@.subrange(0, i as int + 1);
            assert(s.drop_last() =~= b@.subrange(0, i as int));
        }
        i = i + 1;
    }
    proof {
        assert(b@.subrange(0, b@.len() as int) =~= b@);
        lemma_escape_ascii(b@);
    }
    ascii_string(&out)
}

/// A description of error `errno` without std's trailing ` (os error N)`, when
/// it has one.
pub open spec fn without_suffix_text(t: Seq<char>, errno: int) -> Seq<char> {
    let sfx = os_error_suffix(errno);
    if t.len() >= sfx.len() && t.subrange(t.len() - sfx.len(), t.len() as int) == sfx {
        t.subrange(0, t.len() - sfx.len())
    } else {
        t
    }
}

/// The text ` (os error N)` that std appends to the description of error `N`.
pub open spec fn os_error_suffix(errno: int) -> Seq<char> {
    ascii_chars(" (os error "@.map_values(|c: char| c as u8) + dec_text(errno) + seq![41u8])
}

/// The system's description of an error number, as `strerror` gives it. The
/// description is the system's own, so nothing is promised of it; trimming
/// std's suffix off it is `without_os_error_suffix`, which is exact.
pub fn strerror(errno: i32) -> String {
    let t = os_error_message(errno);
    without_os_error_suffix(t.as_str(), errno)
}

/// `text` without the ` (os error N)` std appends to the description of
/// error `N`, when it ends with it.
pub fn without_os_error_suffix(t: &str, errno: i32) -> (r: String)
    ensures
        r@ == without_suffix_text(t@, errno as int),
{
    let mut sb: Vec<u8> = Vec::new();
    sb.push(32u8);
    sb.push(40u8);
    sb.push(111u8);
    sb.push(115u8);
    sb.push(32u8);
    sb.push(101u8);
    sb.push(114u8);
    sb.push(114u8);
    sb.push(111u8);
    sb.push(114u8);
    sb.push(32u8);
    push_dec(&mut sb, errno as i64);
    sb.push(41u8);
    proof {
        reveal_strlit(" (os error ");
        assert(" (os error "@.map_values(|c: char| c as u8) =~= sb@.subrange(0, 11));
        assert(sb@ =~= " (os error "@.map_values(|c: char| c as u8) + dec_text(errno as int)
            + seq![41u8]);
        assert(os_error_suffix(errno as int) =~= ascii_chars(sb@));
    }
    let tl = t.unicode_len();
    let sl = sb.len();
    if tl < sl {
        return String::from_str(t);
    }
    let start = tl - sl;
    let mut k: usize = 0;
    while k < sl
        invariant
            sl == sb@.len(),
            tl == t@.len(),
            os_error_suffix(errno as int) == ascii_chars(sb@),
            start == tl - sl,
            k <= sl,
            forall|j: int| 0 <= j < k ==> t@[start + j] == sb@[j] as char,
        decreases sl - k,
    {
        let c = t.get_char(start + k);
        if c != (sb[k] as char) {
            proof {
                let sfx = os_error_suffix(errno as int);
                assert(sfx[k as int] == sb@[k as int] as char);
                assert(sfx.len() == sl);
                assert(t@.subrange(start as int, tl as int)[k as int] != sfx[k as int]);
                assert(t@.subrange(t@.len() - sfx.len(), t@.len() as int) != sfx);
            }
            return String::from_str(t);
        }
        k = k + 1;
    }
    proof {
        let sfx = os_error_suffix(errno as int);
        assert(t@.subrange(start as int, tl as int) =~= sfx);
    }
    let p = t.substring_char(0, start);
    String::from_str(p)
}

} // verus!
