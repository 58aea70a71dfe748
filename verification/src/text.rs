//! Text in a byte buffer: what a frame's bytes say, and how they get there.
use vstd::prelude::*;
use vstd::utf8::*;

verus! {

/// The decimal digits of `n`, most significant first.
pub open spec fn decimal(n: nat) -> Seq<char>
    decreases n,
{
    if n < 10 {
        seq![(0x30 + n) as char]
    } else {
        decimal(n / 10).push((0x30 + n % 10) as char)
    }
}

/// `after` is `before` with `text` appended as UTF-8.
pub open spec fn appended(before: Seq<u8>, after: Seq<u8>, text: Seq<char>) -> bool {
    after == before + encode_utf8(text)
}

/// The encoding of two texts in a row is the two encodings in a row.
pub proof fn lemma_encode_concat(a: Seq<char>, b: Seq<char>)
    ensures
        encode_utf8(a + b) == encode_utf8(a) + encode_utf8(b),
    decreases a.len(),
{
    if a.len() == 0 {
        assert(a + b =~= b);
        assert(encode_utf8(a) + encode_utf8(b) =~= encode_utf8(b));
    } else {
        assert((a + b).drop_first() =~= a.drop_first() + b);
        assert((a + b)[0] == a[0]);
        lemma_encode_concat(a.drop_first(), b);
        assert(encode_utf8(a + b) =~= encode_utf8(a) + encode_utf8(b));
    }
}

/// Appending `t` and then `u` appends `t + u`.
pub proof fn lemma_appended_twice(
    start: Seq<u8>,
    mid: Seq<u8>,
    end: Seq<u8>,
    t: Seq<char>,
    u: Seq<char>,
)
    requires
        appended(start, mid, t),
        appended(mid, end, u),
    ensures
        appended(start, end, t + u),
{
    lemma_encode_concat(t, u);
    assert(end =~= start + encode_utf8(t + u));
}

/// Texts in a row can be grouped either way.
pub proof fn lemma_concat_assoc(a: Seq<char>, b: Seq<char>, c: Seq<char>)
    ensures
        (a + b) + c == a + (b + c),
        a + Seq::<char>::empty() == a,
{
    assert((a + b) + c =~= a + (b + c));
    assert(a + Seq::<char>::empty() =~= a);
}

/// Nothing appended is the empty text appended.
pub proof fn lemma_appended_nothing(start: Seq<u8>)
    ensures
        appended(start, start, Seq::<char>::empty()),
{
    assert(start =~= start + encode_utf8(Seq::<char>::empty()));
}

/// Appends a string to the buffer.
pub fn put_str(buff: &mut Vec<u8>, s: &str)
    ensures
        appended(old(buff)@, final(buff)@, s@),
{
    let bytes = s.as_bytes();
    buff.extend_from_slice(bytes);
    assert(buff@ =~= old(buff)@ + encode_utf8(s@));
}

/// Appends one character to the buffer, encoded as UTF-8.
pub fn put_char(buff: &mut Vec<u8>, c: char)
    ensures
        appended(old(buff)@, final(buff)@, seq![c]),
{
    let v: u32 = c as u32;
    proof {
        assert(seq![c].drop_first() =~= Seq::<char>::empty());
        assert(encode_utf8(Seq::<char>::empty()) =~= Seq::<u8>::empty());
        assert(seq![c][0] == c);
        assert(encode_utf8(seq![c]) =~= encode_scalar(v));
    }
    if v < 0x80 {
        assert(v & 0x7F < 0x100) by (bit_vector);
        buff.push((v & 0x7F) as u8);
    } else if v < 0x800 {
        assert((v >> 6) & 0x1F < 0x100 && v & 0x3F < 0x100) by (bit_vector);
        buff.push(0xC0 | ((v >> 6) & 0x1F) as u8);
        buff.push(0x80 | (v & 0x3F) as u8);
    } else if v < 0x10000 {
        assert((v >> 12) & 0x0F < 0x100 && (v >> 6) & 0x3F < 0x100 && v & 0x3F < 0x100)
            by (bit_vector);
        buff.push(0xE0 | ((v >> 12) & 0x0F) as u8);
        buff.push(0x80 | ((v >> 6) & 0x3F) as u8);
        buff.push(0x80 | (v & 0x3F) as u8);
    } else {
        assert((v >> 18) & 0x7 < 0x100 && (v >> 12) & 0x3F < 0x100 && (v >> 6) & 0x3F < 0x100
            && v & 0x3F < 0x100) by (bit_vector);
        buff.push(0xF0 | ((v >> 18) & 0x7) as u8);
        buff.push(0x80 | ((v >> 12) & 0x3F) as u8);
        buff.push(0x80 | ((v >> 6) & 0x3F) as u8);
        buff.push(0x80 | (v & 0x3F) as u8);
    }
    assert(buff@ =~= old(buff)@ + encode_scalar(v));
}

/// Appends a string to a buffer that holds `t` since `start`.
pub(crate) fn emit(
    buff: &mut Vec<u8>,
    s: &str,
    Ghost(start): Ghost<Seq<u8>>,
    Ghost(t): Ghost<Seq<char>>,
)
    requires
        appended(start, old(buff)@, t),
    ensures
        appended(start, final(buff)@, t + s@),
{
    put_str(buff, s);
    proof {
        lemma_appended_twice(start, old(buff)@, buff@, t, s@);
    }
}

/// Appends a character to a buffer that holds `t` since `start`.
pub(crate) fn emit_char(
    buff: &mut Vec<u8>,
    c: char,
    Ghost(start): Ghost<Seq<u8>>,
    Ghost(t): Ghost<Seq<char>>,
)
    requires
        appended(start, old(buff)@, t),
    ensures
        appended(start, final(buff)@, t + seq![c]),
{
    put_char(buff, c);
    proof {
        lemma_appended_twice(start, old(buff)@, buff@, t, seq![c]);
    }
}

/// The last `width` decimal digits of `n`, with zeros in front where `n` has
/// fewer.
pub open spec fn padded(n: nat, width: nat) -> Seq<char>
    decreases width,
{
    if width == 0 {
        Seq::empty()
    } else {
        padded(n / 10, (width - 1) as nat) + seq![(0x30 + n % 10) as char]
    }
}

/// The digits after the decimal point of `n / 10^width`, without the zeros
/// at the end.
pub open spec fn fraction(n: nat, width: nat) -> Seq<char>
    decreases width,
{
    if width == 0 {
        Seq::empty()
    } else if n % 10 == 0 {
        fraction(n / 10, (width - 1) as nat)
    } else {
        padded(n, width)
    }
}

/// A time of `nanos` nanoseconds in seconds: the whole seconds, and after a
/// point the fraction, where there is one.
pub open spec fn seconds_text(nanos: nat) -> Seq<char> {
    if nanos % 1_000_000_000 == 0 {
        decimal(nanos / 1_000_000_000)
    } else {
        decimal(nanos / 1_000_000_000) + "."@ + fraction(nanos % 1_000_000_000, 9)
    }
}

/// The character of a decimal digit.
fn digit(d: u8) -> (c: char)
    requires
        d < 10,
    ensures
        c == (0x30 + d) as char,
{
    (0x30 + d) as char
}

/// Appends `n` in decimal.
pub fn put_decimal(buff: &mut Vec<u8>, n: u128)
    ensures
        appended(old(buff)@, final(buff)@, decimal(n as nat)),
    decreases n,
{
    if n < 10 {
        put_char(buff, digit(n as u8));
    } else {
        put_decimal(buff, n / 10);
        let ghost mid = buff@;
        put_char(buff, digit((n % 10) as u8));
        proof {
            lemma_appended_twice(
                old(buff)@,
                mid,
                buff@,
                decimal((n / 10) as nat),
                seq![(0x30 + n % 10) as char],
            );
            assert(decimal((n / 10) as nat) + seq![(0x30 + n % 10) as char] =~= decimal(n as nat));
        }
    }
}

/// Appends the last `width` decimal digits of `n`.
pub fn put_padded(buff: &mut Vec<u8>, n: u128, width: u8)
    ensures
        appended(old(buff)@, final(buff)@, padded(n as nat, width as nat)),
    decreases width,
{
    if width == 0 {
        proof {
            lemma_appended_nothing(buff@);
        }
    } else {
        put_padded(buff, n / 10, width - 1);
        let ghost mid = buff@;
        put_char(buff, digit((n % 10) as u8));
        proof {
            lemma_appended_twice(
                old(buff)@,
                mid,
                buff@,
                padded((n / 10) as nat, (width - 1) as nat),
                seq![(0x30 + n % 10) as char],
            );
        }
    }
}

/// Appends a time of `nanos` nanoseconds, in seconds.
pub fn put_seconds(buff: &mut Vec<u8>, nanos: u128)
    ensures
        appended(old(buff)@, final(buff)@, seconds_text(nanos as nat)),
{
    let whole = nanos / 1_000_000_000;
    let part = nanos % 1_000_000_000;
    put_decimal(buff, whole);
    if part != 0 {
        let ghost after_whole = buff@;
        put_str(buff, ".");
        let ghost after_point = buff@;
        let mut rest = part;
        let mut width: u8 = 9;
        while width > 0 && rest % 10 == 0
            invariant
                width <= 9,
                fraction(rest as nat, width as nat) == fraction(part as nat, 9),
            decreases width,
        {
            rest = rest / 10;
            width = width - 1;
        }
        put_padded(buff, rest, width);
        proof {
            assert(padded(rest as nat, width as nat) == fraction(part as nat, 9));
            lemma_appended_twice(
                old(buff)@,
                after_whole,
                after_point,
                decimal(whole as nat),
                "."@,
            );
            lemma_appended_twice(
                old(buff)@,
                after_point,
                buff@,
                decimal(whole as nat) + "."@,
                fraction(part as nat, 9),
            );
        }
    }
}

} // verus!
