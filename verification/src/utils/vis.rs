use vstd::prelude::*;
use vstd::string::StringSliceAdditionalSpecFns;
use vstd::utf8::is_continuation_byte;

use crate::names::same_text;

verus! {

/// The XML text that stands for one character.
pub open spec fn escape_char(c: char) -> Seq<char> {
    if c == '&' {
        seq!['&', 'a', 'm', 'p', ';']
    } else if c == '<' {
        seq!['&', 'l', 't', ';']
    } else if c == '>' {
        seq!['&', 'g', 't', ';']
    } else if c == '"' {
        seq!['&', 'q', 'u', 'o', 't', ';']
    } else {
        seq![c]
    }
}

/// A string with `&`, `<`, `>` and `"` replaced by their XML entities.
pub open spec fn escaped(s: Seq<char>) -> Seq<char>
    decreases s.len(),
{
    if s.len() == 0 {
        Seq::empty()
    } else {
        escape_char(s[0]) + escaped(s.drop_first())
    }
}

/// Escaping a string extended by one character extends its escape.
pub proof fn lemma_escaped_push(s: Seq<char>, c: char)
    ensures
        escaped(s.push(c)) == escaped(s) + escape_char(c),
    decreases s.len(),
{
    if s.len() == 0 {
        assert(s.push(c).drop_first() =~= Seq::<char>::empty());
        assert(escaped(Seq::<char>::empty()) =~= Seq::<char>::empty());
        assert(escaped(s.push(c)) =~= escape_char(c) + Seq::<char>::empty());
    } else {
        assert(s.push(c).drop_first() =~= s.drop_first().push(c));
        lemma_escaped_push(s.drop_first(), c);
        assert(escaped(s.push(c)) =~= escape_char(s[0]) + (escaped(s.drop_first()) + escape_char(c)));
    }
}

/// Replace `&`, `<`, `>` and `"` with XML entities.
pub fn escape_xml(value: &str) -> (r: String)
    ensures
        r@ == escaped(value@),
{
    let n = value.unicode_len();
    let mut out = String::new();
    let mut i: usize = 0;
    while i < n
        invariant
            n == value@.len(),
            i <= n,
            out@ == escaped(value@.subrange(0, i as int)),
        decreases n - i,
    {
        let c = value.get_char(i);
        proof {
            assert(value@.subrange(0, i + 1) =~= value@.subrange(0, i as int).push(c));
            lemma_escaped_push(value@.subrange(0, i as int), c);
        }
        if c == '&' {
            let e = "&amp;";
            proof {
                reveal_strlit("&amp;");
            }
            out.append(e);
        } else if c == '<' {
            let e = "&lt;";
            proof {
                reveal_strlit("&lt;");
            }
            out.append(e);
        } else if c == '>' {
            let e = "&gt;";
            proof {
                reveal_strlit("&gt;");
            }
            out.append(e);
        } else if c == '"' {
            let e = "&quot;";
            proof {
                reveal_strlit("&quot;");
            }
            out.append(e);
        } else {
            let e = value.substring_char(i, i + 1);
            assert(e@ =~= seq![c]);
            out.append(e);
        }
        assert(out@ =~= escaped(value@.subrange(0, i + 1)));
        i = i + 1;
    }
    assert(value@.subrange(0, n as int) =~= value@);
    out
}

/// Escaped text holds no `<`, `>` or `"`.
pub proof fn lemma_escaped_has_no_markup(s: Seq<char>)
    ensures
        forall|i: int|
            0 <= i < escaped(s).len() ==> #[trigger] escaped(s)[i] != '<' && escaped(s)[i] != '>'
                && escaped(s)[i] != '"',
    decreases s.len(),
{
    if s.len() > 0 {
        lemma_escaped_has_no_markup(s.drop_first());
        let head = escape_char(s[0]);
        let tail = escaped(s.drop_first());
        assert forall|i: int| 0 <= i < escaped(s).len() implies #[trigger] escaped(s)[i] != '<'
            && escaped(s)[i] != '>' && escaped(s)[i] != '"' by {
            if i < head.len() {
                assert(escaped(s)[i] == head[i]);
            } else {
                assert(escaped(s)[i] == tail[i - head.len()]);
            }
        }
    }
}

/// Decode the four XML entities that escaping produces, leaving other text as is.
pub open spec fn unescaped(t: Seq<char>) -> Seq<char>
    decreases t.len(),
{
    if t.len() == 0 {
        Seq::empty()
    } else if t.len() >= 5 && t.take(5) == seq!['&', 'a', 'm', 'p', ';'] {
        seq!['&'] + unescaped(t.skip(5))
    } else if t.len() >= 4 && t.take(4) == seq!['&', 'l', 't', ';'] {
        seq!['<'] + unescaped(t.skip(4))
    } else if t.len() >= 4 && t.take(4) == seq!['&', 'g', 't', ';'] {
        seq!['>'] + unescaped(t.skip(4))
    } else if t.len() >= 6 && t.take(6) == seq!['&', 'q', 'u', 'o', 't', ';'] {
        seq!['"'] + unescaped(t.skip(6))
    } else {
        seq![t[0]] + unescaped(t.skip(1))
    }
}

/// Decoding the entities of escaped text gives the text back.
pub proof fn lemma_unescape_escaped(s: Seq<char>)
    ensures
        unescaped(escaped(s)) == s,
    decreases s.len(),
{
    if s.len() == 0 {
        assert(escaped(s) =~= Seq::<char>::empty());
    } else {
        let c = s[0];
        let head = escape_char(c);
        let rest = escaped(s.drop_first());
        let t = head + rest;
        assert(escaped(s) == t);
        lemma_unescape_escaped(s.drop_first());
        assert(t.skip(head.len() as int) =~= rest);
        if c == '&' {
            assert(t.take(5) =~= seq!['&', 'a', 'm', 'p', ';']);
        } else if c == '<' {
            assert(t[1] == 'l');
            if t.len() >= 5 {
                assert(t.take(5)[1] == 'l');
            }
            assert(t.take(4) =~= seq!['&', 'l', 't', ';']);
        } else if c == '>' {
            assert(t[1] == 'g');
            if t.len() >= 5 {
                assert(t.take(5)[1] == 'g');
            }
            assert(t.take(4)[1] == 'g');
            assert(t.take(4) =~= seq!['&', 'g', 't', ';']);
        } else if c == '"' {
            assert(t[1] == 'q');
            if t.len() >= 5 {
                assert(t.take(5)[1] == 'q');
            }
            assert(t.take(4)[1] == 'q');
            assert(t.take(6) =~= seq!['&', 'q', 'u', 'o', 't', ';']);
        } else {
            assert(t[0] == c);
            if t.len() >= 5 {
                assert(t.take(5)[0] == c);
            }
            if t.len() >= 4 {
                assert(t.take(4)[0] == c);
            }
            if t.len() >= 6 {
                assert(t.take(6)[0] == c);
            }
        }
        assert(unescaped(t) =~= s);
    }
}

/// Index of the first byte at or after `i` that is not `#`.
pub open spec fn hashes_end(b: Seq<u8>, i: int) -> int
    decreases b.len() - i,
{
    if 0 <= i < b.len() && b[i] == 35 {
        hashes_end(b, i + 1)
    } else {
        i
    }
}

/// Whether byte index `i` is a character boundary of the UTF-8 bytes `b`.
pub open spec fn byte_boundary(b: Seq<u8>, i: int) -> bool {
    i == b.len() || (0 <= i < b.len() && !is_continuation_byte(b[i]))
}

/// The inputs on which the three two-byte slices after the leading `#`s exist.
pub open spec fn hex_color_sliceable(b: Seq<u8>) -> bool {
    let k = hashes_end(b, 0);
    &&& k + 6 <= b.len()
    &&& byte_boundary(b, k + 2)
    &&& byte_boundary(b, k + 4)
    &&& byte_boundary(b, k + 6)
}

/// Value of a hexadecimal digit byte, either case.
pub open spec fn hex_digit(byte: u8) -> Option<u8> {
    if 48 <= byte <= 57 {
        Some((byte - 48) as u8)
    } else if 97 <= byte <= 102 {
        Some((byte - 87) as u8)
    } else if 65 <= byte <= 70 {
        Some((byte - 55) as u8)
    } else {
        None
    }
}

/// A two-byte radix-16 number as `u8::from_str_radix` reads it (an optional
/// leading `+`), or zero where it is rejected.
pub open spec fn hex_pair(b0: u8, b1: u8) -> u8 {
    if b0 == 43 {
        match hex_digit(b1) {
            Some(d) => d,
            None => 0,
        }
    } else {
        match (hex_digit(b0), hex_digit(b1)) {
            (Some(h), Some(l)) => (16 * h + l) as u8,
            _ => 0,
        }
    }
}

/// The color that `parse_hex` reads from UTF-8 bytes.
pub open spec fn spec_parse_hex(b: Seq<u8>) -> (u8, u8, u8) {
    let k = hashes_end(b, 0);
    (hex_pair(b[k], b[k + 1]), hex_pair(b[k + 2], b[k + 3]), hex_pair(b[k + 4], b[k + 5]))
}

/// Unfold `hashes_end` across one more `#`.
proof fn lemma_hashes_end_step(b: Seq<u8>, i: int)
    requires
        0 <= i < b.len(),
        b[i] == 35,
    ensures
        hashes_end(b, i) == hashes_end(b, i + 1),
{
}

/// Bounds of `hashes_end`.
proof fn lemma_hashes_end_bounds(b: Seq<u8>, i: int)
    requires
        0 <= i <= b.len(),
    ensures
        i <= hashes_end(b, i) <= b.len(),
    decreases b.len() - i,
{
    if i < b.len() && b[i] == 35 {
        lemma_hashes_end_bounds(b, i + 1);
    }
}

fn hex_digit_of(byte: u8) -> (r: Option<u8>)
    ensures
        r == hex_digit(byte),
{
    if 48 <= byte && byte <= 57 {
        Some(byte - 48)
    } else if 97 <= byte && byte <= 102 {
        Some(byte - 87)
    } else if 65 <= byte && byte <= 70 {
        Some(byte - 55)
    } else {
        None
    }
}

fn hex_pair_of(b0: u8, b1: u8) -> (r: u8)
    ensures
        r == hex_pair(b0, b1),
{
    if b0 == 43 {
        match hex_digit_of(b1) {
            Some(d) => d,
            None => 0,
        }
    } else {
        match (hex_digit_of(b0), hex_digit_of(b1)) {
            (Some(h), Some(l)) => 16 * h + l,
            _ => 0,
        }
    }
}

/// Parse a `#rrggbb` color: leading `#`s are skipped, each channel is read as a
/// two-character radix-16 number, and a channel that does not parse is zero.
pub fn parse_hex(value: &str) -> (r: (u8, u8, u8))
    requires
        hex_color_sliceable(value.spec_bytes()),
    ensures
        r == spec_parse_hex(value.spec_bytes()),
{
    let b = value.as_bytes();
    let n = b.len();
    let mut k: usize = 0;
    proof {
        lemma_hashes_end_bounds(b@, 0);
    }
    while k < n && b[k] == 35
        invariant
            n == b@.len(),
            k <= hashes_end(b@, 0),
            hashes_end(b@, k as int) == hashes_end(b@, 0),
            hashes_end(b@, 0) <= n,
        decreases n - k,
    {
        proof {
            lemma_hashes_end_step(b@, k as int);
            lemma_hashes_end_bounds(b@, k + 1);
        }
        k = k + 1;
    }
    assert(k == hashes_end(b@, 0));
    let red = hex_pair_of(b[k], b[k + 1]);
    let green = hex_pair_of(b[k + 2], b[k + 3]);
    let blue = hex_pair_of(b[k + 4], b[k + 5]);
    (red, green, blue)
}

/// Lowercase hexadecimal digit of a value below sixteen.
pub open spec fn hex_char(d: u8) -> char {
    if d < 10 {
        (48 + d) as char
    } else {
        (87 + d) as char
    }
}

/// `#rrggbb` with two lowercase hexadecimal digits per channel.
pub open spec fn hex_color_chars(red: u8, green: u8, blue: u8) -> Seq<char> {
    seq![
        '#',
        hex_char(red / 16),
        hex_char(red % 16),
        hex_char(green / 16),
        hex_char(green % 16),
        hex_char(blue / 16),
        hex_char(blue % 16),
    ]
}

fn push_hex_byte(out: &mut String, value: u8)
    ensures
        final(out)@ == old(out)@ + seq![hex_char(value / 16), hex_char(value % 16)],
{
    let digits = "0123456789abcdef";
    proof {
        reveal_strlit("0123456789abcdef");
    }
    let hi: usize = (value / 16) as usize;
    let lo: usize = (value % 16) as usize;
    let h = digits.substring_char(hi, hi + 1);
    let l = digits.substring_char(lo, lo + 1);
    assert(h@ =~= seq![hex_char(value / 16)]);
    assert(l@ =~= seq![hex_char(value % 16)]);
    out.append(h);
    out.append(l);
}

/// Render a color as `#rrggbb` with lowercase hexadecimal digits.
pub fn hex_color(red: u8, green: u8, blue: u8) -> (r: String)
    ensures
        r@ == hex_color_chars(red, green, blue),
{
    let mut out = String::new();
    let hash = "#";
    proof {
        reveal_strlit("#");
    }
    out.append(hash);
    push_hex_byte(&mut out, red);
    push_hex_byte(&mut out, green);
    push_hex_byte(&mut out, blue);
    assert(out@ =~= hex_color_chars(red, green, blue));
    out
}

proof fn lemma_hex_pair_of_chars(value: u8)
    ensures
        hex_pair(hex_char(value / 16) as u8, hex_char(value % 16) as u8) == value,
        !is_continuation_byte(hex_char(value / 16) as u8),
        hex_char(value / 16) as u8 != 35,
{
}

/// Reading back a rendered color gives the color: `parse_hex` inverts `hex_color`.
pub proof fn lemma_parse_hex_color(s: &str, red: u8, green: u8, blue: u8)
    requires
        s@ == hex_color_chars(red, green, blue),
    ensures
        hex_color_sliceable(s.spec_bytes()),
        spec_parse_hex(s.spec_bytes()) == (red, green, blue),
{
    broadcast use vstd::string::is_ascii_spec_bytes;

    assert(vstd::string::is_ascii(s));
    let b = s.spec_bytes();
    assert(b =~= Seq::new(7, |i: int| s@[i] as u8));
    lemma_hex_pair_of_chars(red);
    lemma_hex_pair_of_chars(green);
    lemma_hex_pair_of_chars(blue);
    assert(b[0] == 35);
    assert(hashes_end(b, 0) == hashes_end(b, 1));
    assert(hashes_end(b, 1) == 1);
}

/// Frequency scale in which tick labels of a filter-bank plot are written.
#[derive(Debug, Clone, Copy, PartialEq, Eq, Structural)]
pub enum TickScale {
    /// Mel, O'Shaughnessy formula.
    Mel,
    /// Bark, Wang formula.
    Bark,
    /// ERB, Glasberg formula.
    Erb,
    /// Hertz, unchanged.
    Hertz,
}

/// The tick scale that a filter-bank type name selects: "mel", "bark" and
/// "gamma" select their scale, every other name leaves Hertz.
pub fn tick_scale(fb_type: &str) -> (r: TickScale)
    ensures
        r == if fb_type@ == "mel"@ {
            TickScale::Mel
        } else if fb_type@ == "bark"@ {
            TickScale::Bark
        } else if fb_type@ == "gamma"@ {
            TickScale::Erb
        } else {
            TickScale::Hertz
        },
{
    if same_text(fb_type, "mel") {
        TickScale::Mel
    } else if same_text(fb_type, "bark") {
        TickScale::Bark
    } else if same_text(fb_type, "gamma") {
        TickScale::Erb
    } else {
        TickScale::Hertz
    }
}

} // verus!
