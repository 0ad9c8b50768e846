//! The line formatter: a pure mapping from (byte buffer, line index,
//! bytes per line, output width) to a fixed-width display string made of an
//! eight-hex-digit address, a space-separated hex byte group padded to a
//! fixed field width, and an ASCII-or-dot gutter, the whole padded or
//! truncated to exactly the requested output width.

use vstd::prelude::*;

verus! {

/// The lowercase hexadecimal digit character for a value in `0..16`.
pub open spec fn hex_digit(v: int) -> char {
    if v == 0 {
        '0'
    } else if v == 1 {
        '1'
    } else if v == 2 {
        '2'
    } else if v == 3 {
        '3'
    } else if v == 4 {
        '4'
    } else if v == 5 {
        '5'
    } else if v == 6 {
        '6'
    } else if v == 7 {
        '7'
    } else if v == 8 {
        '8'
    } else if v == 9 {
        '9'
    } else if v == 10 {
        'a'
    } else if v == 11 {
        'b'
    } else if v == 12 {
        'c'
    } else if v == 13 {
        'd'
    } else if v == 14 {
        'e'
    } else {
        'f'
    }
}

/// The two lowercase hex digits of a byte, high nibble first.
pub open spec fn byte_hex(b: u8) -> Seq<char> {
    seq![hex_digit(b as int / 16), hex_digit(b as int % 16)]
}

/// A run of `n` space characters.
pub open spec fn spaces(n: nat) -> Seq<char> {
    Seq::new(n, |i: int| ' ')
}

/// The hex renderings of the bytes, joined by single spaces:
/// empty for no bytes, `3 * n - 1` characters for `n` bytes.
pub open spec fn hex_group(bytes: Seq<u8>) -> Seq<char>
    decreases bytes.len(),
{
    if bytes.len() == 0 {
        Seq::empty()
    } else if bytes.len() == 1 {
        byte_hex(bytes[0])
    } else {
        byte_hex(bytes[0]) + spaces(1) + hex_group(bytes.drop_first())
    }
}

/// Whether a byte is an ASCII alphanumeric character.
pub open spec fn is_alnum(b: u8) -> bool {
    (48 <= b && b <= 57) || (65 <= b && b <= 90) || (97 <= b && b <= 122)
}

/// A byte in the ASCII gutter: the character itself if alphanumeric,
/// a dot otherwise.
pub open spec fn gutter_char(b: u8) -> char {
    if is_alnum(b) {
        b as char
    } else {
        '.'
    }
}

/// The ASCII gutter of a run of bytes.
pub open spec fn ascii_gutter(bytes: Seq<u8>) -> Seq<char> {
    bytes.map_values(|b: u8| gutter_char(b))
}

/// The lowercase hex digits of `v`, most significant first, with no
/// leading zeros; empty for zero.
pub open spec fn hex_digits(v: nat) -> Seq<char>
    decreases v,
{
    if v == 0 {
        Seq::empty()
    } else {
        hex_digits(v / 16).push(hex_digit(v as int % 16))
    }
}

/// The address field: the hex digits of `v`, zero-padded on the left to at
/// least eight digits.
pub open spec fn address_field(v: nat) -> Seq<char> {
    if hex_digits(v).len() >= 8 {
        hex_digits(v)
    } else {
        Seq::new((8 - hex_digits(v).len()) as nat, |i: int| '0') + hex_digits(v)
    }
}

/// The bytes of line `i`: the slice of at most `bpl` bytes of the buffer
/// starting at offset `i * bpl`, shorter at the final line and empty beyond
/// the end of the buffer.
pub open spec fn line_slice(buf: Seq<u8>, i: int, bpl: int) -> Seq<u8> {
    let lo = if i * bpl <= buf.len() {
        i * bpl
    } else {
        buf.len() as int
    };
    let hi = if i * bpl + bpl <= buf.len() {
        i * bpl + bpl
    } else {
        buf.len() as int
    };
    buf.subrange(lo, hi)
}

/// A line renders only the bytes that exist: byte `j` of line `i` is
/// buffer byte `i * bpl + j`, every position read lies inside the buffer,
/// and the slice is exactly `bpl` bytes long except at the final line,
/// where it holds just the remainder, and beyond the end, where it is
/// empty.
pub proof fn lemma_line_slice_in_bounds(buf: Seq<u8>, i: int, bpl: int)
    requires
        i >= 0,
        bpl > 0,
    ensures
        line_slice(buf, i, bpl).len() == if i * bpl >= buf.len() {
            0int
        } else if i * bpl + bpl <= buf.len() {
            bpl
        } else {
            buf.len() - i * bpl
        },
        forall|j: int|
            0 <= j < line_slice(buf, i, bpl).len() ==> i * bpl + j < buf.len() && line_slice(
                buf,
                i,
                bpl,
            )[j] == buf[i * bpl + j],
{
}

/// The dump has exactly `ceil(len / bpl)` lines: every line index from
/// `ceil(len / bpl)` on is empty, and the final line of a non-empty buffer
/// is not.
pub proof fn lemma_last_line(buf: Seq<u8>, i: int, bpl: int)
    requires
        i >= 0,
        bpl > 0,
    ensures
        i >= crate::viewport::ceil_div(buf.len() as int, bpl) ==> line_slice(buf, i, bpl).len()
            == 0,
        buf.len() > 0 && i == crate::viewport::ceil_div(buf.len() as int, bpl) - 1
            ==> line_slice(buf, i, bpl).len() > 0,
{
    let len = buf.len() as int;
    let c = crate::viewport::ceil_div(len, bpl);
    vstd::arithmetic::div_mod::lemma_fundamental_div_mod(len + bpl - 1, bpl);
    if i >= c {
        assert(i * bpl >= len) by (nonlinear_arith)
            requires
                bpl > 0,
                len >= 0,
                i >= (len + bpl - 1) / bpl,
        ;
    }
    if len > 0 && i == c - 1 {
        assert(i * bpl < len) by (nonlinear_arith)
            requires
                bpl > 0,
                len > 0,
                i == (len + bpl - 1) / bpl - 1,
        ;
    }
}

/// The unfitted display line for line `i`: the address of its first byte,
/// a colon and a space, the hex group right-padded with spaces to a fixed
/// `3 * bpl` characters, a separating space, and the ASCII gutter.
pub open spec fn raw_line(buf: Seq<u8>, i: int, bpl: int) -> Seq<char> {
    let slice = line_slice(buf, i, bpl);
    let hex = hex_group(slice);
    let pad = if hex.len() <= 3 * bpl {
        3 * bpl - hex.len()
    } else {
        0
    };
    address_field((i * bpl) as nat) + seq![':', ' '] + hex + spaces(pad as nat) + spaces(1)
        + ascii_gutter(slice)
}

/// `s` fitted to width `w`: truncated if longer, right-padded with spaces
/// if shorter, so that the result has exactly `w` characters.
pub open spec fn fitted(s: Seq<char>, w: int) -> Seq<char> {
    if s.len() >= w {
        s.take(w)
    } else {
        s + spaces((w - s.len()) as nat)
    }
}

/// The lowercase hexadecimal digit character for a nibble.
pub fn hex_digit_exec(v: u8) -> (c: char)
    requires
        v < 16,
    ensures
        c == hex_digit(v as int),
{
    if v < 10 {
        (48 + v) as char
    } else {
        (87 + v) as char
    }
}

/// The gutter rendering of one byte.
pub fn gutter_char_exec(b: u8) -> (c: char)
    ensures
        c == gutter_char(b),
{
    if (48 <= b && b <= 57) || (65 <= b && b <= 90) || (97 <= b && b <= 122) {
        b as char
    } else {
        '.'
    }
}

/// Relies on `String::push`: appends the given character to the end of the
/// string.
#[verifier::external_body]
fn push_char(s: &mut String, c: char)
    ensures
        final(s)@ == old(s)@.push(c),
{
    s.push(c);
}

/// A `String` holding exactly the given characters.
fn chars_to_string(cs: &Vec<char>) -> (s: String)
    ensures
        s@ == cs@,
{
    let mut s = String::new();
    let mut i: usize = 0;
    while i < cs.len()
        invariant
            i <= cs@.len(),
            s@ == cs@.take(i as int),
        decreases cs@.len() - i,
    {
        push_char(&mut s, cs[i]);
        proof {
            assert(cs@.take(i as int).push(cs@[i as int]) =~= cs@.take(i + 1));
        }
        i += 1;
    }
    proof {
        assert(cs@.take(cs@.len() as int) =~= cs@);
    }
    s
}

/// The hex digits of `v`, most significant first (none for zero).
fn hex_digits_exec(v: usize) -> (ds: Vec<char>)
    ensures
        ds@ == hex_digits(v as nat),
{
    let mut ds: Vec<char> = Vec::new();
    let mut r: usize = v;
    while r > 0
        invariant
            hex_digits(r as nat) + ds@ == hex_digits(v as nat),
        decreases r,
    {
        let ghost r0 = r as nat;
        let ghost ds0 = ds@;
        let d = hex_digit_exec((r % 16) as u8);
        ds.insert(0, d);
        r = r / 16;
        proof {
            assert(hex_digits(r0) == hex_digits(r0 / 16).push(hex_digit(r0 as int % 16)));
            assert(ds@ =~= seq![d] + ds0);
            assert(hex_digits(r as nat) + ds@ =~= hex_digits(r0) + ds0);
        }
    }
    proof {
        assert(hex_digits(0) + ds@ =~= ds@);
    }
    ds
}

/// The address field of `v`: its hex digits, zero-padded on the left to at
/// least eight characters.
fn address_chars(v: usize) -> (out: Vec<char>)
    ensures
        out@ == address_field(v as nat),
{
    let mut ds = hex_digits_exec(v);
    while ds.len() < 8
        invariant
            ds@.len() >= 8 ==> ds@ == address_field(v as nat),
            ds@.len() < 8 ==> Seq::new((8 - ds@.len()) as nat, |i: int| '0') + ds@
                == address_field(v as nat),
        decreases 8 - ds@.len(),
    {
        let ghost ds0 = ds@;
        ds.insert(0, '0');
        proof {
            assert(ds@ =~= seq!['0'] + ds0);
            if ds@.len() < 8 {
                assert(Seq::new((8 - ds@.len()) as nat, |i: int| '0') + ds@ =~= Seq::new(
                    (8 - ds0.len()) as nat,
                    |i: int| '0',
                ) + ds0);
            } else {
                assert(seq!['0'] + ds0 =~= Seq::new((8 - ds0.len()) as nat, |i: int| '0') + ds0);
            }
        }
    }
    ds
}

/// Appends the two hex digits of a byte.
fn push_byte_hex(out: &mut Vec<char>, b: u8)
    ensures
        final(out)@ == old(out)@ + byte_hex(b),
{
    let hi = hex_digit_exec(b / 16);
    let lo = hex_digit_exec(b % 16);
    out.push(hi);
    out.push(lo);
    proof {
        assert(old(out)@.push(hi).push(lo) =~= old(out)@ + byte_hex(b));
    }
}

/// `hex_group` of a run extended by one byte: the new byte's digits are
/// appended, after a separating space when the run was not empty.
proof fn lemma_hex_group_snoc(s: Seq<u8>, b: u8)
    ensures
        s.len() == 0 ==> hex_group(s.push(b)) == byte_hex(b),
        s.len() > 0 ==> hex_group(s.push(b)) == hex_group(s) + spaces(1) + byte_hex(b),
    decreases s.len(),
{
    if s.len() == 0 {
        assert(s.push(b) =~= seq![b]);
        assert(hex_group(seq![b]) == byte_hex(b));
    } else {
        lemma_hex_group_snoc(s.drop_first(), b);
        assert(s.push(b).drop_first() =~= s.drop_first().push(b));
        assert(s.push(b)[0] == s[0]);
        if s.len() == 1 {
            assert(hex_group(s.push(b)) == byte_hex(s[0]) + spaces(1) + hex_group(
                s.drop_first().push(b),
            ));
            assert(hex_group(s) == byte_hex(s[0]));
        } else {
            assert(hex_group(s.push(b)) == byte_hex(s[0]) + spaces(1) + hex_group(
                s.drop_first().push(b),
            ));
            assert(byte_hex(s[0]) + spaces(1) + (hex_group(s.drop_first()) + spaces(1) + byte_hex(
                b,
            )) =~= (byte_hex(s[0]) + spaces(1) + hex_group(s.drop_first())) + spaces(1) + byte_hex(
                b,
            ));
        }
    }
}

/// The hex group of `n` bytes has `3 * n - 1` characters (none for `n = 0`).
pub proof fn lemma_hex_group_len(s: Seq<u8>)
    ensures
        s.len() == 0 ==> hex_group(s).len() == 0,
        s.len() > 0 ==> hex_group(s).len() == 3 * s.len() - 1,
    decreases s.len(),
{
    if s.len() > 1 {
        lemma_hex_group_len(s.drop_first());
    }
}

/// The unfitted display line as a vector of characters.
fn line_chars(buffer: &Vec<u8>, line_index: usize, bytes_per_line: usize) -> (out: Vec<char>)
    requires
        line_index * bytes_per_line <= usize::MAX,
        bytes_per_line * 3 <= usize::MAX,
    ensures
        out@ == raw_line(buffer@, line_index as int, bytes_per_line as int),
{
    let ghost slice = line_slice(buffer@, line_index as int, bytes_per_line as int);
    let start: usize = line_index * bytes_per_line;
    let len: usize = buffer.len();
    let lo: usize = if start <= len {
        start
    } else {
        len
    };
    let n: usize = if len - lo <= bytes_per_line {
        len - lo
    } else {
        bytes_per_line
    };
    proof {
        assert(slice =~= buffer@.subrange(lo as int, lo + n));
    }
    let mut out = address_chars(start);
    out.push(':');
    out.push(' ');
    let ghost head = address_field(start as nat) + seq![':', ' '];
    proof {
        assert(out@ =~= head);
    }

    let mut k: usize = 0;
    while k < n
        invariant
            k <= n,
            lo + n <= len,
            len == buffer@.len(),
            slice == buffer@.subrange(lo as int, lo + n),
            out@ == head + hex_group(slice.take(k as int)),
        decreases n - k,
    {
        let ghost done = slice.take(k as int);
        if k > 0 {
            out.push(' ');
            proof {
                assert(out@ =~= head + (hex_group(done) + spaces(1)));
            }
        }
        push_byte_hex(&mut out, buffer[lo + k]);
        proof {
            assert(slice[k as int] == buffer@[lo + k]);
            assert(done.push(slice[k as int]) =~= slice.take(k + 1));
            lemma_hex_group_snoc(done, slice[k as int]);
            if k > 0 {
                assert((head + (hex_group(done) + spaces(1))) + byte_hex(slice[k as int]) =~= head
                    + hex_group(slice.take(k + 1)));
            } else {
                assert(head + byte_hex(slice[k as int]) =~= head + hex_group(slice.take(k + 1)));
            }
        }
        k += 1;
    }
    proof {
        assert(slice.take(n as int) =~= slice);
        lemma_hex_group_len(slice);
    }

    let hex_len: usize = if n == 0 {
        0
    } else {
        3 * n - 1
    };
    let field: usize = bytes_per_line * 3;
    let pad: usize = if hex_len <= field {
        field - hex_len
    } else {
        0
    };
    let ghost mid = head + hex_group(slice) + spaces(pad as nat) + spaces(1);
    let mut p: usize = 0;
    while p < pad
        invariant
            p <= pad,
            out@ == head + hex_group(slice) + spaces(p as nat),
        decreases pad - p,
    {
        out.push(' ');
        proof {
            assert((head + hex_group(slice) + spaces(p as nat)).push(' ') =~= head + hex_group(
                slice,
            ) + spaces((p + 1) as nat));
        }
        p += 1;
    }
    out.push(' ');
    proof {
        assert(out@ =~= mid);
    }

    let mut k: usize = 0;
    while k < n
        invariant
            k <= n,
            lo + n <= len,
            len == buffer@.len(),
            slice == buffer@.subrange(lo as int, lo + n),
            out@ == mid + ascii_gutter(slice.take(k as int)),
        decreases n - k,
    {
        let c = gutter_char_exec(buffer[lo + k]);
        out.push(c);
        proof {
            assert(slice[k as int] == buffer@[lo + k]);
            assert(ascii_gutter(slice.take(k as int)).push(gutter_char(slice[k as int]))
                =~= ascii_gutter(slice.take(k + 1)));
        }
        k += 1;
    }
    proof {
        assert(slice.take(n as int) =~= slice);
        assert(mid + ascii_gutter(slice) =~= raw_line(
            buffer@,
            line_index as int,
            bytes_per_line as int,
        ));
    }
    out
}

/// The given characters fitted to exactly `width` characters: truncated if
/// longer, right-padded with spaces if shorter.
fn fit_chars(cs: Vec<char>, width: usize) -> (out: Vec<char>)
    ensures
        out@ == fitted(cs@, width as int),
        out@.len() == width,
{
    let mut out = cs;
    let ghost raw = out@;
    if out.len() >= width {
        out.truncate(width);
        proof {
            assert(raw.subrange(0, width as int) =~= fitted(raw, width as int));
        }
    } else {
        while out.len() < width
            invariant
                raw.len() <= out@.len() <= width,
                out@ == raw + spaces((out@.len() - raw.len()) as nat),
            decreases width - out@.len(),
        {
            out.push(' ');
            proof {
                assert(out@ =~= raw + spaces((out@.len() - raw.len()) as nat));
            }
        }
    }
    out
}

/// Formats line `line_index` of the buffer for display: the address field,
/// the padded hex byte group and the ASCII gutter, fitted to exactly
/// `output_width` characters. Lines wholly or partly beyond the end of the
/// buffer render only the bytes that exist (an empty hex field beyond the
/// end), with the address always shown.
pub fn format_line(
    buffer: &Vec<u8>,
    line_index: usize,
    bytes_per_line: usize,
    output_width: usize,
) -> (r: String)
    requires
        line_index * bytes_per_line <= usize::MAX,
        bytes_per_line * 3 <= usize::MAX,
    ensures
        r@ == fitted(raw_line(buffer@, line_index as int, bytes_per_line as int), output_width as int),
        r@.len() == output_width,
{
    let cs = line_chars(buffer, line_index, bytes_per_line);
    let out = fit_chars(cs, output_width);
    chars_to_string(&out)
}

/// A string fitted to exactly `width` characters: truncated if longer,
/// right-padded with spaces if shorter.
pub fn fit_to_width(s: &str, width: usize) -> (r: String)
    ensures
        r@ == fitted(s@, width as int),
        r@.len() == width,
{
    let n = s.unicode_len();
    let mut cs: Vec<char> = Vec::new();
    let mut i: usize = 0;
    while i < n
        invariant
            i <= n,
            n == s@.len(),
            cs@ == s@.take(i as int),
        decreases n - i,
    {
        let c = s.get_char(i);
        cs.push(c);
        proof {
            assert(s@.take(i as int).push(s@[i as int]) =~= s@.take(i + 1));
        }
        i += 1;
    }
    proof {
        assert(s@.take(n as int) =~= s@);
    }
    let out = fit_chars(cs, width);
    chars_to_string(&out)
}

} // verus!
