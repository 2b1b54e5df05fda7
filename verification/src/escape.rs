//! Escaping of raw capability text into a printable form.
//!
//! A capability value is raw terminal control data.  For display, every
//! byte is escaped conservatively: printable ASCII passes through,
//! well-known control bytes become their two-byte backslash escapes, and
//! every other byte becomes a four-byte lowercase hex escape.  One override
//! follows the escaping pass: each occurrence of the four-byte hex escape
//! of the ESC byte is replaced by the two-byte caret notation `^[`, the
//! form terminal users read escape sequences in.

use vstd::prelude::*;
use vstd::string::StringSliceAdditionalSpecFns;

use crate::ascii::all_ascii;
use crate::ascii::ascii_chars;
use crate::ascii::ascii_to_string;

verus! {

/// The lowercase hex digit of a value below sixteen.
pub open spec fn hex_digit(n: u8) -> u8 {
    if n < 10 {
        (0x30 + n) as u8
    } else {
        (0x57 + n) as u8
    }
}

/// The escaped form of one byte: tab, carriage return, line feed,
/// backslash and the two quotes become their backslash escapes, other
/// printable ASCII passes through, and everything else becomes a four-byte
/// lowercase hex escape.
pub open spec fn escape_byte(b: u8) -> Seq<u8> {
    if b == 0x09 {
        seq![0x5cu8, 0x74]
    } else if b == 0x0d {
        seq![0x5cu8, 0x72]
    } else if b == 0x0a {
        seq![0x5cu8, 0x6e]
    } else if b == 0x5c {
        seq![0x5cu8, 0x5c]
    } else if b == 0x27 {
        seq![0x5cu8, 0x27]
    } else if b == 0x22 {
        seq![0x5cu8, 0x22]
    } else if 0x20 <= b && b <= 0x7e {
        seq![b]
    } else {
        seq![0x5cu8, 0x78, hex_digit(b / 16), hex_digit(b % 16)]
    }
}

/// The byte-by-byte escaping of a whole sequence, before the caret
/// override.
pub open spec fn raw_escaped(s: Seq<u8>) -> Seq<u8>
    decreases s.len(),
{
    if s.len() == 0 {
        Seq::empty()
    } else {
        escape_byte(s[0]) + raw_escaped(s.skip(1))
    }
}

/// The four-byte hex escape of the ESC byte.
pub open spec fn esc_hex_escape() -> Seq<u8> {
    seq![0x5cu8, 0x78, 0x31, 0x62]
}

/// The two-byte caret notation that stands for ESC in the final output.
pub open spec fn caret_mark() -> Seq<u8> {
    seq![0x5eu8, 0x5b]
}

/// The caret override: each leftmost occurrence of the hex escape of ESC,
/// scanning once from the left without overlap, is replaced by the caret
/// notation.
pub open spec fn replace_esc(s: Seq<u8>) -> Seq<u8>
    decreases s.len(),
{
    if s.len() >= 4 && s.subrange(0, 4) == esc_hex_escape() {
        caret_mark() + replace_esc(s.skip(4))
    } else if s.len() == 0 {
        Seq::empty()
    } else {
        seq![s[0]] + replace_esc(s.skip(1))
    }
}

/// The full escaped form of raw capability bytes: byte-by-byte escaping,
/// then the caret override.
pub open spec fn escaped(s: Seq<u8>) -> Seq<u8> {
    replace_esc(raw_escaped(s))
}

/// Whether the needle stands as a contiguous run inside the haystack at
/// the given position.
pub open spec fn occurs_at(h: Seq<u8>, n: Seq<u8>, i: int) -> bool {
    0 <= i && i + n.len() <= h.len() && h.subrange(i, i + n.len()) == n
}

/// Whether the needle occurs as a contiguous run inside the haystack.
pub open spec fn contains_seq(h: Seq<u8>, n: Seq<u8>) -> bool {
    exists|i: int| #[trigger] occurs_at(h, n, i)
}

/// The lowercase hex digit of a value below sixteen.
fn hex_digit_value(n: u8) -> (r: u8)
    requires
        n < 16,
    ensures
        r == hex_digit(n),
{
    if n < 10 {
        0x30 + n
    } else {
        0x57 + n
    }
}

/// Appends the escaped form of one byte.
fn push_escape_byte(out: &mut Vec<u8>, b: u8)
    ensures
        final(out)@ == old(out)@ + escape_byte(b),
{
    if b == 0x09 {
        out.push(0x5c);
        out.push(0x74);
    } else if b == 0x0d {
        out.push(0x5c);
        out.push(0x72);
    } else if b == 0x0a {
        out.push(0x5c);
        out.push(0x6e);
    } else if b == 0x5c {
        out.push(0x5c);
        out.push(0x5c);
    } else if b == 0x27 {
        out.push(0x5c);
        out.push(0x27);
    } else if b == 0x22 {
        out.push(0x5c);
        out.push(0x22);
    } else if 0x20 <= b && b <= 0x7e {
        out.push(b);
    } else {
        out.push(0x5c);
        out.push(0x78);
        out.push(hex_digit_value(b / 16));
        out.push(hex_digit_value(b % 16));
    }
    assert(out@ =~= old(out)@ + escape_byte(b));
}

/// Byte-by-byte escaping appends escape by escape.
proof fn lemma_raw_escaped_snoc(s: Seq<u8>, b: u8)
    ensures
        raw_escaped(s.push(b)) == raw_escaped(s) + escape_byte(b),
    decreases s.len(),
{
    if s.len() == 0 {
        assert(s.push(b)[0] == b);
        assert(s.push(b).skip(1) =~= Seq::<u8>::empty());
        assert(raw_escaped(Seq::<u8>::empty()) == Seq::<u8>::empty());
        assert(raw_escaped(s.push(b)) == escape_byte(b) + raw_escaped(s.push(b).skip(1)));
        assert(raw_escaped(s.push(b)) =~= raw_escaped(s) + escape_byte(b));
    } else {
        assert(s.push(b)[0] == s[0]);
        assert(s.push(b).skip(1) =~= s.skip(1).push(b));
        lemma_raw_escaped_snoc(s.skip(1), b);
        assert(raw_escaped(s.push(b)) == escape_byte(s[0]) + raw_escaped(s.skip(1).push(b)));
        assert(raw_escaped(s.push(b)) =~= raw_escaped(s) + escape_byte(b));
    }
}

/// Escapes raw capability bytes into their printable ASCII form.
pub fn escape_bytes(bytes: &[u8]) -> (r: Vec<u8>)
    ensures
        r@ == escaped(bytes@),
{
    let n: usize = bytes.len();
    let mut raw: Vec<u8> = Vec::new();
    let mut i: usize = 0;
    while i < n
        invariant
            i <= n,
            n == bytes@.len(),
            raw@ == raw_escaped(bytes@.take(i as int)),
        decreases n - i,
    {
        let b: u8 = *vstd::slice::slice_index_get(bytes, i);
        proof {
            lemma_raw_escaped_snoc(bytes@.take(i as int), bytes@[i as int]);
            assert(bytes@.take(i + 1) =~= bytes@.take(i as int).push(bytes@[i as int]));
        }
        push_escape_byte(&mut raw, b);
        i = i + 1;
    }
    assert(bytes@.take(n as int) =~= bytes@);
    let m: usize = raw.len();
    let mut out: Vec<u8> = Vec::new();
    let mut j: usize = 0;
    proof {
        assert(raw@.skip(0) =~= raw@);
        assert(Seq::<u8>::empty() + replace_esc(raw@) =~= replace_esc(raw@));
    }
    while j < m
        invariant
            j <= m,
            m == raw@.len(),
            replace_esc(raw@) == out@ + replace_esc(raw@.skip(j as int)),
        decreases m - j,
    {
        if m - j >= 4 && raw[j] == 0x5c && raw[j + 1] == 0x78 && raw[j + 2] == 0x31 && raw[j + 3]
            == 0x62 {
            proof {
                assert(raw@.skip(j as int).subrange(0, 4) =~= esc_hex_escape());
                assert(raw@.skip(j as int).skip(4) =~= raw@.skip(j + 4));
            }
            out.push(0x5e);
            out.push(0x5b);
            proof {
                assert(replace_esc(raw@.skip(j as int)) == caret_mark() + replace_esc(
                    raw@.skip(j + 4),
                ));
                assert(replace_esc(raw@) =~= out@ + replace_esc(raw@.skip(j + 4)));
            }
            j = j + 4;
        } else {
            proof {
                let t = raw@.skip(j as int);
                if t.len() >= 4 && t.subrange(0, 4) == esc_hex_escape() {
                    assert(t.subrange(0, 4)[0] == raw@[j as int]);
                    assert(t.subrange(0, 4)[1] == raw@[j + 1]);
                    assert(t.subrange(0, 4)[2] == raw@[j + 2]);
                    assert(t.subrange(0, 4)[3] == raw@[j + 3]);
                    assert(false);
                }
                assert(t[0] == raw@[j as int]);
                assert(t.skip(1) =~= raw@.skip(j + 1));
            }
            out.push(raw[j]);
            proof {
                assert(replace_esc(raw@) =~= out@ + replace_esc(raw@.skip(j + 1)));
            }
            j = j + 1;
        }
    }
    assert(raw@.skip(m as int) =~= Seq::<u8>::empty());
    assert(out@ =~= replace_esc(raw@));
    out
}

/// The escaped form of one byte is ASCII throughout.
proof fn lemma_escape_byte_ascii(b: u8)
    ensures
        all_ascii(escape_byte(b)),
{
}

/// Byte-by-byte escaping yields ASCII throughout.
proof fn lemma_raw_escaped_ascii(s: Seq<u8>)
    ensures
        all_ascii(raw_escaped(s)),
    decreases s.len(),
{
    if s.len() == 0 {
    } else {
        lemma_escape_byte_ascii(s[0]);
        lemma_raw_escaped_ascii(s.skip(1));
    }
}

/// The caret override keeps ASCII output ASCII.
proof fn lemma_replace_esc_ascii(t: Seq<u8>)
    requires
        all_ascii(t),
    ensures
        all_ascii(replace_esc(t)),
    decreases t.len(),
{
    if t.len() >= 4 && t.subrange(0, 4) == esc_hex_escape() {
        assert(all_ascii(t.skip(4)));
        lemma_replace_esc_ascii(t.skip(4));
    } else if t.len() == 0 {
    } else {
        assert(all_ascii(t.skip(1)));
        lemma_replace_esc_ascii(t.skip(1));
    }
}

/// The full escaped form is ASCII throughout.
proof fn lemma_escaped_ascii(s: Seq<u8>)
    ensures
        all_ascii(escaped(s)),
{
    lemma_raw_escaped_ascii(s);
    lemma_replace_esc_ascii(raw_escaped(s));
}

/// Where the caret override emits anything but a caret first, it copied
/// the head byte and went on behind it.
proof fn lemma_replace_esc_head(t: Seq<u8>)
    requires
        replace_esc(t).len() > 0,
        replace_esc(t)[0] != 0x5e,
    ensures
        t.len() > 0,
        t[0] == replace_esc(t)[0],
        replace_esc(t).skip(1) == replace_esc(t.skip(1)),
{
    if t.len() >= 4 && t.subrange(0, 4) == esc_hex_escape() {
        assert(replace_esc(t)[0] == 0x5e);
    } else if t.len() == 0 {
        assert(replace_esc(t).len() == 0);
    } else {
        assert(replace_esc(t) == seq![t[0]] + replace_esc(t.skip(1)));
        assert(replace_esc(t).skip(1) =~= replace_esc(t.skip(1)));
    }
}

/// An occurrence inside the suffix of a concatenation stands in the whole,
/// shifted by the prefix.
proof fn lemma_occurs_shift_into(pre: Seq<u8>, suf: Seq<u8>, n: Seq<u8>, j: int)
    requires
        occurs_at(suf, n, j),
    ensures
        occurs_at(pre + suf, n, pre.len() + j),
{
    let w = pre + suf;
    assert forall|x: int| 0 <= x < n.len() implies w[pre.len() + j + x] == n[x] by {
        assert(w[pre.len() + j + x] == suf[j + x]);
        assert(suf.subrange(j, j + n.len())[x] == suf[j + x]);
    }
    assert(w.subrange(pre.len() + j, pre.len() + j + n.len()) =~= n);
}

/// An occurrence wholly behind the prefix of a concatenation stands in the
/// suffix.
proof fn lemma_occurs_shift_out(pre: Seq<u8>, suf: Seq<u8>, n: Seq<u8>, i: int)
    requires
        occurs_at(pre + suf, n, i),
        i >= pre.len(),
    ensures
        occurs_at(suf, n, i - pre.len()),
{
    let w = pre + suf;
    let j = i - pre.len();
    assert forall|x: int| 0 <= x < n.len() implies suf[j + x] == n[x] by {
        assert(w[i + x] == suf[j + x]);
        assert(w.subrange(i, i + n.len())[x] == w[i + x]);
    }
    assert(suf.subrange(j, j + n.len()) =~= n);
}

/// An occurrence at a positive position stands in the tail.
proof fn lemma_occurs_skip(t: Seq<u8>, n: Seq<u8>, i: int)
    requires
        occurs_at(t, n, i),
        i >= 1,
    ensures
        occurs_at(t.skip(1), n, i - 1),
{
    assert forall|x: int| 0 <= x < n.len() implies t.skip(1)[i - 1 + x] == n[x] by {
        assert(t.skip(1)[i - 1 + x] == t[i + x]);
        assert(t.subrange(i, i + n.len())[x] == t[i + x]);
    }
    assert(t.skip(1).subrange(i - 1, i - 1 + n.len()) =~= n);
}

/// The caret override leaves no occurrence of the hex escape of ESC in its
/// output.
proof fn lemma_replace_esc_free(t: Seq<u8>)
    ensures
        !contains_seq(replace_esc(t), esc_hex_escape()),
    decreases t.len(),
{
    let f = replace_esc(t);
    if contains_seq(f, esc_hex_escape()) {
        let i = choose|i: int| occurs_at(f, esc_hex_escape(), i);
        assert(f.subrange(i, i + 4)[0] == f[i]);
        assert(f.subrange(i, i + 4)[1] == f[i + 1]);
        assert(f.subrange(i, i + 4)[2] == f[i + 2]);
        assert(f.subrange(i, i + 4)[3] == f[i + 3]);
        assert(f[i] == 0x5c && f[i + 1] == 0x78 && f[i + 2] == 0x31 && f[i + 3] == 0x62);
        if t.len() >= 4 && t.subrange(0, 4) == esc_hex_escape() {
            let g = replace_esc(t.skip(4));
            assert(f == caret_mark() + g);
            lemma_replace_esc_free(t.skip(4));
            if i == 0 {
                assert(f[0] == 0x5e);
            } else if i == 1 {
                assert(f[1] == 0x5b);
            } else {
                lemma_occurs_shift_out(caret_mark(), g, esc_hex_escape(), i);
                assert(contains_seq(g, esc_hex_escape()));
            }
        } else if t.len() == 0 {
            assert(f.len() == 0);
        } else {
            let g = replace_esc(t.skip(1));
            assert(f == seq![t[0]] + g);
            lemma_replace_esc_free(t.skip(1));
            if i >= 1 {
                lemma_occurs_shift_out(seq![t[0]], g, esc_hex_escape(), i);
                assert(contains_seq(g, esc_hex_escape()));
            } else {
                assert(f[0] == t[0]);
                assert(f[1] == g[0] && f[2] == g[1] && f[3] == g[2]);
                assert(g.len() >= 3);
                lemma_replace_esc_head(t.skip(1));
                assert(t.skip(1)[0] == 0x78);
                assert(t.skip(1).skip(1) =~= t.skip(2));
                let g1 = replace_esc(t.skip(2));
                assert(g.skip(1) == g1);
                assert(g1[0] == g[1] && g1.len() == g.len() - 1);
                lemma_replace_esc_head(t.skip(2));
                assert(t.skip(2)[0] == 0x31);
                assert(t.skip(2).skip(1) =~= t.skip(3));
                let g2 = replace_esc(t.skip(3));
                assert(g1.skip(1) == g2);
                assert(g2[0] == g1[1] && g1[1] == g[2]);
                lemma_replace_esc_head(t.skip(3));
                assert(t.skip(3)[0] == 0x62);
                assert(t[1] == t.skip(1)[0]);
                assert(t[2] == t.skip(2)[0]);
                assert(t[3] == t.skip(3)[0]);
                assert(t.len() >= 4);
                assert(t.subrange(0, 4) =~= esc_hex_escape());
            }
        }
    }
}

/// Where the input of the caret override contains the hex escape of ESC,
/// its output shows the caret notation.
proof fn lemma_replace_esc_marks(t: Seq<u8>)
    requires
        contains_seq(t, esc_hex_escape()),
    ensures
        contains_seq(replace_esc(t), caret_mark()),
    decreases t.len(),
{
    let f = replace_esc(t);
    let i = choose|i: int| occurs_at(t, esc_hex_escape(), i);
    if t.len() >= 4 && t.subrange(0, 4) == esc_hex_escape() {
        let g = replace_esc(t.skip(4));
        assert(f == caret_mark() + g);
        assert(f.subrange(0, 2) =~= caret_mark()) by {
            assert(f[0] == 0x5e && f[1] == 0x5b);
        }
        assert(occurs_at(f, caret_mark(), 0));
        assert(contains_seq(f, caret_mark()));
    } else {
        assert(t.len() >= 4);
        assert(i >= 1) by {
            if i == 0 {
                assert(t.subrange(0, 4) == esc_hex_escape());
            }
        }
        lemma_occurs_skip(t, esc_hex_escape(), i);
        assert(contains_seq(t.skip(1), esc_hex_escape()));
        lemma_replace_esc_marks(t.skip(1));
        let g = replace_esc(t.skip(1));
        let j = choose|j: int| occurs_at(g, caret_mark(), j);
        assert(f == seq![t[0]] + g);
        lemma_occurs_shift_into(seq![t[0]], g, caret_mark(), j);
        assert(occurs_at(f, caret_mark(), 1 + j));
        assert(contains_seq(f, caret_mark()));
    }
}

/// Where the raw bytes contain ESC, their byte-by-byte escaping contains
/// the hex escape of ESC.
proof fn lemma_raw_escaped_esc(s: Seq<u8>)
    requires
        s.contains(0x1b),
    ensures
        contains_seq(raw_escaped(s), esc_hex_escape()),
    decreases s.len(),
{
    let r = raw_escaped(s);
    assert(s.len() > 0);
    assert(r == escape_byte(s[0]) + raw_escaped(s.skip(1)));
    if s[0] == 0x1b {
        assert(escape_byte(0x1b) =~= esc_hex_escape());
        assert(r.subrange(0, 4) =~= esc_hex_escape()) by {
            assert(r[0] == 0x5c && r[1] == 0x78 && r[2] == 0x31 && r[3] == 0x62);
        }
        assert(occurs_at(r, esc_hex_escape(), 0));
        assert(contains_seq(r, esc_hex_escape()));
    } else {
        let k = choose|k: int| 0 <= k < s.len() && s[k] == 0x1b;
        assert(k >= 1);
        assert(s.skip(1)[k - 1] == 0x1b);
        assert(s.skip(1).contains(0x1b));
        lemma_raw_escaped_esc(s.skip(1));
        let g = raw_escaped(s.skip(1));
        let j = choose|j: int| occurs_at(g, esc_hex_escape(), j);
        lemma_occurs_shift_into(escape_byte(s[0]), g, esc_hex_escape(), j);
        assert(occurs_at(r, esc_hex_escape(), escape_byte(s[0]).len() + j));
        assert(contains_seq(r, esc_hex_escape()));
    }
}

/// The escaped form never shows the four-byte hex escape of the ESC byte:
/// wherever the escaping pass would have produced it, the caret override
/// replaced it.
pub proof fn lemma_escaped_no_esc_hex(s: Seq<u8>)
    ensures
        !contains_seq(escaped(s), esc_hex_escape()),
{
    lemma_replace_esc_free(raw_escaped(s));
}

/// Raw capability bytes that contain the ESC byte escape to a form that
/// shows the two-byte caret notation.
pub proof fn lemma_escaped_caret(s: Seq<u8>)
    requires
        s.contains(0x1b),
    ensures
        contains_seq(escaped(s), caret_mark()),
{
    lemma_raw_escaped_esc(s);
    lemma_replace_esc_marks(raw_escaped(s));
}


/// Text that contains the ESC character encodes to bytes that contain the
/// ESC byte: ESC is ASCII, so it encodes to the one byte of its own value,
/// wherever it stands in the text.
proof fn lemma_encode_utf8_esc(text: Seq<char>)
    requires
        text.contains('\u{1b}'),
    ensures
        vstd::utf8::encode_utf8(text).contains(0x1b),
    decreases text.len(),
{
    let e = vstd::utf8::encode_utf8(text);
    assert(text.len() > 0);
    let head = vstd::utf8::encode_scalar(text[0] as u32);
    assert(e == head + vstd::utf8::encode_utf8(text.drop_first()));
    if text[0] == '\u{1b}' {
        assert(text[0] as u32 == 0x1b);
        assert(0x1bu32 & 0x7F == 0x1b) by (bit_vector);
        assert(head =~= seq![0x1bu8]);
        assert(e[0] == 0x1b);
        assert(e.contains(0x1b));
    } else {
        let k = choose|k: int| 0 <= k < text.len() && text[k] == '\u{1b}';
        assert(k >= 1);
        assert(text.drop_first()[k - 1] == '\u{1b}');
        assert(text.drop_first().contains('\u{1b}'));
        lemma_encode_utf8_esc(text.drop_first());
        let rest = vstd::utf8::encode_utf8(text.drop_first());
        let j = choose|j: int| 0 <= j < rest.len() && rest[j] == 0x1b;
        assert(e[head.len() + j] == 0x1b);
        assert(e.contains(0x1b));
    }
}

/// Capability text that contains the ESC character escapes to a form that
/// shows the two-byte caret notation and never the four-byte hex escape
/// of ESC.
pub proof fn lemma_escaped_text_caret(text: Seq<char>)
    requires
        text.contains('\u{1b}'),
    ensures
        contains_seq(escaped(vstd::utf8::encode_utf8(text)), caret_mark()),
        !contains_seq(escaped(vstd::utf8::encode_utf8(text)), esc_hex_escape()),
{
    lemma_encode_utf8_esc(text);
    lemma_escaped_caret(vstd::utf8::encode_utf8(text));
    lemma_escaped_no_esc_hex(vstd::utf8::encode_utf8(text));
}

/// Escapes an optional capability text for display.  Absent input maps to
/// absent output; present input maps to the escaped form of its bytes,
/// read back as text.
pub fn escape_string(s: Option<&str>) -> (r: Option<String>)
    ensures
        r is Some <==> s is Some,
        s matches Some(text) ==> (r matches Some(esc) && esc@ == ascii_chars(
            escaped(text.spec_bytes()),
        )),
{
    match s {
        None => None,
        Some(text) => {
            let escaped_bytes = escape_bytes(text.as_bytes());
            proof {
                lemma_escaped_ascii(text.spec_bytes());
            }
            Some(ascii_to_string(escaped_bytes))
        },
    }
}

} // verus!
