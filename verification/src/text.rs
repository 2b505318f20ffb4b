//! Text crossing the C boundary: decoding the bytes of a C string, deciding
//! whether a string can be handed out as a C string, and decimal numbers in
//! messages.
use vstd::prelude::*;
use vstd::string::*;
use vstd::utf8::*;

verus! {

broadcast use vstd::seq_lib::group_seq_properties;

/// The text that `Display` writes for the error `std::str::from_utf8` reports on `bytes`.
pub uninterp spec fn utf8_error_text(bytes: Seq<u8>) -> Seq<char>;

/// Trusted: `std::str::from_utf8`. Its documentation says it succeeds exactly when
/// the bytes are valid UTF-8 and that the string returned is a view of those same
/// bytes. On failure the error is turned into its `Display` text, which this
/// contract only names: what the text says is left unsaid.
#[verifier::external_body]
fn str_from_utf8(bytes: &[u8]) -> (r: Result<&str, String>)
    ensures
        r is Ok <==> valid_utf8(bytes@),
        r matches Ok(s) ==> s.spec_bytes() == bytes@,
        r matches Err(m) ==> m@ == utf8_error_text(bytes@),
{
    match std::str::from_utf8(bytes) {
        Ok(s) => Ok(s),
        Err(e) => Err(format!("{}", e)),
    }
}

/// A `Result` whose error is a message, taken by the views of both sides.
pub open spec fn view_result<T: View>(r: Result<T, String>) -> Result<T::V, Seq<char>> {
    match r {
        Ok(t) => Ok(t@),
        Err(e) => Err(e@),
    }
}

/// The message given when a C string pointer is null.
pub open spec fn null_pointer_message() -> Seq<char> {
    "Null pointer provided"@
}

/// What reading a C string gives: `None` stands for a null pointer, `Some(bytes)`
/// for the bytes before the terminating NUL.
pub open spec fn spec_c_str_to_string(raw: Option<Seq<u8>>) -> Result<Seq<char>, Seq<char>> {
    match raw {
        None => Err(null_pointer_message()),
        Some(bytes) => if valid_utf8(bytes) {
            Ok(decode_utf8(bytes))
        } else {
            Err("Invalid UTF-8 string: "@ + utf8_error_text(bytes))
        },
    }
}

/// Converts the bytes of a C string (`None` for a null pointer) into a `String`.
pub fn c_str_to_string(raw: &Option<Vec<u8>>) -> (r: Result<String, String>)
    ensures
        view_result(r) == spec_c_str_to_string(raw.deep_view()),
{
    match raw {
        None => Err(String::from_str("Null pointer provided")),
        Some(bytes) => {
            assert(bytes.deep_view() =~= bytes@);
            match str_from_utf8(bytes.as_slice()) {
            Ok(s) => {
                proof {
                    encode_utf8_decode_utf8(s@);
                }
                Ok(s.to_owned())
            },
            Err(e) => {
                let mut m = String::from_str("Invalid UTF-8 string: ");
                m.append(e.as_str());
                Err(m)
            },
            }
        },
    }
}

/// The bytes that a C string made from `s` carries, or `None` where `s` holds a
/// NUL and so cannot be one.
pub open spec fn spec_c_string_bytes(s: Seq<char>) -> Option<Seq<u8>> {
    if s.contains('\0') {
        None
    } else {
        Some(encode_utf8(s))
    }
}

/// The UTF-8 encoding of a single `char` holds a zero byte exactly when the `char` is NUL.
proof fn lemma_encode_scalar_zero(c: char)
    ensures
        encode_scalar(c as u32).contains(0u8) <==> c == '\0',
{
    let v = c as u32;
    char_is_scalar(c);
    let e = encode_scalar(v);
    if has_width_1_encoding(v) {
        assert(v <= 0x7f ==> (((v & 0x7F) as u8 == 0) <==> v == 0)) by (bit_vector);
        assert(e =~= seq![leading_byte_width_1(v)]);
        if c == '\0' {
            assert(e[0] == 0u8);
        }
    } else if has_width_2_encoding(v) {
        let b0 = leading_byte_width_2(v);
        let b1 = last_continuation_byte(v);
        assert(0xC0u8 | ((v >> 6) & 0x1F) as u8 != 0) by (bit_vector);
        assert(0x80u8 | (v & 0x3F) as u8 != 0) by (bit_vector);
        assert(e =~= seq![b0, b1]);
        assert(!e.contains(0u8));
    } else if has_width_3_encoding(v) {
        assert(0xE0u8 | ((v >> 12) & 0x0F) as u8 != 0) by (bit_vector);
        assert(0x80u8 | ((v >> 6) & 0x3F) as u8 != 0) by (bit_vector);
        assert(0x80u8 | (v & 0x3F) as u8 != 0) by (bit_vector);
        assert(e =~= seq![
            leading_byte_width_3(v),
            second_last_continuation_byte(v),
            last_continuation_byte(v),
        ]);
        assert(!e.contains(0u8));
    } else {
        assert(0xF0u8 | ((v >> 18) & 0x7) as u8 != 0) by (bit_vector);
        assert(0x80u8 | ((v >> 12) & 0x3F) as u8 != 0) by (bit_vector);
        assert(0x80u8 | ((v >> 6) & 0x3F) as u8 != 0) by (bit_vector);
        assert(0x80u8 | (v & 0x3F) as u8 != 0) by (bit_vector);
        assert(e =~= seq![
            leading_byte_width_4(v),
            third_last_continuation_byte(v),
            second_last_continuation_byte(v),
            last_continuation_byte(v),
        ]);
        assert(!e.contains(0u8));
    }
}

/// The UTF-8 encoding of a text holds a zero byte exactly when the text holds a NUL.
pub proof fn lemma_encode_utf8_zero(s: Seq<char>)
    ensures
        encode_utf8(s).contains(0u8) <==> s.contains('\0'),
    decreases s.len(),
{
    if s.len() > 0 {
        let first = encode_scalar(s[0] as u32);
        let rest = encode_utf8(s.drop_first());
        lemma_encode_scalar_zero(s[0]);
        lemma_encode_utf8_zero(s.drop_first());
        assert(encode_utf8(s) == first + rest);
        if (first + rest).contains(0u8) {
            let k = choose|k: int| 0 <= k < (first + rest).len() && (first + rest)[k] == 0u8;
            if k < first.len() {
                assert(first[k] == 0u8);
            } else {
                assert(rest[k - first.len()] == 0u8);
            }
        }
        if first.contains(0u8) {
            let k = choose|k: int| 0 <= k < first.len() && first[k] == 0u8;
            assert((first + rest)[k] == 0u8);
        }
        if rest.contains(0u8) {
            let k = choose|k: int| 0 <= k < rest.len() && rest[k] == 0u8;
            assert((first + rest)[first.len() + k] == 0u8);
        }
        if s.contains('\0') {
            let k = choose|k: int| 0 <= k < s.len() && s[k] == '\0';
            if k > 0 {
                assert(s.drop_first()[k - 1] == '\0');
            }
        }
        if s.drop_first().contains('\0') {
            let k = choose|k: int| 0 <= k < s.drop_first().len() && s.drop_first()[k] == '\0';
            assert(s[k + 1] == '\0');
        }
    }
}

/// The bytes a C string made from `s` would carry: `None` when `s` holds a NUL,
/// which a C string cannot.
pub fn c_string_bytes(s: &str) -> (r: Option<Vec<u8>>)
    ensures
        r.deep_view() == spec_c_string_bytes(s@),
{
    let bytes = s.as_bytes();
    proof {
        lemma_encode_utf8_zero(s@);
    }
    let mut i: usize = 0;
    while i < bytes.len()
        invariant
            bytes@ == encode_utf8(s@),
            encode_utf8(s@).contains(0u8) <==> s@.contains('\0'),
            i <= bytes@.len(),
            forall|j: int| 0 <= j < i ==> bytes@[j] != 0u8,
        decreases bytes@.len() - i,
    {
        if bytes[i] == 0u8 {
            assert(bytes@.contains(0u8));
            return None;
        }
        i = i + 1;
    }
    assert(!bytes@.contains(0u8));
    let v = vstd::slice::slice_to_vec(bytes);
    assert(v.deep_view() =~= v@);
    Some(v)
}

/// A text that can be handed out as a C string reads back, from that C string's
/// bytes, as the same text.
pub proof fn lemma_c_string_round_trip(s: Seq<char>)
    requires
        !s.contains('\0'),
    ensures
        spec_c_str_to_string(spec_c_string_bytes(s)) == Ok::<Seq<char>, Seq<char>>(s),
{
    encode_utf8_valid_utf8(s);
    encode_utf8_decode_utf8(s);
}

/// The text before the first NUL of `s`: all of it when it holds none.
pub open spec fn before_nul(s: Seq<char>) -> Seq<char>
    decreases s.len(),
{
    if s.len() == 0 {
        s
    } else if s[0] == '\0' {
        seq![]
    } else {
        seq![s[0]] + before_nul(s.drop_first())
    }
}

/// In the UTF-8 encoding of `s`, the bytes before the first zero byte are the
/// encoding of the text before its first NUL.
proof fn lemma_bytes_before_nul(s: Seq<char>, j: int)
    requires
        0 <= j <= encode_utf8(s).len(),
        forall|k: int| 0 <= k < j ==> encode_utf8(s)[k] != 0u8,
        j == encode_utf8(s).len() || encode_utf8(s)[j] == 0u8,
    ensures
        encode_utf8(s).take(j) == encode_utf8(before_nul(s)),
    decreases s.len(),
{
    let enc = encode_utf8(s);
    if s.len() == 0 {
        assert(enc.take(j) =~= Seq::<u8>::empty());
    } else {
        let f = encode_scalar(s[0] as u32);
        let r = encode_utf8(s.drop_first());
        assert(enc == f + r);
        lemma_encode_scalar_zero(s[0]);
        char_is_scalar(s[0]);
        if s[0] == '\0' {
            assert(f.contains(0u8));
            let z = choose|z: int| 0 <= z < f.len() && f[z] == 0u8;
            assert(f.len() == 1);
            assert(enc[0] == 0u8);
            assert(j == 0);
            assert(enc.take(j) =~= Seq::<u8>::empty());
        } else {
            assert(f.len() >= 1);
            if j < f.len() {
                assert(enc[j] == f[j]);
                assert(f.contains(0u8));
            }
            let j2 = j - f.len();
            assert forall|k: int| 0 <= k < j2 implies r[k] != 0u8 by {
                assert(r[k] == enc[f.len() + k]);
            }
            if j2 < r.len() {
                assert(r[j2] == enc[j]);
            }
            lemma_bytes_before_nul(s.drop_first(), j2);
            let b = before_nul(s);
            assert(b == seq![s[0]] + before_nul(s.drop_first()));
            assert(b[0] == s[0]);
            assert(b.drop_first() =~= before_nul(s.drop_first()));
            assert(encode_utf8(b) == encode_scalar(b[0] as u32) + encode_utf8(b.drop_first()));
            assert(enc.take(j) =~= f + r.take(j2));
        }
    }
}

/// The bytes of the text before the first NUL of `s`: what a C reader sees of
/// `s` as a C string.
pub fn c_string_prefix(s: &str) -> (r: Vec<u8>)
    ensures
        r@ == encode_utf8(before_nul(s@)),
{
    let bytes = s.as_bytes();
    let mut j: usize = 0;
    while j < bytes.len() && bytes[j] != 0u8
        invariant
            bytes@ == encode_utf8(s@),
            j <= bytes@.len(),
            forall|k: int| 0 <= k < j ==> bytes@[k] != 0u8,
        decreases bytes@.len() - j,
    {
        j = j + 1;
    }
    proof {
        lemma_bytes_before_nul(s@, j as int);
    }
    let mut out: Vec<u8> = Vec::new();
    let mut i: usize = 0;
    while i < j
        invariant
            j <= bytes@.len(),
            i <= j,
            out@ == bytes@.take(i as int),
        decreases j - i,
    {
        out.push(bytes[i]);
        assert(bytes@.take(i + 1) =~= bytes@.take(i as int).push(bytes@[i as int]));
        i = i + 1;
    }
    out
}

/// A text with no NUL is all before its first NUL.
pub proof fn lemma_before_nul_no_nul(s: Seq<char>)
    requires
        !s.contains('\0'),
    ensures
        before_nul(s) == s,
    decreases s.len(),
{
    if s.len() > 0 {
        if s.drop_first().contains('\0') {
            let k = choose|k: int| 0 <= k < s.drop_first().len() && s.drop_first()[k] == '\0';
            assert(s[k + 1] == '\0');
        }
        assert(s[0] != '\0');
        lemma_before_nul_no_nul(s.drop_first());
        assert(seq![s[0]] + s.drop_first() =~= s);
    }
}

/// The character for a decimal digit.
pub open spec fn digit_char(d: nat) -> char {
    if d == 0 {
        '0'
    } else if d == 1 {
        '1'
    } else if d == 2 {
        '2'
    } else if d == 3 {
        '3'
    } else if d == 4 {
        '4'
    } else if d == 5 {
        '5'
    } else if d == 6 {
        '6'
    } else if d == 7 {
        '7'
    } else if d == 8 {
        '8'
    } else {
        '9'
    }
}

/// The decimal representation of `n`, with no leading zeros.
pub open spec fn decimal(n: nat) -> Seq<char>
    decreases n,
{
    if n < 10 {
        seq![digit_char(n)]
    } else {
        decimal(n / 10).push(digit_char(n % 10))
    }
}

fn digit_str(d: usize) -> (s: &'static str)
    requires
        d < 10,
    ensures
        s@ == seq![digit_char(d as nat)],
{
    proof {
        reveal_strlit("0");
        reveal_strlit("1");
        reveal_strlit("2");
        reveal_strlit("3");
        reveal_strlit("4");
        reveal_strlit("5");
        reveal_strlit("6");
        reveal_strlit("7");
        reveal_strlit("8");
        reveal_strlit("9");
    }
    let s = if d == 0 {
        "0"
    } else if d == 1 {
        "1"
    } else if d == 2 {
        "2"
    } else if d == 3 {
        "3"
    } else if d == 4 {
        "4"
    } else if d == 5 {
        "5"
    } else if d == 6 {
        "6"
    } else if d == 7 {
        "7"
    } else if d == 8 {
        "8"
    } else {
        "9"
    };
    assert(s@ =~= seq![digit_char(d as nat)]);
    s
}

/// Appends the decimal representation of `n` to `out`.
pub fn push_decimal(out: &mut String, n: usize)
    ensures
        final(out)@ == old(out)@ + decimal(n as nat),
    decreases n,
{
    if n >= 10 {
        push_decimal(out, n / 10);
    }
    let d = digit_str(n % 10);
    out.append(d);
    proof {
        if n >= 10 {
            assert(old(out)@ + decimal(n as nat) =~= old(out)@ + decimal((n / 10) as nat) + seq![
                digit_char((n % 10) as nat),
            ]);
        }
    }
}

} // verus!
