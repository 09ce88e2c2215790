use vstd::prelude::*;

verus! {

/// The lowercase hexadecimal digit for a value below sixteen.
pub open spec fn hex_digit(d: u8) -> char
    recommends
        d < 16,
{
    if d < 10 {
        (('0' as u8) + d) as char
    } else {
        (('a' as u8) + (d - 10)) as char
    }
}

/// Two lowercase digits per byte, most significant first, no separators.
pub open spec fn hex_of(b: Seq<u8>) -> Seq<char>
    decreases b.len(),
{
    if b.len() == 0 {
        Seq::empty()
    } else {
        hex_of(b.drop_last()) + seq![hex_digit(b.last() / 16), hex_digit(b.last() % 16)]
    }
}

fn digit_str(d: u8) -> (r: &'static str)
    requires
        d < 16,
    ensures
        r@ == seq![hex_digit(d)],
{
    match d {
        0 => { proof { reveal_strlit("0"); } "0" },
        1 => { proof { reveal_strlit("1"); } "1" },
        2 => { proof { reveal_strlit("2"); } "2" },
        3 => { proof { reveal_strlit("3"); } "3" },
        4 => { proof { reveal_strlit("4"); } "4" },
        5 => { proof { reveal_strlit("5"); } "5" },
        6 => { proof { reveal_strlit("6"); } "6" },
        7 => { proof { reveal_strlit("7"); } "7" },
        8 => { proof { reveal_strlit("8"); } "8" },
        9 => { proof { reveal_strlit("9"); } "9" },
        10 => { proof { reveal_strlit("a"); } "a" },
        11 => { proof { reveal_strlit("b"); } "b" },
        12 => { proof { reveal_strlit("c"); } "c" },
        13 => { proof { reveal_strlit("d"); } "d" },
        14 => { proof { reveal_strlit("e"); } "e" },
        _ => { proof { reveal_strlit("f"); } "f" },
    }
}

/// Renders bytes as lowercase hexadecimal text.
pub fn hex_encode(b: &Vec<u8>) -> (r: String)
    ensures
        r@ == hex_of(b@),
{
    let mut out = String::new();
    let mut i: usize = 0;
    while i < b.len()
        invariant
            i <= b.len(),
            out@ == hex_of(b@.take(i as int)),
        decreases b.len() - i,
    {
        let byte = b[i];
        proof {
            assert(b@.take(i as int + 1).drop_last() == b@.take(i as int));
        }
        out.append(digit_str(byte / 16));
        out.append(digit_str(byte % 16));
        i = i + 1;
    }
    proof {
        assert(b@.take(b.len() as int) == b@);
    }
    out
}

/// A value as the store hands it out, by storage kind. A floating-point
/// value is carried as its IEEE 754 bit pattern.
#[derive(Debug, Clone, PartialEq, Eq)]
pub enum Cell {
    Null,
    Integer(i64),
    Real(u64),
    Text(Vec<u8>),
    Blob(Vec<u8>),
}

/// A JSON value as the query bridge produces it. `Float` holds the bit
/// pattern of a finite double, which is always a JSON number.
#[derive(Debug, Clone, PartialEq, Eq)]
pub enum JsonValue {
    Null,
    Number(i64),
    Float(u64),
    Str(String),
}

/// The mathematical model of a `JsonValue`.
pub enum JsonView {
    Null,
    Number(i64),
    Float(u64),
    Str(Seq<char>),
}

impl View for JsonValue {
    type V = JsonView;

    open spec fn view(&self) -> JsonView {
        match self {
            JsonValue::Null => JsonView::Null,
            JsonValue::Number(i) => JsonView::Number(*i),
            JsonValue::Float(b) => JsonView::Float(*b),
            JsonValue::Str(s) => JsonView::Str(s@),
        }
    }
}

/// What `String::from_utf8_lossy` makes of a byte sequence.
pub uninterp spec fn lossy_text(b: Seq<u8>) -> Seq<char>;

/// Relies on `String::from_utf8_lossy`: its result depends on the bytes alone,
/// and no bytes give no characters.
#[verifier::external_body]
fn utf8_lossy(b: &Vec<u8>) -> (r: String)
    ensures
        r@ == lossy_text(b@),
        b@.len() == 0 ==> r@.len() == 0,
{
    String::from_utf8_lossy(b.as_slice()).into_owned()
}

/// The biased exponent field of a double's bit pattern.
pub open spec fn exponent_bits(bits: u64) -> u64 {
    (bits >> 52u64) & 0x7ffu64
}

/// The fraction field of a double's bit pattern.
pub open spec fn fraction_bits(bits: u64) -> u64 {
    bits & 0xf_ffff_ffff_ffffu64
}

/// A double is finite unless its exponent field is all ones.
pub open spec fn is_finite_bits(bits: u64) -> bool {
    exponent_bits(bits) != 0x7ffu64
}

/// How a non-finite double is rendered as text: `NaN`, `inf` or `-inf`.
pub open spec fn non_finite_text(bits: u64) -> Seq<char> {
    if fraction_bits(bits) != 0 {
        seq!['N', 'a', 'N']
    } else if bits >> 63u64 == 1 {
        seq!['-', 'i', 'n', 'f']
    } else {
        seq!['i', 'n', 'f']
    }
}

/// The coercion of one stored value into JSON.
pub open spec fn decode_spec(c: Cell) -> JsonView {
    match c {
        Cell::Null => JsonView::Null,
        Cell::Integer(i) => JsonView::Number(i),
        Cell::Real(bits) => if is_finite_bits(bits) {
            JsonView::Float(bits)
        } else {
            JsonView::Str(non_finite_text(bits))
        },
        Cell::Text(t) => JsonView::Str(lossy_text(t@)),
        Cell::Blob(b) => JsonView::Str(hex_of(b@)),
    }
}

fn non_finite_string(bits: u64) -> (r: String)
    ensures
        r@ == non_finite_text(bits),
{
    if bits & 0xf_ffff_ffff_ffffu64 != 0 {
        proof { reveal_strlit("NaN"); }
        "NaN".to_owned()
    } else if bits >> 63u64 == 1 {
        proof { reveal_strlit("-inf"); }
        "-inf".to_owned()
    } else {
        proof { reveal_strlit("inf"); }
        "inf".to_owned()
    }
}

/// Converts one stored value into JSON. Total: every value has a rendering.
pub fn decode(c: Cell) -> (r: JsonValue)
    ensures
        r@ == decode_spec(c),
{
    match c {
        Cell::Null => JsonValue::Null,
        Cell::Integer(i) => JsonValue::Number(i),
        Cell::Real(bits) => {
            if (bits >> 52u64) & 0x7ffu64 != 0x7ffu64 {
                JsonValue::Float(bits)
            } else {
                JsonValue::Str(non_finite_string(bits))
            }
        },
        Cell::Text(t) => JsonValue::Str(utf8_lossy(&t)),
        Cell::Blob(b) => JsonValue::Str(hex_encode(&b)),
    }
}

} // verus!
