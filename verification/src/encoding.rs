//! Text renderings that enter a digest: lower-case hexadecimal for bytes,
//! decimal for sizes, and quoted text for identifiers.

use vstd::prelude::*;
use vstd::utf8::{encode_utf8, encode_utf8_decode_utf8};

verus! {

/// The lower-case hexadecimal digit of a value below sixteen.
pub open spec fn hex_digit(v: int) -> char {
    seq!['0', '1', '2', '3', '4', '5', '6', '7', '8', '9', 'a', 'b', 'c', 'd', 'e', 'f'][v]
}

/// Two lower-case hexadecimal digits per byte, high nibble first.
pub open spec fn hex_string(bytes: Seq<u8>) -> Seq<char> {
    Seq::new(
        2 * bytes.len(),
        |i: int| hex_digit(if i % 2 == 0 { bytes[i / 2] as int / 16 } else { bytes[i / 2] as int % 16 }),
    )
}

/// The decimal digit of a value below ten.
pub open spec fn decimal_digit(v: int) -> char {
    seq!['0', '1', '2', '3', '4', '5', '6', '7', '8', '9'][v]
}

/// The shortest decimal numeral of `n`.
pub open spec fn decimal_string(n: nat) -> Seq<char>
    decreases n,
{
    if n < 10 {
        seq![decimal_digit(n as int)]
    } else {
        decimal_string(n / 10).push(decimal_digit((n % 10) as int))
    }
}

/// The quoted, escaped form in which the standard library prints a string
/// for debugging.
pub uninterp spec fn debug_text(s: Seq<char>) -> Seq<char>;

/// Trusted: calls the standard library's `Debug` formatting of `str`. The
/// contract only names the result; it is a function of the text alone.
#[verifier::external_body]
pub(crate) fn debug_quoted(s: &str) -> (out: String)
    ensures
        out@ == debug_text(s@),
{
    format!("{:?}", s)
}

fn digit_str(v: u8) -> (s: &'static str)
    requires
        v < 16,
    ensures
        s@ == seq![hex_digit(v as int)],
        v < 10 ==> s@ == seq![decimal_digit(v as int)],
{
    proof {
        reveal_strlit("0");
        reveal_strlit("1");
        reveal_strlit("2");
        reveal_strlit("3");
        reveal_strlit("4");
        reveal_strlit("5");
        reveal_strlit("6");
        reveal_strlit("7");
        reveal_strlit("8");
        reveal_strlit("9");
        reveal_strlit("a");
        reveal_strlit("b");
        reveal_strlit("c");
        reveal_strlit("d");
        reveal_strlit("e");
        reveal_strlit("f");
    }
    let s = match v {
        0 => "0",
        1 => "1",
        2 => "2",
        3 => "3",
        4 => "4",
        5 => "5",
        6 => "6",
        7 => "7",
        8 => "8",
        9 => "9",
        10 => "a",
        11 => "b",
        12 => "c",
        13 => "d",
        14 => "e",
        _ => "f",
    };
    assert(s@ =~= seq![hex_digit(v as int)]);
    s
}

/// Renders bytes as lower-case hexadecimal.
pub fn to_hex(bytes: &[u8]) -> (out: String)
    ensures
        out@ == hex_string(bytes@),
{
    let mut out = String::new();
    let mut i: usize = 0;
    while i < bytes.len()
        invariant
            i <= bytes.len(),
            out@ == hex_string(bytes@.take(i as int)),
        decreases bytes.len() - i,
    {
        let b: u8 = bytes[i];
        let ghost before = out@;
        out.append(digit_str(b / 16));
        out.append(digit_str(b % 16));
        i += 1;
        assert(out@ =~= hex_string(bytes@.take(i as int))) by {
            assert(out@ =~= before + seq![hex_digit(b as int / 16)] + seq![hex_digit(b as int % 16)]);
        }
    }
    assert(bytes@.take(i as int) =~= bytes@);
    out
}

/// Renders a size as its shortest decimal numeral.
pub fn to_decimal(n: usize) -> (out: String)
    ensures
        out@ == decimal_string(n as nat),
    decreases n,
{
    if n < 10 {
        String::from_str(digit_str(n as u8))
    } else {
        let mut out = to_decimal(n / 10);
        out.append(digit_str((n % 10) as u8));
        out
    }
}

/// Whether two texts are the same, character for character. The texts are
/// compared byte by byte: equal encodings spell equal texts.
pub fn same_text(a: &str, b: &str) -> (same: bool)
    ensures
        same == (a@ == b@),
{
    let x = a.as_bytes();
    let y = b.as_bytes();
    proof {
        encode_utf8_decode_utf8(a@);
        encode_utf8_decode_utf8(b@);
    }
    if x.len() != y.len() {
        return false;
    }
    let mut i: usize = 0;
    while i < x.len()
        invariant
            i <= x.len(),
            x.len() == y.len(),
            x@ == encode_utf8(a@),
            y@ == encode_utf8(b@),
            forall|k: int| 0 <= k < i ==> x[k] == y[k],
        decreases x.len() - i,
    {
        if x[i] != y[i] {
            return false;
        }
        i += 1;
    }
    assert(x@ =~= y@);
    true
}

/// What a vector of texts holds.
pub open spec fn texts(v: Seq<String>) -> Seq<Seq<char>> {
    Seq::new(v.len(), |i: int| v[i]@)
}

/// Finds the first place at which `text` stands in `list`.
pub fn position_of(list: &Vec<String>, text: &str) -> (res: Option<usize>)
    ensures
        match res {
            Some(i) => {
                &&& i < list.len()
                &&& list[i as int]@ == text@
                &&& forall|a: int| 0 <= a < i ==> list[a]@ != text@
            },
            None => !texts(list@).contains(text@),
        },
{
    let mut i: usize = 0;
    while i < list.len()
        invariant
            i <= list.len(),
            forall|a: int| 0 <= a < i ==> list[a]@ != text@,
        decreases list.len() - i,
    {
        if same_text(list[i].as_str(), text) {
            return Some(i);
        }
        i += 1;
    }
    assert forall|a: int| 0 <= a < texts(list@).len() implies texts(list@)[a] != text@ by {}
    None
}

} // verus!
