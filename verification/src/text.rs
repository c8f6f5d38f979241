//! The texts that the parser writes: numbers in decimal, the names of types,
//! and the signature of a function.

use vstd::prelude::*;
use vstd::string::*;
use crate::token::{PrimitiveEVMType, TokenKind, TokenKindView};

verus! {

/// The character of a decimal digit.
pub open spec fn digit_char(d: nat) -> char
    recommends
        d < 10,
{
    if d == 0 {
        '0'
    } else if d == 1 {
        '1'
    } else if d == 2 {
        '2'
    } else if d == 3 {
        '3'
    } else if d == 4 {
        '4'
    } else if d == 5 {
        '5'
    } else if d == 6 {
        '6'
    } else if d == 7 {
        '7'
    } else if d == 8 {
        '8'
    } else {
        '9'
    }
}

/// A number in decimal, without sign and without leading zeros.
pub open spec fn decimal(n: nat) -> Seq<char>
    decreases n,
{
    if n < 10 {
        seq![digit_char(n)]
    } else {
        decimal(n / 10).push(digit_char(n % 10))
    }
}

/// The text of one decimal digit.
fn digit_str(d: u8) -> (s: &'static str)
    requires
        d < 10,
    ensures
        s@ == seq![digit_char(d as nat)],
{
    proof {
        reveal_strlit("0");
        reveal_strlit("1");
        reveal_strlit("2");
        reveal_strlit("3");
        reveal_strlit("4");
        reveal_strlit("5");
        reveal_strlit("6");
        reveal_strlit("7");
        reveal_strlit("8");
        reveal_strlit("9");
    }
    let s = if d == 0 {
        "0"
    } else if d == 1 {
        "1"
    } else if d == 2 {
        "2"
    } else if d == 3 {
        "3"
    } else if d == 4 {
        "4"
    } else if d == 5 {
        "5"
    } else if d == 6 {
        "6"
    } else if d == 7 {
        "7"
    } else if d == 8 {
        "8"
    } else {
        "9"
    };
    assert(s@ =~= seq![digit_char(d as nat)]);
    s
}

/// Writes a number in decimal.
pub fn decimal_string(n: u128) -> (s: String)
    ensures
        s@ == decimal(n as nat),
    decreases n,
{
    if n < 10 {
        String::from_str(digit_str(n as u8))
    } else {
        let mut s = decimal_string(n / 10);
        s.append(digit_str((n % 10) as u8));
        s
    }
}

/// The name of a type that is no array, as a signature spells it.
pub open spec fn primitive_text(p: PrimitiveEVMType) -> Seq<char> {
    match p {
        PrimitiveEVMType::Address => "address"@,
        PrimitiveEVMType::String => "string"@,
        PrimitiveEVMType::Bool => "bool"@,
        PrimitiveEVMType::DynBytes => "bytes"@,
        PrimitiveEVMType::Uint(n) => "uint"@ + decimal(n as nat),
        PrimitiveEVMType::Int(n) => "int"@ + decimal(n as nat),
        PrimitiveEVMType::Bytes(n) => "bytes"@ + decimal(n as nat),
    }
}

/// Writes the name of a type that is no array.
pub fn primitive_string(p: PrimitiveEVMType) -> (s: String)
    ensures
        s@ == primitive_text(p),
{
    match p {
        PrimitiveEVMType::Address => String::from_str("address"),
        PrimitiveEVMType::String => String::from_str("string"),
        PrimitiveEVMType::Bool => String::from_str("bool"),
        PrimitiveEVMType::DynBytes => String::from_str("bytes"),
        PrimitiveEVMType::Uint(n) => {
            String::from_str("uint").concat(decimal_string(n as u128).as_str())
        },
        PrimitiveEVMType::Int(n) => {
            String::from_str("int").concat(decimal_string(n as u128).as_str())
        },
        PrimitiveEVMType::Bytes(n) => {
            String::from_str("bytes").concat(decimal_string(n as u128).as_str())
        },
    }
}

/// One pair of brackets of an array type: empty where the size is 0, else
/// round the size in decimal.
pub open spec fn dimension_text(size: usize) -> Seq<char> {
    if size > 0 {
        "["@ + decimal(size as nat) + "]"@
    } else {
        "[]"@
    }
}

/// The brackets of an array type, one pair for each size, in order.
pub open spec fn dimensions_text(sizes: Seq<usize>) -> Seq<char>
    decreases sizes.len(),
{
    if sizes.len() == 0 {
        Seq::empty()
    } else {
        dimensions_text(sizes.drop_last()) + dimension_text(sizes.last())
    }
}

/// The text of a type token, as a signature spells it: the name of the
/// element type, and for an array its brackets behind it. A token that is
/// no type has the empty text.
pub open spec fn type_text(kind: TokenKindView) -> Seq<char> {
    match kind {
        TokenKindView::PrimitiveType(p) => primitive_text(p),
        TokenKindView::ArrayType(p, sizes) => primitive_text(p) + dimensions_text(sizes),
        _ => Seq::empty(),
    }
}

/// Writes the text of a type token.
pub fn type_string(kind: &TokenKind) -> (s: String)
    ensures
        s@ == type_text(kind@),
{
    match kind {
        TokenKind::PrimitiveType(p) => primitive_string(*p),
        TokenKind::ArrayType(p, sizes) => {
            let mut s = primitive_string(*p);
            let ghost head = s@;
            let mut i: usize = 0;
            while i < sizes.len()
                invariant
                    i <= sizes.len(),
                    s@ == head + dimensions_text(sizes@.subrange(0, i as int)),
                decreases sizes.len() - i,
            {
                proof {
                    assert(sizes@.subrange(0, i + 1).drop_last() =~= sizes@.subrange(0, i as int));
                }
                let size = sizes[i];
                if size > 0 {
                    s.append("[");
                    s.append(decimal_string(size as u128).as_str());
                    s.append("]");
                } else {
                    s.append("[]");
                }
                i += 1;
                assert(s@ =~= head + dimensions_text(sizes@.subrange(0, i as int)));
            }
            assert(sizes@.subrange(0, i as int) =~= sizes@);
            s
        },
        _ => String::new(),
    }
}

/// The texts of a list, with a comma between each two neighbours.
pub open spec fn comma_separated(parts: Seq<Seq<char>>) -> Seq<char>
    decreases parts.len(),
{
    if parts.len() == 0 {
        Seq::empty()
    } else if parts.len() == 1 {
        parts[0]
    } else {
        comma_separated(parts.drop_last()) + ","@ + parts.last()
    }
}

/// The signature that a function's selector is computed from: the name, and
/// in parentheses the types of the inputs with commas between them.
pub open spec fn signature_text(name: Seq<char>, input_types: Seq<Seq<char>>) -> Seq<char> {
    name + "("@ + comma_separated(input_types) + ")"@
}

/// The character sequences of the strings of a vector, in order.
pub open spec fn texts(strings: Seq<String>) -> Seq<Seq<char>> {
    strings.map_values(|s: String| s@)
}

/// Writes the signature of a function.
pub fn signature_string(name: &str, input_types: &Vec<String>) -> (s: String)
    ensures
        s@ == signature_text(name@, texts(input_types@)),
{
    let mut s = String::from_str(name);
    s.append("(");
    let ghost head = s@;
    let mut i: usize = 0;
    while i < input_types.len()
        invariant
            i <= input_types.len(),
            head == name@ + "("@,
            s@ == head + comma_separated(texts(input_types@).subrange(0, i as int)),
        decreases input_types.len() - i,
    {
        proof {
            assert(texts(input_types@).subrange(0, i + 1).drop_last() =~= texts(
                input_types@,
            ).subrange(0, i as int));
        }
        if i > 0 {
            s.append(",");
        }
        s.append(input_types[i].as_str());
        i += 1;
        assert(s@ =~= head + comma_separated(texts(input_types@).subrange(0, i as int)));
    }
    assert(texts(input_types@).subrange(0, i as int) =~= texts(input_types@));
    s.append(")");
    s
}

} // verus!
