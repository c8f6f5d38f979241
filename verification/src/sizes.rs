//! The size of a table, and how it is written into a 32-byte word.

use vstd::prelude::*;
use vstd::string::*;
use vstd::utf8::encode_utf8;
use huff_utils::bytes_util::str_to_bytes32;
use crate::ast::{
    Statement, StatementType, StatementTypeView, StatementView, TableKind, statement_view,
    statements_view,
};
use crate::text::{decimal, decimal_string};

verus! {

/// Whether a character is a hex digit.
pub open spec fn is_hex_digit(c: char) -> bool {
    ('0' <= c && c <= '9') || ('a' <= c && c <= 'f') || ('A' <= c && c <= 'F')
}

/// The value of a hex digit.
pub open spec fn hex_digit_value(c: char) -> nat {
    if '0' <= c && c <= '9' {
        (c as u32 - '0' as u32) as nat
    } else if 'a' <= c && c <= 'f' {
        (c as u32 - 'a' as u32 + 10) as nat
    } else {
        (c as u32 - 'A' as u32 + 10) as nat
    }
}

/// The number that a text of hex digits spells.
pub open spec fn hex_value(digits: Seq<char>) -> nat
    decreases digits.len(),
{
    if digits.len() == 0 {
        0
    } else {
        hex_value(digits.drop_last()) * 16 + hex_digit_value(digits.last())
    }
}

/// The last `len` bytes of a number written with the most significant byte
/// first.
pub open spec fn big_endian(value: nat, len: nat) -> Seq<u8>
    decreases len,
{
    if len == 0 {
        Seq::empty()
    } else {
        big_endian(value / 256, (len - 1) as nat).push((value % 256) as u8)
    }
}

/// `str_to_bytes32` of `huff_utils`: the number that the hex digits spell, as
/// a word of 32 bytes with the most significant byte first, zeros in front.
/// The outside function fails on a character that is no hex digit and on more
/// than 64 digits.
#[verifier::external_body]
fn hex_word(digits: &str) -> (word: [u8; 32])
    requires
        digits@.len() <= 64,
        forall|i: int| 0 <= i < digits@.len() ==> is_hex_digit(#[trigger] digits@[i]),
    ensures
        word@ == big_endian(hex_value(digits@), 32),
{
    str_to_bytes32(digits)
}

/// A number written into `len` bytes has `len` bytes.
pub proof fn lemma_big_endian_len(value: nat, len: nat)
    ensures
        big_endian(value, len).len() == len,
    decreases len,
{
    if len > 0 {
        lemma_big_endian_len(value / 256, (len - 1) as nat);
    }
}

/// The word that holds a table's size: the decimal digits of the size, read
/// as hex digits.
pub open spec fn size_word_of(size: nat) -> Seq<u8> {
    big_endian(hex_value(decimal(size)), 32)
}

spec fn pow8(k: nat) -> nat
    decreases k,
{
    if k == 0 {
        1
    } else {
        8 * pow8((k - 1) as nat)
    }
}

proof fn lemma_decimal_len(n: nat, k: nat)
    requires
        k >= 1,
        n < pow8(k),
    ensures
        decimal(n).len() <= k,
    decreases k,
{
    if n >= 10 {
        reveal_with_fuel(pow8, 2);
        lemma_decimal_len(n / 10, (k - 1) as nat);
    }
}

proof fn lemma_decimal_digits(n: nat)
    ensures
        forall|i: int| 0 <= i < decimal(n).len() ==> is_hex_digit(#[trigger] decimal(n)[i]),
    decreases n,
{
    if n >= 10 {
        lemma_decimal_digits(n / 10);
        assert forall|i: int| 0 <= i < decimal(n).len() implies is_hex_digit(
            #[trigger] decimal(n)[i],
        ) by {
            if i < decimal(n / 10).len() {
                assert(decimal(n)[i] == decimal(n / 10)[i]);
            }
        }
    }
}

proof fn lemma_pow8_43()
    ensures
        pow8(43) > u128::MAX,
{
    reveal_with_fuel(pow8, 44);
}

/// Writes a table's size into its word.
pub fn size_word(size: u128) -> (word: [u8; 32])
    ensures
        word@ == size_word_of(size as nat),
{
    let digits = decimal_string(size);
    proof {
        lemma_pow8_43();
        lemma_decimal_len(size as nat, 43);
        lemma_decimal_digits(size as nat);
    }
    hex_word(digits.as_str())
}

/// The number of bytes of the names that a table of raw code lists, each
/// name counted by its UTF-8 length.
pub open spec fn code_length(body: Seq<StatementView>) -> nat
    decreases body.len(),
{
    if body.len() == 0 {
        0
    } else {
        code_length(body.drop_last()) + match body.last().ty {
            StatementTypeView::LabelCall(name) => encode_utf8(name).len(),
            _ => 0,
        }
    }
}

/// The size of a table in bytes: 32 for each entry of a jump table, 2 for
/// each entry of a packed one, and for raw code half the number of hex
/// characters that its entries hold.
pub open spec fn table_size_of(kind: TableKind, body: Seq<StatementView>) -> nat {
    match kind {
        TableKind::JumpTable => body.len() * 32,
        TableKind::JumpTablePacked => body.len() * 2,
        TableKind::CodeTable => code_length(body) / 2,
    }
}

proof fn lemma_code_length_bound(body: Seq<StatementView>)
    requires
        forall|i: int|
            0 <= i < body.len() && (#[trigger] body[i]).ty is LabelCall ==> encode_utf8(
                body[i].ty->LabelCall_0,
            ).len() <= usize::MAX,
    ensures
        code_length(body) <= body.len() * usize::MAX,
    decreases body.len(),
{
    if body.len() > 0 {
        lemma_code_length_bound(body.drop_last());
        assert(code_length(body.drop_last()) + usize::MAX <= body.len() * usize::MAX)
            by (nonlinear_arith)
            requires
                code_length(body.drop_last()) <= (body.len() - 1) * usize::MAX,
        ;
    }
}

/// Computes the size of a table from its kind and its entries.
pub fn table_size(kind: TableKind, body: &Vec<Statement>) -> (size: u128)
    ensures
        size == table_size_of(kind, statements_view(body@)),
{
    match kind {
        TableKind::JumpTable => (body.len() as u128) * 32,
        TableKind::JumpTablePacked => (body.len() as u128) * 2,
        TableKind::CodeTable => {
            let mut total: u128 = 0;
            let mut i: usize = 0;
            while i < body.len()
                invariant
                    i <= body.len(),
                    total == code_length(statements_view(body@).subrange(0, i as int)),
                    total <= i * usize::MAX,
                decreases body.len() - i,
            {
                proof {
                    assert(statements_view(body@).subrange(0, i + 1).drop_last()
                        =~= statements_view(body@).subrange(0, i as int));
                    assert(i * usize::MAX + usize::MAX <= usize::MAX * usize::MAX)
                        by (nonlinear_arith)
                        requires
                            i < usize::MAX,
                    ;
                    assert((i + 1) * usize::MAX == i * usize::MAX + usize::MAX)
                        by (nonlinear_arith);
                }
                assert(statements_view(body@)[i as int] == statement_view(body[i as int]));
                match &body[i].ty {
                    StatementType::LabelCall(name) => {
                        let len = name.as_str().as_bytes().len();
                        total = total + len as u128;
                    },
                    _ => {},
                }
                i += 1;
            }
            assert(statements_view(body@).subrange(0, i as int) =~= statements_view(body@));
            total / 2
        },
    }
}

} // verus!
