//! Starknet field elements, carried as their canonical big-endian bytes.

use vstd::prelude::*;

verus! {

/// The order of the Starknet field: 2^251 + 17 * 2^192 + 1.
pub open spec fn stark_prime() -> nat {
    3618502788666131213697322783095070105623107215331596699973092056135872020481nat
}

/// The number that a big-endian byte string denotes.
pub open spec fn be_value(s: Seq<u8>) -> nat
    decreases s.len(),
{
    if s.len() == 0 {
        0
    } else {
        be_value(s.drop_last()) * 256 + s.last() as nat
    }
}

/// The outcome of reading a field element.
pub type FeltResult = Result<Felt, FeltError>;

/// Why a byte string is not a field element.
#[derive(Clone, Copy, Debug, PartialEq, Eq, Structural)]
pub enum FeltError {
    /// More than 32 bytes.
    InvalidLength,
    /// The number is not smaller than the field order.
    OutOfRange,
}

/// An element of the Starknet field.
#[derive(Clone, Copy, Debug)]
pub struct Felt {
    bytes: [u8; 32],
}

impl View for Felt {
    type V = nat;

    closed spec fn view(&self) -> nat {
        be_value(self.bytes@)
    }
}

impl Felt {
    #[verifier::type_invariant]
    closed spec fn wf(self) -> bool {
        be_value(self.bytes@) < stark_prime()
    }
}

/// Reads a field element from at most 32 big-endian bytes, with
/// `FieldElement::from_byte_slice_be` of starknet-ff, and takes back its
/// canonical bytes with `FieldElement::to_bytes_be`.  The contract claims
/// what that source does: a slice longer than 32 bytes is refused as
/// `InvalidLength`, one whose number is not below the field order as
/// `OutOfRange`, and otherwise the element is the number of the slice.
#[verifier::external_body]
fn field_element_from_byte_slice_be(bytes: &[u8]) -> (res: FeltResult)
    ensures
        bytes@.len() > 32 ==> res == FeltResult::Err(FeltError::InvalidLength),
        bytes@.len() <= 32 && be_value(bytes@) >= stark_prime() ==> res == FeltResult::Err(
            FeltError::OutOfRange,
        ),
        bytes@.len() <= 32 && be_value(bytes@) < stark_prime() ==> res is Ok && res->Ok_0@
            == be_value(bytes@),

{
    match starknet::core::types::FieldElement::from_byte_slice_be(bytes) {
        Ok(f) => Ok(Felt { bytes: f.to_bytes_be() }),
        Err(starknet::core::types::FromByteSliceError::InvalidLength) => Err(
            FeltError::InvalidLength,
        ),
        Err(starknet::core::types::FromByteSliceError::OutOfRange) => Err(FeltError::OutOfRange),
    }
}

impl Felt {
    /// The field element zero.
    pub fn zero() -> (res: Felt)
        ensures
            res@ == 0,
    {
        let bytes = [0u8; 32];
        assert(bytes@ =~= Seq::new(32, |i: int| 0u8));
        proof {
            lemma_be_value_zeros(32);
        }
        Felt { bytes }
    }

    /// Reads a field element from at most 32 big-endian bytes.
    pub fn from_byte_slice_be(bytes: &[u8]) -> (res: Result<Felt, FeltError>)
        ensures
            res matches Ok(f) ==> bytes@.len() <= 32 && be_value(bytes@) < stark_prime() && f@
                == be_value(bytes@),
            res matches Err(e) ==> (e == FeltError::InvalidLength <==> bytes@.len() > 32),
            res matches Err(e) ==> (e == FeltError::OutOfRange <==> (bytes@.len() <= 32
                && be_value(bytes@) >= stark_prime())),
            res is Ok <==> (bytes@.len() <= 32 && be_value(bytes@) < stark_prime()),
    {
        field_element_from_byte_slice_be(bytes)
    }

    /// The canonical 32 big-endian bytes of the element.
    pub fn to_bytes_be(&self) -> (res: [u8; 32])
        ensures
            be_value(res@) == self@,
            self@ < stark_prime(),
    {
        proof {
            use_type_invariant(self);
        }
        self.bytes
    }

    /// The element written as `format!("{:#x}")` writes it: `0x` and the
    /// lowercase hexadecimal digits without leading zeros.
    pub fn to_lower_hex(&self) -> (res: String)
        ensures
            res@ == lower_hex(self@),
            res@.len() >= 3 && res@[0] == '0' && res@[1] == 'x',
            hex_value(res@.skip(2)) == self@,
            forall|i: int| 2 <= i < res@.len() ==> is_lower_hex_digit(#[trigger] res@[i]),
            (res@[2] == '0') == (self@ == 0),
    {
        let mut digits = String::new();
        let mut latched = false;
        let ghost mut acc: nat = 0;
        let mut i: usize = 0;
        assert(self.bytes@.take(0) =~= Seq::<u8>::empty());
        while i < 32
            invariant
                i <= 32,
                self.bytes@.len() == 32,
                acc == be_value(self.bytes@.take(i as int)),
                latched == (acc > 0),
                latched ==> digits@ == hex_digits(acc),
                !latched ==> digits@ == Seq::<char>::empty(),
            decreases 32 - i,
        {
            let b = self.bytes[i];
            let hi = b / 16;
            let lo = b % 16;
            proof {
                lemma_be_value_take(self.bytes@, i as int);
            }
            if latched {
                proof { lemma_hex_digits_push(acc, hi as nat); }
                digits.append(hex_digit_str(hi));
            } else if hi != 0 {
                digits.append(hex_digit_str(hi));
                latched = true;
            }
            proof {
                acc = acc * 16 + hi as nat;
            }
            if latched {
                proof { lemma_hex_digits_push(acc, lo as nat); }
                digits.append(hex_digit_str(lo));
            } else if lo != 0 {
                digits.append(hex_digit_str(lo));
                latched = true;
            }
            proof {
                acc = acc * 16 + lo as nat;
            }
            i = i + 1;
        }
        assert(self.bytes@.take(32) =~= self.bytes@);
        if !latched {
            digits.append(hex_digit_str(0));
        }
        let mut res = String::new();
        proof { reveal_strlit("0x"); }
        res.append("0x");
        res.append(digits.as_str());
        proof {
            lemma_lower_hex_reads_back(self@);
        }
        res
    }
}

impl PartialEq for Felt {
    fn eq(&self, other: &Felt) -> (res: bool) {
        let mut i: usize = 0;
        while i < 32
            invariant
                i <= 32,
                self.bytes@.len() == 32,
                other.bytes@.len() == 32,
                self.bytes@.take(i as int) =~= other.bytes@.take(i as int),
            decreases 32 - i,
        {
            if self.bytes[i] != other.bytes[i] {
                proof {
                    if be_value(self.bytes@) == be_value(other.bytes@) {
                        lemma_be_value_injective(self.bytes@, other.bytes@);
                        assert(self.bytes@[i as int] == other.bytes@[i as int]);
                    }
                }
                return false;
            }
            assert(self.bytes@.take(i + 1) =~= self.bytes@.take(i as int).push(self.bytes@[i as int]));
            assert(other.bytes@.take(i + 1) =~= other.bytes@.take(i as int).push(other.bytes@[i as int]));
            i = i + 1;
        }
        assert(self.bytes@.take(32) =~= self.bytes@);
        assert(other.bytes@.take(32) =~= other.bytes@);
        true
    }
}

impl vstd::std_specs::cmp::PartialEqSpecImpl for Felt {
    open spec fn obeys_eq_spec() -> bool {
        true
    }

    open spec fn eq_spec(&self, other: &Felt) -> bool {
        self@ == other@
    }
}

/// The lowercase hexadecimal digit of `n < 16`.
pub open spec fn hex_char(n: nat) -> char {
    if n == 0 {
        '0'
    } else if n == 1 {
        '1'
    } else if n == 2 {
        '2'
    } else if n == 3 {
        '3'
    } else if n == 4 {
        '4'
    } else if n == 5 {
        '5'
    } else if n == 6 {
        '6'
    } else if n == 7 {
        '7'
    } else if n == 8 {
        '8'
    } else if n == 9 {
        '9'
    } else if n == 10 {
        'a'
    } else if n == 11 {
        'b'
    } else if n == 12 {
        'c'
    } else if n == 13 {
        'd'
    } else if n == 14 {
        'e'
    } else {
        'f'
    }
}

/// The lowercase hexadecimal digits of `v`, without leading zeros
/// (a single `0` for zero).
pub open spec fn hex_digits(v: nat) -> Seq<char>
    decreases v,
{
    if v < 16 {
        seq![hex_char(v)]
    } else {
        hex_digits(v / 16).push(hex_char(v % 16))
    }
}

/// `v` written as `0x` followed by its lowercase hexadecimal digits.
pub open spec fn lower_hex(v: nat) -> Seq<char> {
    seq!['0', 'x'] + hex_digits(v)
}

/// The number that a character denotes as a hexadecimal digit, read off
/// its code point: `0`-`9` are 48-57 and `a`-`f` are 97-102.
pub open spec fn hex_digit_value(c: char) -> int {
    if (c as int) < 97 {
        c as int - 48
    } else {
        c as int - 87
    }
}

/// Whether a character is a lowercase hexadecimal digit.
pub open spec fn is_lower_hex_digit(c: char) -> bool {
    (48 <= c as int && c as int <= 57) || (97 <= c as int && c as int <= 102)
}

/// The number that a string of hexadecimal digits denotes, read in base 16.
pub open spec fn hex_value(s: Seq<char>) -> int
    decreases s.len(),
{
    if s.len() == 0 {
        0
    } else {
        hex_value(s.drop_last()) * 16 + hex_digit_value(s.last())
    }
}

/// The digit of `n < 16` is the `n`-th character of the lowercase
/// hexadecimal alphabet: code point `48 + n` for `0`-`9`, `87 + n` for
/// `a`-`f`.
pub proof fn lemma_hex_char_is_the_lowercase_alphabet(n: nat)
    requires
        n < 16,
    ensures
        n < 10 ==> hex_char(n) as int == 48 + n,
        n >= 10 ==> hex_char(n) as int == 87 + n,
        is_lower_hex_digit(hex_char(n)),
        hex_digit_value(hex_char(n)) == n,
{
}

/// The hexadecimal digits of `v`, read back in base 16, give `v`; they
/// are all lowercase hexadecimal digits, and the first is `0` only for zero.
pub proof fn lemma_hex_digits_read_back(v: nat)
    ensures
        hex_value(hex_digits(v)) == v,
        hex_digits(v).len() >= 1,
        forall|i: int| 0 <= i < hex_digits(v).len() ==> is_lower_hex_digit(#[trigger] hex_digits(v)[i]),
        (hex_digits(v)[0] == '0') == (v == 0),
    decreases v,
{
    if v < 16 {
        lemma_hex_char_is_the_lowercase_alphabet(v);
        let d = hex_digits(v);
        assert(d == seq![hex_char(v)]);
        assert(d.drop_last() =~= Seq::<char>::empty());
        assert(hex_value(d) == hex_value(d.drop_last()) * 16 + hex_digit_value(d.last()));
        if v != 0 {
            assert(hex_char(v) as int != 48);
        }
    } else {
        let q = v / 16;
        let r = v % 16;
        lemma_hex_digits_read_back(q);
        lemma_hex_char_is_the_lowercase_alphabet(r);
        let d = hex_digits(v);
        assert(d == hex_digits(q).push(hex_char(r)));
        assert(d.drop_last() =~= hex_digits(q));
        assert(hex_value(d) == hex_value(hex_digits(q)) * 16 + hex_digit_value(hex_char(r)));
        assert(q * 16 + r == v);
        assert(d[0] == hex_digits(q)[0]);
        assert(q > 0);
        assert forall|i: int| 0 <= i < d.len() implies is_lower_hex_digit(#[trigger] d[i]) by {
            if i < d.len() - 1 {
                assert(d[i] == hex_digits(q)[i]);
            }
        }
    }
}

/// `to_lower_hex` writes `0x` and then digits that, read back in base 16,
/// give the element: every one a lowercase hexadecimal digit, the first `0`
/// only for zero.
pub proof fn lemma_lower_hex_reads_back(v: nat)
    ensures
        lower_hex(v).len() >= 3,
        lower_hex(v)[0] == '0' && lower_hex(v)[1] == 'x',
        hex_value(lower_hex(v).skip(2)) == v,
        forall|i: int| 2 <= i < lower_hex(v).len() ==> is_lower_hex_digit(#[trigger] lower_hex(v)[i]),
        (lower_hex(v)[2] == '0') == (v == 0),
{
    lemma_hex_digits_read_back(v);
    assert(lower_hex(v).skip(2) =~= hex_digits(v));
    assert forall|i: int| 2 <= i < lower_hex(v).len() implies is_lower_hex_digit(#[trigger] lower_hex(v)[i]) by {
        assert(lower_hex(v)[i] == hex_digits(v)[i - 2]);
    }
}

fn hex_digit_str(n: u8) -> (s: &'static str)
    requires
        n < 16,
    ensures
        s@ == seq![hex_char(n as nat)],
{
    if n == 0 {
        proof { reveal_strlit("0"); }
        "0"
    } else if n == 1 {
        proof { reveal_strlit("1"); }
        "1"
    } else if n == 2 {
        proof { reveal_strlit("2"); }
        "2"
    } else if n == 3 {
        proof { reveal_strlit("3"); }
        "3"
    } else if n == 4 {
        proof { reveal_strlit("4"); }
        "4"
    } else if n == 5 {
        proof { reveal_strlit("5"); }
        "5"
    } else if n == 6 {
        proof { reveal_strlit("6"); }
        "6"
    } else if n == 7 {
        proof { reveal_strlit("7"); }
        "7"
    } else if n == 8 {
        proof { reveal_strlit("8"); }
        "8"
    } else if n == 9 {
        proof { reveal_strlit("9"); }
        "9"
    } else if n == 10 {
        proof { reveal_strlit("a"); }
        "a"
    } else if n == 11 {
        proof { reveal_strlit("b"); }
        "b"
    } else if n == 12 {
        proof { reveal_strlit("c"); }
        "c"
    } else if n == 13 {
        proof { reveal_strlit("d"); }
        "d"
    } else if n == 14 {
        proof { reveal_strlit("e"); }
        "e"
    } else {
        proof { reveal_strlit("f"); }
        "f"
    }
}

/// Appending a digit to a nonzero number appends its hexadecimal digit.
proof fn lemma_hex_digits_push(acc: nat, n: nat)
    requires
        acc > 0,
        n < 16,
    ensures
        hex_digits(acc * 16 + n) == hex_digits(acc).push(hex_char(n)),
{
    let v = acc * 16 + n;
    vstd::arithmetic::div_mod::lemma_fundamental_div_mod_converse(v as int, 16, acc as int, n as int);
}

/// The number of a prefix one byte longer.
proof fn lemma_be_value_take(s: Seq<u8>, i: int)
    requires
        0 <= i < s.len(),
    ensures
        be_value(s.take(i + 1)) == be_value(s.take(i)) * 256 + s[i],
{
    assert(s.take(i + 1).drop_last() =~= s.take(i));
}

/// Equal numbers of byte strings of one length come from equal strings.
proof fn lemma_be_value_injective(s1: Seq<u8>, s2: Seq<u8>)
    requires
        s1.len() == s2.len(),
        be_value(s1) == be_value(s2),
    ensures
        s1 == s2,
    decreases s1.len(),
{
    if s1.len() > 0 {
        let a = be_value(s1.drop_last());
        let b = be_value(s2.drop_last());
        let x = s1.last() as int;
        let y = s2.last() as int;
        vstd::arithmetic::div_mod::lemma_fundamental_div_mod_converse(a * 256 + x, 256, a as int, x);
        vstd::arithmetic::div_mod::lemma_fundamental_div_mod_converse(b * 256 + y, 256, b as int, y);
        lemma_be_value_injective(s1.drop_last(), s2.drop_last());
        assert(s1 =~= s1.drop_last().push(s1.last()));
        assert(s2 =~= s2.drop_last().push(s2.last()));
    } else {
        assert(s1 =~= s2);
    }
}

proof fn lemma_be_value_zeros(n: nat)
    ensures
        be_value(Seq::new(n, |i: int| 0u8)) == 0,
    decreases n,
{
    if n > 0 {
        assert(Seq::new(n, |i: int| 0u8).drop_last() =~= Seq::new((n - 1) as nat, |i: int| 0u8));
        lemma_be_value_zeros((n - 1) as nat);
    }
}

} // verus!
