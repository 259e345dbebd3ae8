//! Fixed-width integers as byte strings, in either byte order.
//!
//! Everything the device exchanges with a process is laid out in the byte
//! order of the machine. The functions here are written for both orders and
//! proved for both; [`ByteOrder::native`] finds out which one applies.

use vstd::prelude::*;

verus! {

/// The order in which the bytes of an integer are laid out.
#[derive(Clone, Copy, Debug, PartialEq, Eq, Structural)]
pub enum ByteOrder {
    /// Least significant byte first.
    Little,
    /// Most significant byte first.
    Big,
}

/// The byte order of the machine that runs the code.
pub open spec fn native_order() -> ByteOrder {
    match vstd::endian::endianness() {
        vstd::endian::Endian::Little => ByteOrder::Little,
        vstd::endian::Endian::Big => ByteOrder::Big,
    }
}

/// Number of bytes in a machine word.
pub open spec fn word_size() -> nat {
    (usize::BITS / 8) as nat
}

/// `256` to the power `n`: the number of values that `n` bytes can hold.
pub open spec fn radix_pow(n: nat) -> nat
    decreases n,
{
    if n == 0 {
        1
    } else {
        256 * radix_pow((n - 1) as nat)
    }
}

/// The `n` low digits of `x` in base 256, least significant first.
#[verifier::opaque]
pub open spec fn le_digits(x: nat, n: nat) -> Seq<u8>
    decreases n,
{
    if n == 0 {
        Seq::empty()
    } else {
        seq![(x % 256) as u8] + le_digits(x / 256, (n - 1) as nat)
    }
}

/// The number whose base-256 digits, least significant first, are `b`.
#[verifier::opaque]
pub open spec fn le_value(b: Seq<u8>) -> nat
    decreases b.len(),
{
    if b.len() == 0 {
        0
    } else {
        b[0] as nat + 256 * le_value(b.drop_first())
    }
}

/// `b` as the digits of a number, least significant first.
pub open spec fn in_order(order: ByteOrder, b: Seq<u8>) -> Seq<u8> {
    match order {
        ByteOrder::Little => b,
        ByteOrder::Big => b.reverse(),
    }
}

/// The `n` bytes that hold the unsigned number `x` in the given order.
pub open spec fn encode_nat(order: ByteOrder, x: nat, n: nat) -> Seq<u8> {
    in_order(order, le_digits(x, n))
}

/// The unsigned number that the bytes `b` hold in the given order.
pub open spec fn decode_nat(order: ByteOrder, b: Seq<u8>) -> nat {
    le_value(in_order(order, b))
}

/// The unsigned number with the same `n`-byte two's complement pattern as `x`.
pub open spec fn wrap_unsigned(x: int, n: nat) -> nat {
    if x < 0 {
        (x + radix_pow(n)) as nat
    } else {
        x as nat
    }
}

/// The signed number with the same `n`-byte two's complement pattern as `u`.
pub open spec fn wrap_signed(u: nat, n: nat) -> int {
    if 2 * u >= radix_pow(n) {
        u - radix_pow(n)
    } else {
        u as int
    }
}

/// Whether `x` is a signed number that `n` bytes can hold.
pub open spec fn fits_signed(x: int, n: nat) -> bool {
    -(radix_pow(n) as int) <= 2 * x < radix_pow(n)
}

/// The `n` bytes that hold the signed number `x` in the given order.
pub open spec fn encode_int(order: ByteOrder, x: int, n: nat) -> Seq<u8> {
    encode_nat(order, wrap_unsigned(x, n), n)
}

/// The signed number that the bytes `b` hold in the given order.
pub open spec fn decode_int(order: ByteOrder, b: Seq<u8>) -> int {
    wrap_signed(decode_nat(order, b), b.len())
}

/// The values of `radix_pow` at the widths in use.
pub proof fn lemma_radix_pow_values()
    ensures
        radix_pow(0) == 1,
        radix_pow(1) == 0x100,
        radix_pow(2) == 0x1_0000,
        radix_pow(3) == 0x100_0000,
        radix_pow(4) == 0x1_0000_0000,
        radix_pow(5) == 0x100_0000_0000,
        radix_pow(6) == 0x1_0000_0000_0000,
        radix_pow(7) == 0x100_0000_0000_0000,
        radix_pow(8) == 0x1_0000_0000_0000_0000,
{
    reveal_with_fuel(radix_pow, 10);
}

/// `le_digits(x, n)` has `n` bytes.
pub proof fn lemma_le_digits_len(x: nat, n: nat)
    ensures
        le_digits(x, n).len() == n,
    decreases n,
{
    reveal_with_fuel(le_digits, 2);
    if n > 0 {
        lemma_le_digits_len(x / 256, (n - 1) as nat);
    }
}

/// A digit string of length `len` holds a number below `256^len`.
pub proof fn lemma_le_value_bound(b: Seq<u8>)
    ensures
        le_value(b) < radix_pow(b.len()),
    decreases b.len(),
{
    reveal_with_fuel(le_value, 2);
    if b.len() > 0 {
        lemma_le_value_bound(b.drop_first());
    }
}

/// Reading back the digits of a number that fits gives the number.
pub proof fn lemma_le_value_of_digits(x: nat, n: nat)
    requires
        x < radix_pow(n),
    ensures
        le_value(le_digits(x, n)) == x,
    decreases n,
{
    reveal_with_fuel(le_value, 2);
    reveal_with_fuel(le_digits, 2);
    if n > 0 {
        let rest = le_digits(x / 256, (n - 1) as nat);
        let all = le_digits(x, n);
        lemma_le_value_of_digits(x / 256, (n - 1) as nat);
        lemma_le_digits_len(x / 256, (n - 1) as nat);
        assert(all.drop_first() =~= rest);
        assert(all[0] == (x % 256) as u8);
    }
}

/// Writing out the number that a digit string holds gives the string.
pub proof fn lemma_le_digits_of_value(b: Seq<u8>)
    ensures
        le_digits(le_value(b), b.len()) == b,
    decreases b.len(),
{
    reveal_with_fuel(le_value, 2);
    reveal_with_fuel(le_digits, 2);
    if b.len() > 0 {
        lemma_le_digits_of_value(b.drop_first());
        let v = le_value(b);
        assert(v % 256 == b[0] as nat);
        assert(v / 256 == le_value(b.drop_first()));
        assert(le_digits(v, b.len()) =~= b);
    } else {
        assert(le_digits(le_value(b), b.len()) =~= b);
    }
}

/// Reversing a byte string twice gives it back.
pub proof fn lemma_reverse_twice(b: Seq<u8>)
    ensures
        b.reverse().reverse() == b,
        b.reverse().len() == b.len(),
{
    assert(b.reverse().reverse() =~= b);
}

/// `encode_nat` gives `n` bytes, and decoding them gives `x` back.
pub proof fn lemma_decode_encode_nat(order: ByteOrder, x: nat, n: nat)
    requires
        x < radix_pow(n),
    ensures
        encode_nat(order, x, n).len() == n,
        decode_nat(order, encode_nat(order, x, n)) == x,
{
    lemma_le_digits_len(x, n);
    lemma_le_value_of_digits(x, n);
    lemma_reverse_twice(le_digits(x, n));
}

/// Encoding the number that `b` holds, at the length of `b`, gives `b` back.
pub proof fn lemma_encode_decode_nat(order: ByteOrder, b: Seq<u8>)
    ensures
        decode_nat(order, b) < radix_pow(b.len()),
        encode_nat(order, decode_nat(order, b), b.len()) == b,
{
    let digits = in_order(order, b);
    lemma_reverse_twice(b);
    lemma_le_value_bound(digits);
    lemma_le_digits_of_value(digits);
}

/// Two's complement maps the signed range of `n` bytes onto the unsigned one
/// and back.
pub proof fn lemma_wrap_roundtrip(x: int, n: nat)
    requires
        fits_signed(x, n),
    ensures
        wrap_unsigned(x, n) < radix_pow(n),
        wrap_signed(wrap_unsigned(x, n), n) == x,
{
}

/// The signed reading of an unsigned number of `n` bytes fits in `n` bytes
/// and wraps back to the number.
pub proof fn lemma_unwrap_roundtrip(u: nat, n: nat)
    requires
        u < radix_pow(n),
        n > 0,
    ensures
        fits_signed(wrap_signed(u, n), n),
        wrap_unsigned(wrap_signed(u, n), n) == u,
{
    assert(radix_pow(n) == 256 * radix_pow((n - 1) as nat));
}

/// `encode_int` gives `n` bytes, and decoding them gives `x` back.
pub proof fn lemma_decode_encode_int(order: ByteOrder, x: int, n: nat)
    requires
        fits_signed(x, n),
    ensures
        encode_int(order, x, n).len() == n,
        decode_int(order, encode_int(order, x, n)) == x,
{
    lemma_wrap_roundtrip(x, n);
    lemma_decode_encode_nat(order, wrap_unsigned(x, n), n);
}

/// `std`'s `u16::to_ne_bytes`: the two bytes of `x` as the machine lays them
/// out in memory, which is `x` encoded in the machine's own byte order.
#[verifier::external_body]
fn native_u16_bytes(x: u16) -> (r: [u8; 2])
    ensures
        r@ == encode_nat(native_order(), x as nat, 2),
{
    x.to_ne_bytes()
}

impl ByteOrder {
    /// The byte order of the machine that runs the code.
    pub fn native() -> (order: ByteOrder)
        ensures
            order == native_order(),
    {
        let probe = native_u16_bytes(1);
        proof {
            reveal_with_fuel(le_digits, 3);
            let digits = le_digits(1, 2);
            assert(digits =~= seq![1u8, 0u8]);
            assert(digits.reverse() =~= seq![0u8, 1u8]);
        }
        if probe[0] == 1 {
            ByteOrder::Little
        } else {
            ByteOrder::Big
        }
    }
}

/// Number of bytes in a machine word.
pub fn word_bytes() -> (n: usize)
    ensures
        n == word_size(),
        n == 4 || n == 8,
{
    (usize::BITS / 8) as usize
}

/// `256^n` for the widths that fit a `u128`.
pub fn radix_limit(n: usize) -> (r: u128)
    requires
        n <= 8,
    ensures
        r == radix_pow(n as nat),
{
    let mut r: u128 = 1;
    let mut i: usize = 0;
    while i < n
        invariant
            i <= n <= 8,
            r == radix_pow(i as nat),
            r <= 0x1_0000_0000_0000_0000,
        decreases n - i,
    {
        proof {
            lemma_radix_pow_monotone((i + 1) as nat, 8);
            lemma_radix_pow_values();
        }
        r = r * 256;
        i = i + 1;
    }
    r
}

/// `radix_pow` grows with its argument.
pub proof fn lemma_radix_pow_monotone(a: nat, b: nat)
    requires
        a <= b,
    ensures
        radix_pow(a) <= radix_pow(b),
        radix_pow(a) >= 1,
    decreases b,
{
    if a < b {
        lemma_radix_pow_monotone(a, (b - 1) as nat);
    } else if a > 0 {
        lemma_radix_pow_monotone((a - 1) as nat, (a - 1) as nat);
    }
}

/// Appends to `buf` the `n` bytes that hold `x` in the given order.
pub fn put_uint(buf: &mut Vec<u8>, order: ByteOrder, x: u64, n: usize)
    requires
        n <= 8,
        x < radix_pow(n as nat),
    ensures
        final(buf)@ == old(buf)@ + encode_nat(order, x as nat, n as nat),
{
    let mut digits: Vec<u8> = Vec::new();
    let mut rest: u64 = x;
    let mut i: usize = 0;
    proof {
        reveal_with_fuel(le_digits, 2);
    }
    while i < n
        invariant
            i <= n,
            digits@ + le_digits(rest as nat, (n - i) as nat) == le_digits(x as nat, n as nat),
            digits@.len() == i,
        decreases n - i,
    {
        let ghost before = digits@;
        digits.push((rest % 256) as u8);
        proof {
            reveal_with_fuel(le_digits, 2);
            let tail = le_digits((rest / 256) as nat, (n - i - 1) as nat);
            assert(le_digits(rest as nat, (n - i) as nat) == seq![(rest % 256) as u8] + tail);
            assert(digits@ + tail =~= before + (seq![(rest % 256) as u8] + tail));
        }
        rest = rest / 256;
        i = i + 1;
    }
    assert(digits@ =~= le_digits(x as nat, n as nat)) by {
        reveal_with_fuel(le_digits, 2);
    }
    match order {
        ByteOrder::Little => {
            let mut j: usize = 0;
            while j < n
                invariant
                    j <= n,
                    digits@.len() == n,
                    buf@ == old(buf)@ + digits@.take(j as int),
                decreases n - j,
            {
                buf.push(digits[j]);
                assert(digits@.take(j as int + 1) =~= digits@.take(j as int).push(
                    digits@[j as int],
                ));
                j = j + 1;
            }
            assert(digits@.take(n as int) =~= digits@);
        },
        ByteOrder::Big => {
            let mut j: usize = 0;
            while j < n
                invariant
                    j <= n,
                    digits@.len() == n,
                    buf@ == old(buf)@ + digits@.reverse().take(j as int),
                decreases n - j,
            {
                buf.push(digits[n - 1 - j]);
                assert(digits@.reverse().take(j as int + 1) =~= digits@.reverse().take(
                    j as int,
                ).push(digits@[n - 1 - j]));
                j = j + 1;
            }
            assert(digits@.reverse().take(n as int) =~= digits@.reverse());
        },
    }
}

/// The unsigned number that `bytes` hold in the given order.
pub fn get_uint(bytes: &[u8], order: ByteOrder) -> (x: u64)
    requires
        bytes@.len() <= 8,
    ensures
        x == decode_nat(order, bytes@),
{
    let n = bytes.len();
    let ghost digits = in_order(order, bytes@);
    let mut acc: u64 = 0;
    let mut j: usize = n;
    proof {
        reveal_with_fuel(le_value, 2);
        lemma_reverse_twice(bytes@);
        assert(digits.skip(n as int) =~= Seq::<u8>::empty());
    }
    while j > 0
        invariant
            j <= n <= 8,
            n == bytes@.len(),
            digits == in_order(order, bytes@),
            digits.len() == n,
            acc == le_value(digits.skip(j as int)),
        decreases j,
    {
        let digit = match order {
            ByteOrder::Little => bytes[j - 1],
            ByteOrder::Big => bytes[n - j],
        };
        proof {
            reveal_with_fuel(le_value, 2);
            let longer = digits.skip(j as int - 1);
            assert(longer.drop_first() =~= digits.skip(j as int));
            assert(longer[0] == digit);
            lemma_le_value_bound(digits.skip(j as int));
            lemma_radix_pow_monotone((n - j) as nat, 7);
            lemma_radix_pow_values();
        }
        acc = digit as u64 + 256 * acc;
        j = j - 1;
    }
    assert(digits.skip(0) =~= digits);
    acc
}

/// The `n`-byte two's complement pattern of `x`, as an unsigned number.
pub fn to_unsigned(x: i64, n: usize) -> (u: u64)
    requires
        1 <= n <= 8,
        fits_signed(x as int, n as nat),
    ensures
        u == wrap_unsigned(x as int, n as nat),
        u < radix_pow(n as nat),
{
    proof {
        lemma_radix_pow_monotone(n as nat, 8);
        lemma_radix_pow_values();
    }
    if x >= 0 {
        x as u64
    } else {
        let limit = radix_limit(n);
        (limit as i128 + x as i128) as u64
    }
}

/// The signed number with the `n`-byte two's complement pattern `u`.
pub fn to_signed(u: u64, n: usize) -> (x: i64)
    requires
        1 <= n <= 8,
        u < radix_pow(n as nat),
    ensures
        x == wrap_signed(u as nat, n as nat),
        fits_signed(x as int, n as nat),
{
    proof {
        lemma_radix_pow_monotone(n as nat, 8);
        lemma_radix_pow_values();
        lemma_unwrap_roundtrip(u as nat, n as nat);
    }
    let limit = radix_limit(n);
    if 2 * (u as u128) >= limit {
        (u as i128 - limit as i128) as i64
    } else {
        u as i64
    }
}

} // verus!

verus! {

/// The unsigned number held by the `n` bytes of `bytes` that start at
/// `start`.
pub fn get_uint_at(bytes: &[u8], start: usize, n: usize, order: ByteOrder) -> (x: u64)
    requires
        n <= 8,
        start + n <= bytes@.len(),
    ensures
        x == decode_nat(order, bytes@.subrange(start as int, start + n)),
        x < radix_pow(n as nat),
{
    let len = bytes.len();
    assert(start + n <= len);
    let part = vstd::slice::slice_subrange(bytes, start, start + n);
    proof {
        lemma_encode_decode_nat(order, part@);
    }
    get_uint(part, order)
}

/// `n` zero bytes.
pub open spec fn zeros(n: nat) -> Seq<u8> {
    Seq::new(n, |i: int| 0u8)
}

/// Appends `n` zero bytes to `buf`.
pub fn put_zeros(buf: &mut Vec<u8>, n: usize)
    ensures
        final(buf)@ == old(buf)@ + zeros(n as nat),
{
    let mut i: usize = 0;
    assert(buf@ =~= old(buf)@ + zeros(0));
    while i < n
        invariant
            i <= n,
            buf@ == old(buf)@ + zeros(i as nat),
        decreases n - i,
    {
        buf.push(0);
        assert(old(buf)@ + zeros((i + 1) as nat) =~= (old(buf)@ + zeros(i as nat)).push(0u8));
        i = i + 1;
    }
}

/// Appends to `buf` the machine word `x` in the given order.
pub fn put_word(buf: &mut Vec<u8>, order: ByteOrder, x: usize)
    ensures
        final(buf)@ == old(buf)@ + encode_nat(order, x as nat, word_size()),
        x < radix_pow(word_size()),
{
    proof {
        lemma_radix_pow_values();
    }
    put_uint(buf, order, x as u64, word_bytes());
}

/// The machine word held by the bytes of `bytes` that start at `start`.
pub fn get_word_at(bytes: &[u8], start: usize, order: ByteOrder) -> (x: usize)
    requires
        start + word_size() <= bytes@.len(),
    ensures
        x == decode_nat(order, bytes@.subrange(start as int, start + word_size())),
{
    proof {
        lemma_radix_pow_values();
    }
    get_uint_at(bytes, start, word_bytes(), order) as usize
}

/// The three parts of a byte string that was put together from three.
pub proof fn lemma_three_parts(a: Seq<u8>, b: Seq<u8>, c: Seq<u8>)
    ensures
        (a + b + c).len() == a.len() + b.len() + c.len(),
        (a + b + c).subrange(0, a.len() as int) == a,
        (a + b + c).subrange(a.len() as int, (a.len() + b.len()) as int) == b,
        (a + b + c).subrange((a.len() + b.len()) as int, (a.len() + b.len() + c.len()) as int)
            == c,
{
    let whole = a + b + c;
    let la = a.len() as int;
    let lb = b.len() as int;
    let lc = c.len() as int;
    assert(whole.subrange(0, la) =~= a);
    assert(whole.subrange(la, la + lb) =~= b);
    assert(whole.subrange(la + lb, la + lb + lc) =~= c);
}

/// The four parts of a byte string that was put together from four.
pub proof fn lemma_four_parts(a: Seq<u8>, b: Seq<u8>, c: Seq<u8>, d: Seq<u8>)
    ensures
        (a + b + c + d).len() == a.len() + b.len() + c.len() + d.len(),
        (a + b + c + d).subrange(0, a.len() as int) == a,
        (a + b + c + d).subrange(a.len() as int, (a.len() + b.len()) as int) == b,
        (a + b + c + d).subrange(
            (a.len() + b.len()) as int,
            (a.len() + b.len() + c.len()) as int,
        ) == c,
        (a + b + c + d).subrange(
            (a.len() + b.len() + c.len()) as int,
            (a.len() + b.len() + c.len() + d.len()) as int,
        ) == d,
{
    let whole = a + b + c + d;
    let la = a.len() as int;
    let lb = b.len() as int;
    let lc = c.len() as int;
    let ld = d.len() as int;
    assert(whole.subrange(0, la) =~= a);
    assert(whole.subrange(la, la + lb) =~= b);
    assert(whole.subrange(la + lb, la + lb + lc) =~= c);
    assert(whole.subrange(la + lb + lc, la + lb + lc + ld) =~= d);
}

/// A part of a part is a part of the whole.
pub proof fn lemma_part_of_part(s: Seq<u8>, from: int, to: int, a: int, b: int)
    requires
        0 <= from <= to <= s.len(),
        0 <= a <= b <= to - from,
    ensures
        s.subrange(from, to).subrange(a, b) == s.subrange(from + a, from + b),
{
    assert(s.subrange(from, to).subrange(a, b) =~= s.subrange(from + a, from + b));
}

/// The number that the bytes `b` hold in the given order, read as signed
/// or as unsigned.
pub open spec fn decode_element(order: ByteOrder, b: Seq<u8>, signed: bool) -> int {
    if signed {
        decode_int(order, b)
    } else {
        decode_nat(order, b) as int
    }
}

/// Whether `x` is a number that `n` bytes can hold, signed or unsigned.
pub open spec fn fits(x: int, n: nat, signed: bool) -> bool {
    if signed {
        fits_signed(x, n)
    } else {
        0 <= x < radix_pow(n)
    }
}

/// `encode_int` gives `n` bytes, and reading them the way the number was
/// meant gives it back.
pub proof fn lemma_decode_encode_element(order: ByteOrder, x: int, n: nat, signed: bool)
    requires
        fits(x, n, signed),
    ensures
        encode_int(order, x, n).len() == n,
        decode_element(order, encode_int(order, x, n), signed) == x,
{
    if signed {
        lemma_decode_encode_int(order, x, n);
    } else {
        lemma_decode_encode_nat(order, x as nat, n);
    }
}

/// A number read from `n` bytes fits in `n` bytes.
pub proof fn lemma_decode_element_fits(order: ByteOrder, b: Seq<u8>, signed: bool)
    requires
        b.len() > 0,
    ensures
        fits(decode_element(order, b, signed), b.len(), signed),
{
    lemma_encode_decode_nat(order, b);
    if signed {
        lemma_unwrap_roundtrip(decode_nat(order, b), b.len());
    }
}

/// An integer type that goes on the wire as a fixed number of bytes.
pub trait WireInt: Copy + Sized {
    /// The number that the value stands for.
    spec fn spec_int(self) -> int;

    /// Number of bytes of the type.
    spec fn spec_width() -> nat;

    /// Whether the type is signed.
    spec fn spec_signed() -> bool;

    /// Number of bytes of the type.
    fn width() -> (n: usize)
        ensures
            n == Self::spec_width(),
            1 <= n <= 8,
    ;

    /// The value as the unsigned number with the same bytes.
    fn to_pattern(self) -> (p: u64)
        ensures
            fits(self.spec_int(), Self::spec_width(), Self::spec_signed()),
            p == wrap_unsigned(self.spec_int(), Self::spec_width()),
            p < radix_pow(Self::spec_width()),
    ;

    /// The value whose bytes are those of the unsigned number `p`.
    fn from_pattern(p: u64) -> (x: Self)
        requires
            p < radix_pow(Self::spec_width()),
        ensures
            x.spec_int() == (if Self::spec_signed() {
                wrap_signed(p as nat, Self::spec_width())
            } else {
                p as int
            }),
    ;
}

impl WireInt for u8 {
    open spec fn spec_int(self) -> int {
        self as int
    }

    open spec fn spec_width() -> nat {
        1
    }

    open spec fn spec_signed() -> bool {
        false
    }

    fn width() -> (n: usize) {
        1
    }

    fn to_pattern(self) -> (p: u64) {
        proof {
            lemma_radix_pow_values();
        }
        self as u64
    }

    fn from_pattern(p: u64) -> (x: Self) {
        proof {
            lemma_radix_pow_values();
        }
        p as u8
    }
}

impl WireInt for u16 {
    open spec fn spec_int(self) -> int {
        self as int
    }

    open spec fn spec_width() -> nat {
        2
    }

    open spec fn spec_signed() -> bool {
        false
    }

    fn width() -> (n: usize) {
        2
    }

    fn to_pattern(self) -> (p: u64) {
        proof {
            lemma_radix_pow_values();
        }
        self as u64
    }

    fn from_pattern(p: u64) -> (x: Self) {
        proof {
            lemma_radix_pow_values();
        }
        p as u16
    }
}

impl WireInt for u32 {
    open spec fn spec_int(self) -> int {
        self as int
    }

    open spec fn spec_width() -> nat {
        4
    }

    open spec fn spec_signed() -> bool {
        false
    }

    fn width() -> (n: usize) {
        4
    }

    fn to_pattern(self) -> (p: u64) {
        proof {
            lemma_radix_pow_values();
        }
        self as u64
    }

    fn from_pattern(p: u64) -> (x: Self) {
        proof {
            lemma_radix_pow_values();
        }
        p as u32
    }
}

impl WireInt for u64 {
    open spec fn spec_int(self) -> int {
        self as int
    }

    open spec fn spec_width() -> nat {
        8
    }

    open spec fn spec_signed() -> bool {
        false
    }

    fn width() -> (n: usize) {
        8
    }

    fn to_pattern(self) -> (p: u64) {
        proof {
            lemma_radix_pow_values();
        }
        self as u64
    }

    fn from_pattern(p: u64) -> (x: Self) {
        proof {
            lemma_radix_pow_values();
        }
        p as u64
    }
}

impl WireInt for i8 {
    open spec fn spec_int(self) -> int {
        self as int
    }

    open spec fn spec_width() -> nat {
        1
    }

    open spec fn spec_signed() -> bool {
        true
    }

    fn width() -> (n: usize) {
        1
    }

    fn to_pattern(self) -> (p: u64) {
        proof {
            lemma_radix_pow_values();
        }
        to_unsigned(self as i64, 1)
    }

    fn from_pattern(p: u64) -> (x: Self) {
        proof {
            lemma_radix_pow_values();
        }
        to_signed(p, 1) as i8
    }
}

impl WireInt for i16 {
    open spec fn spec_int(self) -> int {
        self as int
    }

    open spec fn spec_width() -> nat {
        2
    }

    open spec fn spec_signed() -> bool {
        true
    }

    fn width() -> (n: usize) {
        2
    }

    fn to_pattern(self) -> (p: u64) {
        proof {
            lemma_radix_pow_values();
        }
        to_unsigned(self as i64, 2)
    }

    fn from_pattern(p: u64) -> (x: Self) {
        proof {
            lemma_radix_pow_values();
        }
        to_signed(p, 2) as i16
    }
}

impl WireInt for i32 {
    open spec fn spec_int(self) -> int {
        self as int
    }

    open spec fn spec_width() -> nat {
        4
    }

    open spec fn spec_signed() -> bool {
        true
    }

    fn width() -> (n: usize) {
        4
    }

    fn to_pattern(self) -> (p: u64) {
        proof {
            lemma_radix_pow_values();
        }
        to_unsigned(self as i64, 4)
    }

    fn from_pattern(p: u64) -> (x: Self) {
        proof {
            lemma_radix_pow_values();
        }
        to_signed(p, 4) as i32
    }
}

impl WireInt for i64 {
    open spec fn spec_int(self) -> int {
        self as int
    }

    open spec fn spec_width() -> nat {
        8
    }

    open spec fn spec_signed() -> bool {
        true
    }

    fn width() -> (n: usize) {
        8
    }

    fn to_pattern(self) -> (p: u64) {
        proof {
            lemma_radix_pow_values();
        }
        to_unsigned(self as i64, 8)
    }

    fn from_pattern(p: u64) -> (x: Self) {
        proof {
            lemma_radix_pow_values();
        }
        to_signed(p, 8) as i64
    }
}

impl WireInt for usize {
    open spec fn spec_int(self) -> int {
        self as int
    }

    open spec fn spec_width() -> nat {
        word_size()
    }

    open spec fn spec_signed() -> bool {
        false
    }

    fn width() -> (n: usize) {
        word_bytes()
    }

    fn to_pattern(self) -> (p: u64) {
        proof {
            lemma_radix_pow_values();
        }
        self as u64
    }

    fn from_pattern(p: u64) -> (x: Self) {
        proof {
            lemma_radix_pow_values();
        }
        p as usize
    }
}

impl WireInt for isize {
    open spec fn spec_int(self) -> int {
        self as int
    }

    open spec fn spec_width() -> nat {
        word_size()
    }

    open spec fn spec_signed() -> bool {
        true
    }

    fn width() -> (n: usize) {
        word_bytes()
    }

    fn to_pattern(self) -> (p: u64) {
        proof {
            lemma_radix_pow_values();
        }
        to_unsigned(self as i64, word_bytes())
    }

    fn from_pattern(p: u64) -> (x: Self) {
        proof {
            lemma_radix_pow_values();
        }
        to_signed(p, word_bytes()) as isize
    }
}

/// The numbers that the values of `s` stand for.
pub open spec fn ints_of<T: WireInt>(s: Seq<T>) -> Seq<int> {
    s.map_values(|x: T| x.spec_int())
}

} // verus!
