//! Base-58 text as the Bitcoin alphabet writes it, and the proof that it can be
//! read back.

use vstd::prelude::*;

verus! {

/// The 58 symbols of the Bitcoin base-58 alphabet, symbol `d` standing for digit `d`.
pub open spec fn base58_alphabet() -> Seq<char> {
    seq![
        '1', '2', '3', '4', '5', '6', '7', '8', '9', 'A', 'B', 'C', 'D', 'E', 'F', 'G', 'H',
        'J', 'K', 'L', 'M', 'N', 'P', 'Q', 'R', 'S', 'T', 'U', 'V', 'W', 'X', 'Y', 'Z', 'a',
        'b', 'c', 'd', 'e', 'f', 'g', 'h', 'i', 'j', 'k', 'm', 'n', 'o', 'p', 'q', 'r', 's',
        't', 'u', 'v', 'w', 'x', 'y', 'z',
    ]
}

/// How many zero bytes `b` starts with.
pub open spec fn leading_zeros(b: Seq<u8>) -> nat
    decreases b.len(),
{
    if b.len() > 0 && b[0] == 0 {
        1 + leading_zeros(b.drop_first())
    } else {
        0
    }
}

/// The number that `b` writes in base 256, most significant byte first.
pub open spec fn be_value(b: Seq<u8>) -> nat
    decreases b.len(),
{
    if b.len() == 0 {
        0
    } else {
        be_value(b.drop_last()) * 256 + b.last() as nat
    }
}

/// The base-58 digits of `n`, most significant first, without leading zeros
/// (none at all for zero).
pub open spec fn base58_digits(n: nat) -> Seq<nat>
    decreases n,
{
    if n == 0 {
        Seq::empty()
    } else {
        base58_digits(n / 58).push(n % 58)
    }
}

/// Base-58 text of `b`: one `'1'` for each leading zero byte, then the digits of
/// its big-endian value.
pub open spec fn base58_text(b: Seq<u8>) -> Seq<char> {
    Seq::new(leading_zeros(b), |i: int| '1') + base58_digits(be_value(b)).map_values(
        |d: nat| base58_alphabet()[d as int],
    )
}

/// The digit that symbol `c` stands for (58 for a symbol outside the alphabet).
pub open spec fn base58_digit_of(c: char) -> nat {
    if c == '1' {
        0

    } else if c == '2' {
        1

    } else if c == '3' {
        2

    } else if c == '4' {
        3

    } else if c == '5' {
        4

    } else if c == '6' {
        5

    } else if c == '7' {
        6

    } else if c == '8' {
        7

    } else if c == '9' {
        8

    } else if c == 'A' {
        9

    } else if c == 'B' {
        10

    } else if c == 'C' {
        11

    } else if c == 'D' {
        12

    } else if c == 'E' {
        13

    } else if c == 'F' {
        14

    } else if c == 'G' {
        15

    } else if c == 'H' {
        16

    } else if c == 'J' {
        17

    } else if c == 'K' {
        18

    } else if c == 'L' {
        19

    } else if c == 'M' {
        20

    } else if c == 'N' {
        21

    } else if c == 'P' {
        22

    } else if c == 'Q' {
        23

    } else if c == 'R' {
        24

    } else if c == 'S' {
        25

    } else if c == 'T' {
        26

    } else if c == 'U' {
        27

    } else if c == 'V' {
        28

    } else if c == 'W' {
        29

    } else if c == 'X' {
        30

    } else if c == 'Y' {
        31

    } else if c == 'Z' {
        32

    } else if c == 'a' {
        33

    } else if c == 'b' {
        34

    } else if c == 'c' {
        35

    } else if c == 'd' {
        36

    } else if c == 'e' {
        37

    } else if c == 'f' {
        38

    } else if c == 'g' {
        39

    } else if c == 'h' {
        40

    } else if c == 'i' {
        41

    } else if c == 'j' {
        42

    } else if c == 'k' {
        43

    } else if c == 'm' {
        44

    } else if c == 'n' {
        45

    } else if c == 'o' {
        46

    } else if c == 'p' {
        47

    } else if c == 'q' {
        48

    } else if c == 'r' {
        49

    } else if c == 's' {
        50

    } else if c == 't' {
        51

    } else if c == 'u' {
        52

    } else if c == 'v' {
        53

    } else if c == 'w' {
        54

    } else if c == 'x' {
        55

    } else if c == 'y' {
        56

    } else if c == 'z' {
        57
    } else {
        58
    }
}

/// How many `'1'` symbols `s` starts with.
pub open spec fn leading_ones(s: Seq<char>) -> nat
    decreases s.len(),
{
    if s.len() > 0 && s[0] == '1' {
        1 + leading_ones(s.drop_first())
    } else {
        0
    }
}

/// The number that the digits `ds` write in base 58, most significant first.
pub open spec fn digits_value(ds: Seq<nat>) -> nat
    decreases ds.len(),
{
    if ds.len() == 0 {
        0
    } else {
        digits_value(ds.drop_last()) * 58 + ds.last()
    }
}

/// The big-endian bytes of `n`, without leading zeros (none at all for zero).
pub open spec fn be_bytes(n: nat) -> Seq<u8>
    decreases n,
{
    if n == 0 {
        Seq::empty()
    } else {
        be_bytes(n / 256).push((n % 256) as u8)
    }
}

/// Reads base-58 text back: a zero byte for each leading `'1'`, then the
/// big-endian bytes of the value of the remaining digits.
pub open spec fn base58_decode(s: Seq<char>) -> Seq<u8> {
    let k = leading_ones(s);
    Seq::new(k, |i: int| 0u8) + be_bytes(
        digits_value(s.subrange(k as int, s.len() as int).map_values(|c: char| base58_digit_of(c))),
    )
}

proof fn alphabet_symbols_decode()
    ensures
        forall|d: int| 0 <= d < 58 ==> #[trigger] base58_digit_of(base58_alphabet()[d]) == d,
        base58_alphabet().len() == 58,
{
    assert(base58_digit_of(base58_alphabet()[0]) == 0);
    assert(base58_digit_of(base58_alphabet()[1]) == 1);
    assert(base58_digit_of(base58_alphabet()[2]) == 2);
    assert(base58_digit_of(base58_alphabet()[3]) == 3);
    assert(base58_digit_of(base58_alphabet()[4]) == 4);
    assert(base58_digit_of(base58_alphabet()[5]) == 5);
    assert(base58_digit_of(base58_alphabet()[6]) == 6);
    assert(base58_digit_of(base58_alphabet()[7]) == 7);
    assert(base58_digit_of(base58_alphabet()[8]) == 8);
    assert(base58_digit_of(base58_alphabet()[9]) == 9);
    assert(base58_digit_of(base58_alphabet()[10]) == 10);
    assert(base58_digit_of(base58_alphabet()[11]) == 11);
    assert(base58_digit_of(base58_alphabet()[12]) == 12);
    assert(base58_digit_of(base58_alphabet()[13]) == 13);
    assert(base58_digit_of(base58_alphabet()[14]) == 14);
    assert(base58_digit_of(base58_alphabet()[15]) == 15);
    assert(base58_digit_of(base58_alphabet()[16]) == 16);
    assert(base58_digit_of(base58_alphabet()[17]) == 17);
    assert(base58_digit_of(base58_alphabet()[18]) == 18);
    assert(base58_digit_of(base58_alphabet()[19]) == 19);
    assert(base58_digit_of(base58_alphabet()[20]) == 20);
    assert(base58_digit_of(base58_alphabet()[21]) == 21);
    assert(base58_digit_of(base58_alphabet()[22]) == 22);
    assert(base58_digit_of(base58_alphabet()[23]) == 23);
    assert(base58_digit_of(base58_alphabet()[24]) == 24);
    assert(base58_digit_of(base58_alphabet()[25]) == 25);
    assert(base58_digit_of(base58_alphabet()[26]) == 26);
    assert(base58_digit_of(base58_alphabet()[27]) == 27);
    assert(base58_digit_of(base58_alphabet()[28]) == 28);
    assert(base58_digit_of(base58_alphabet()[29]) == 29);
    assert(base58_digit_of(base58_alphabet()[30]) == 30);
    assert(base58_digit_of(base58_alphabet()[31]) == 31);
    assert(base58_digit_of(base58_alphabet()[32]) == 32);
    assert(base58_digit_of(base58_alphabet()[33]) == 33);
    assert(base58_digit_of(base58_alphabet()[34]) == 34);
    assert(base58_digit_of(base58_alphabet()[35]) == 35);
    assert(base58_digit_of(base58_alphabet()[36]) == 36);
    assert(base58_digit_of(base58_alphabet()[37]) == 37);
    assert(base58_digit_of(base58_alphabet()[38]) == 38);
    assert(base58_digit_of(base58_alphabet()[39]) == 39);
    assert(base58_digit_of(base58_alphabet()[40]) == 40);
    assert(base58_digit_of(base58_alphabet()[41]) == 41);
    assert(base58_digit_of(base58_alphabet()[42]) == 42);
    assert(base58_digit_of(base58_alphabet()[43]) == 43);
    assert(base58_digit_of(base58_alphabet()[44]) == 44);
    assert(base58_digit_of(base58_alphabet()[45]) == 45);
    assert(base58_digit_of(base58_alphabet()[46]) == 46);
    assert(base58_digit_of(base58_alphabet()[47]) == 47);
    assert(base58_digit_of(base58_alphabet()[48]) == 48);
    assert(base58_digit_of(base58_alphabet()[49]) == 49);
    assert(base58_digit_of(base58_alphabet()[50]) == 50);
    assert(base58_digit_of(base58_alphabet()[51]) == 51);
    assert(base58_digit_of(base58_alphabet()[52]) == 52);
    assert(base58_digit_of(base58_alphabet()[53]) == 53);
    assert(base58_digit_of(base58_alphabet()[54]) == 54);
    assert(base58_digit_of(base58_alphabet()[55]) == 55);
    assert(base58_digit_of(base58_alphabet()[56]) == 56);
    assert(base58_digit_of(base58_alphabet()[57]) == 57);
}

proof fn digits_facts(n: nat)
    ensures
        forall|i: int| 0 <= i < base58_digits(n).len() ==> #[trigger] base58_digits(n)[i] < 58,
        n > 0 ==> base58_digits(n).len() > 0 && base58_digits(n)[0] != 0,
        n == 0 ==> base58_digits(n).len() == 0,
        digits_value(base58_digits(n)) == n,
    decreases n,
{
    if n > 0 {
        digits_facts(n / 58);
        let ds = base58_digits(n);
        assert(ds.drop_last() =~= base58_digits(n / 58));
    }
}

proof fn leading_ones_of(z: nat, t: Seq<char>)
    requires
        t.len() == 0 || t[0] != '1',
    ensures
        leading_ones(Seq::new(z, |i: int| '1') + t) == z,
    decreases z,
{
    let s = Seq::new(z, |i: int| '1') + t;
    if z > 0 {
        leading_ones_of((z - 1) as nat, t);
        assert(s.drop_first() =~= Seq::new((z - 1) as nat, |i: int| '1') + t);
    } else {
        assert(s =~= t);
    }
}

proof fn split_leading_zeros(b: Seq<u8>)
    ensures
        leading_zeros(b) <= b.len(),
        b =~= Seq::new(leading_zeros(b), |i: int| 0u8) + b.subrange(leading_zeros(b) as int, b.len() as int),
        leading_zeros(b) == b.len() || b[leading_zeros(b) as int] != 0,
    decreases b.len(),
{
    let z = leading_zeros(b);
    if b.len() > 0 && b[0] == 0 {
        let t = b.drop_first();
        split_leading_zeros(t);
        let zt = leading_zeros(t);
        assert(t.subrange(zt as int, t.len() as int) =~= b.subrange(z as int, b.len() as int));
        assert forall|i: int| 0 <= i < b.len() implies b[i] == (Seq::new(z, |j: int| 0u8)
            + b.subrange(z as int, b.len() as int))[i] by {
            if i > 0 {
                assert(b[i] == t[i - 1]);
            }
        }
    } else {
        assert(b.subrange(0, b.len() as int) =~= b);
    }
}

proof fn zeros_add_nothing(z: nat, r: Seq<u8>)
    ensures
        be_value(Seq::new(z, |i: int| 0u8) + r) == be_value(r),
    decreases r.len(), z,
{
    let s = Seq::new(z, |i: int| 0u8) + r;
    if r.len() > 0 {
        zeros_add_nothing(z, r.drop_last());
        assert(s.drop_last() =~= Seq::new(z, |i: int| 0u8) + r.drop_last());
    } else if z > 0 {
        zeros_add_nothing((z - 1) as nat, r);
        assert(s.drop_last() =~= Seq::new((z - 1) as nat, |i: int| 0u8) + r);
    } else {
        assert(s =~= r);
    }
}

proof fn value_positive(r: Seq<u8>)
    requires
        r.len() > 0,
        r[0] != 0,
    ensures
        be_value(r) > 0,
    decreases r.len(),
{
    if r.len() > 1 {
        value_positive(r.drop_last());
    } else {
        assert(r.drop_last().len() == 0);
    }
}

proof fn bytes_of_value(r: Seq<u8>)
    requires
        r.len() == 0 || r[0] != 0,
    ensures
        be_bytes(be_value(r)) =~= r,
    decreases r.len(),
{
    if r.len() > 0 {
        let p = r.drop_last();
        let x = r.last() as nat;
        let v = be_value(r);
        value_positive(r);
        bytes_of_value(p);
        let pv = be_value(p);
        assert(v / 256 == pv && v % 256 == x) by (nonlinear_arith)
            requires
                v == pv * 256 + x,
                x < 256,
        ;
        assert(r =~= p.push(r.last()));
    }
}

/// Base-58 text loses nothing: decoding the text of any byte string gives the
/// byte string back.
pub proof fn base58_round_trip(b: Seq<u8>)
    ensures
        base58_decode(base58_text(b)) == b,
{
    let z = leading_zeros(b);
    split_leading_zeros(b);
    let rest = b.subrange(z as int, b.len() as int);
    let v = be_value(b);
    zeros_add_nothing(z, rest);
    digits_facts(v);
    alphabet_symbols_decode();
    let ds = base58_digits(v);
    let t = ds.map_values(|d: nat| base58_alphabet()[d as int]);
    if t.len() > 0 {
        assert(base58_digit_of(t[0]) == ds[0]);
    }
    leading_ones_of(z, t);
    let s = base58_text(b);
    assert(s.subrange(z as int, s.len() as int) =~= t);
    assert(t.map_values(|c: char| base58_digit_of(c)) =~= ds);
    bytes_of_value(rest);
}

/// Base-58 text is one-to-one: two byte strings with the same text are equal.
pub proof fn base58_text_injective(b1: Seq<u8>, b2: Seq<u8>)
    requires
        base58_text(b1) == base58_text(b2),
    ensures
        b1 == b2,
{
    base58_round_trip(b1);
    base58_round_trip(b2);
}

} // verus!
