//! The Bitcoin addresses that lenders are given.
use vstd::prelude::*;

verus! {

/// The last decimal digit of `n`.
pub open spec fn digit(n: nat) -> char {
    ((n % 10) + 0x30) as char
}

/// `n` in decimal notation, without leading zeros.
pub open spec fn decimal(n: nat) -> Seq<char>
    decreases n,
{
    if n < 10 {
        seq![digit(n)]
    } else {
        decimal(n / 10).push(digit(n))
    }
}

/// The address that is handed out at a time.
pub open spec fn address_at(time: nat) -> Seq<char> {
    "btc_address_"@ + decimal(time)
}

/// The digit of a number below ten.
fn digit_str(n: u64) -> (text: &'static str)
    requires
        n < 10,
    ensures
        text@ == seq![digit(n as nat)],
{
    proof {
        reveal_strlit("0");
        reveal_strlit("1");
        reveal_strlit("2");
        reveal_strlit("3");
        reveal_strlit("4");
        reveal_strlit("5");
        reveal_strlit("6");
        reveal_strlit("7");
        reveal_strlit("8");
        reveal_strlit("9");
    }
    match n {
        0 => "0",
        1 => "1",
        2 => "2",
        3 => "3",
        4 => "4",
        5 => "5",
        6 => "6",
        7 => "7",
        8 => "8",
        _ => "9",
    }
}

/// Writes a number in decimal behind what `text` holds.
fn append_decimal(text: &mut String, n: u64)
    ensures
        final(text)@ == old(text)@ + decimal(n as nat),
    decreases n,
{
    if n >= 10 {
        append_decimal(text, n / 10);
    }
    text.append(digit_str(n % 10));
    assert(text@ =~= old(text)@ + decimal(n as nat));
}

/// The address for a lender who registers at the given time, which is in
/// nanoseconds.
pub fn generate_btc_address(time: u64) -> (btc_address: String)
    ensures
        btc_address@ == address_at(time as nat),
{
    let mut btc_address = "btc_address_".to_string();
    append_decimal(&mut btc_address, time);
    btc_address
}

/// Two numbers written alike are one number.
proof fn lemma_decimal_injective(a: nat, b: nat)
    requires
        decimal(a) == decimal(b),
    ensures
        a == b,
    decreases a,
{
    assert(decimal(a).last() == digit(a));
    assert(decimal(b).last() == digit(b));
    lemma_decimal_not_empty(a / 10);
    lemma_decimal_not_empty(b / 10);
    if a >= 10 && b >= 10 {
        assert(decimal(a).drop_last() =~= decimal(a / 10));
        assert(decimal(b).drop_last() =~= decimal(b / 10));
        lemma_decimal_injective(a / 10, b / 10);
    }
}

proof fn lemma_decimal_not_empty(n: nat)
    ensures
        decimal(n).len() > 0,
    decreases n,
{
    if n >= 10 {
        lemma_decimal_not_empty(n / 10);
    }
}

/// Law: lenders who register at different times get different addresses.
pub proof fn law_addresses_differ(a: nat, b: nat)
    requires
        a != b,
    ensures
        address_at(a) != address_at(b),
{
    if address_at(a) == address_at(b) {
        let n = "btc_address_"@.len() as int;
        assert(address_at(a).skip(n) =~= decimal(a));
        assert(address_at(b).skip(n) =~= decimal(b));
        lemma_decimal_injective(a, b);
    }
}

/// Law: a number written in decimal is made of the digits 0 to 9, does not begin
/// with a zero unless it is zero, and reads back as the number.
pub proof fn law_decimal_reads_back(n: nat)
    ensures
        decimal(n).len() > 0,
        forall|i: int| 0 <= i < decimal(n).len() ==> '0' <= #[trigger] decimal(n)[i] <= '9',
        decimal(n)[0] == '0' <==> n == 0,
        decimal(n).fold_left(0int, |value: int, c: char| 10 * value + (c as int - '0' as int)) == n,
    decreases n,
{
    let read = |value: int, c: char| 10 * value + (c as int - '0' as int);
    let rest = decimal(n / 10);
    if n < 10 {
        assert(decimal(n).drop_last() =~= Seq::<char>::empty());
        assert(decimal(n).drop_last().fold_left(0int, read) == 0);
        assert(decimal(n).last() == digit(n));
    } else {
        law_decimal_reads_back(n / 10);
        assert(decimal(n).drop_last() =~= rest);
        assert(decimal(n).last() == digit(n));
        assert(forall|i: int| 0 <= i < rest.len() ==> #[trigger] decimal(n)[i] == rest[i]);
    }
}

/// Law: an address is the fixed word followed by the time in decimal.
pub proof fn law_address_holds_the_time(time: nat)
    ensures
        ({
            let n = "btc_address_"@.len() as int;
            &&& address_at(time).take(n) == "btc_address_"@
            &&& address_at(time).skip(n).fold_left(
                0int,
                |value: int, c: char| 10 * value + (c as int - '0' as int),
            ) == time
            &&& address_at(time).skip(n) == decimal(time)
        }),
{
    let n = "btc_address_"@.len() as int;
    law_decimal_reads_back(time);
    assert(address_at(time).take(n) =~= "btc_address_"@);
    assert(address_at(time).skip(n) =~= decimal(time));
}

} // verus!
