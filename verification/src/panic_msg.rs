use vstd::prelude::*;
use vstd::string::StringSliceAdditionalSpecFns;

verus! {

/// The ASCII decimal digits of `n`, most significant first; none for 0.
pub open spec fn decimal(n: nat) -> Seq<u8>
    decreases n,
{
    if n == 0 {
        Seq::empty()
    } else {
        decimal(n / 10).push((n % 10 + 48) as u8)
    }
}

/// The number that the ASCII decimal digits `d` spell.
pub open spec fn decimal_value(d: Seq<u8>) -> int
    decreases d.len(),
{
    if d.len() == 0 {
        0
    } else {
        10 * decimal_value(d.drop_last()) + (d.last() - 48)
    }
}

/// The text of the kernel's panic report for a panic at `file`, `line`:
/// `"PANIC: <file>:<line>: \n"`, the line written in decimal.
pub open spec fn panic_report(file: Seq<u8>, line: u32) -> Seq<u8> {
    seq![80u8, 65, 78, 73, 67, 58, 32] + file + seq![58u8] + decimal(line as nat) + seq![
        58u8,
        32,
        10,
    ]
}

/// Writes `n` in decimal: its ASCII digits, most significant first, and no
/// digit at all for 0.
pub fn decimal_digits(n: u32) -> (d: Vec<u8>)
    ensures
        d@ == decimal(n as nat),
        decimal_value(d@) == n,
        forall|i: int| 0 <= i < d@.len() ==> 48 <= #[trigger] d@[i] <= 57,
        n == 0 ==> d@.len() == 0,
        n > 0 ==> 1 <= d@.len() <= 10 && d@[0] != 48,
{
    proof {
        law_decimal_digits(n);
    }
    let mut buf: Vec<u8> = Vec::new();
    let mut temp: u32 = n;
    while temp > 0
        invariant
            decimal(n as nat) == decimal(temp as nat) + buf@.reverse(),
        decreases temp,
    {
        let digit: u8 = (temp % 10) as u8 + 48;
        proof {
            let t = temp as nat;
            assert(decimal(t) == decimal(t / 10).push(digit));
            assert(buf@.push(digit).reverse() =~= seq![digit] + buf@.reverse());
            assert(decimal(t) + buf@.reverse() =~= decimal(t / 10) + buf@.push(digit).reverse());
        }
        buf.push(digit);
        temp = temp / 10;
    }
    assert(decimal(n as nat) =~= buf@.reverse());
    let mut d: Vec<u8> = Vec::new();
    let mut i: usize = buf.len();
    while i > 0
        invariant
            i <= buf@.len(),
            d@ == buf@.reverse().take(buf@.len() - i),
        decreases i,
    {
        i = i - 1;
        d.push(buf[i]);
        assert(d@ =~= buf@.reverse().take(buf@.len() - i));
    }
    assert(d@ =~= buf@.reverse());
    d
}

/// The panic report holds, in order, `"PANIC: "`, the whole file name, `:`,
/// the decimal digits of the line and `": \n"`, and nothing else.
pub proof fn law_panic_report(file: Seq<u8>, line: u32)
    ensures
        panic_report(file, line).len() == 7 + file.len() as int + 1 + decimal(line as nat).len() + 3,
        panic_report(file, line).take(7) == seq![80u8, 65, 78, 73, 67, 58, 32],
        panic_report(file, line).subrange(7, 7 + file.len() as int) == file,
        panic_report(file, line)[7 + file.len() as int] == 58,
        panic_report(file, line).subrange(8 + file.len() as int, 8 + file.len() as int + decimal(line as nat).len() as int) == decimal(
            line as nat,
        ),
        panic_report(file, line).subrange(panic_report(file, line).len() - 3, panic_report(file, line).len() as int) == seq![58u8, 32, 10],
{
    let r = panic_report(file, line);
    let d = decimal(line as nat);
    assert(r.take(7) =~= seq![80u8, 65, 78, 73, 67, 58, 32]);
    assert(r.subrange(7, 7 + file.len() as int) =~= file);
    assert(r.subrange(8 + file.len() as int, 8 + file.len() as int + d.len() as int) =~= d);
    assert(r.subrange(r.len() - 3, r.len() as int) =~= seq![58u8, 32, 10]);
}

/// Builds the kernel's panic report for a panic at `file`, `line`.
pub fn panic_message(file: &str, line: u32) -> (msg: Vec<u8>)
    ensures
        msg@ == panic_report(file.spec_bytes(), line),
        msg@.len() == 7 + file.spec_bytes().len() as int + 1 + decimal(line as nat).len() + 3,
        msg@.take(7) == seq![80u8, 65, 78, 73, 67, 58, 32],
        msg@.subrange(7, 7 + file.spec_bytes().len() as int) == file.spec_bytes(),
        msg@[7 + file.spec_bytes().len() as int] == 58,
        msg@.subrange(8 + file.spec_bytes().len() as int, 8 + file.spec_bytes().len() as int + decimal(line as nat).len() as int) == decimal(
            line as nat,
        ),
        msg@.subrange(msg@.len() - 3, msg@.len() as int) == seq![58u8, 32, 10],
{
    let mut msg: Vec<u8> = Vec::new();
    msg.push(80u8);
    msg.push(65u8);
    msg.push(78u8);
    msg.push(73u8);
    msg.push(67u8);
    msg.push(58u8);
    msg.push(32u8);
    let bytes = file.as_bytes();
    let ghost head = msg@;
    let mut i: usize = 0;
    while i < bytes.len()
        invariant
            i <= bytes@.len(),
            msg@ == head + bytes@.take(i as int),
        decreases bytes@.len() - i,
    {
        msg.push(bytes[i]);
        i = i + 1;
        assert(msg@ =~= head + bytes@.take(i as int));
    }
    msg.push(58u8);
    let digits = decimal_digits(line);
    let ghost mid = msg@;
    let mut j: usize = 0;
    while j < digits.len()
        invariant
            j <= digits@.len(),
            msg@ == mid + digits@.take(j as int),
        decreases digits@.len() - j,
    {
        msg.push(digits[j]);
        j = j + 1;
        assert(msg@ =~= mid + digits@.take(j as int));
    }
    msg.push(58u8);
    msg.push(32u8);
    msg.push(10u8);
    assert(bytes@.take(bytes@.len() as int) =~= bytes@);
    assert(digits@.take(digits@.len() as int) =~= digits@);
    assert(msg@ =~= panic_report(file.spec_bytes(), line));
    proof {
        law_panic_report(file.spec_bytes(), line);
    }
    msg
}

proof fn lemma_decimal(n: nat)
    ensures
        decimal_value(decimal(n)) == n,
        forall|i: int| 0 <= i < decimal(n).len() ==> 48 <= #[trigger] decimal(n)[i] <= 57,
        n > 0 ==> decimal(n).len() > 0 && decimal(n)[0] != 48,
        n < 10 ==> decimal(n).len() <= 1,
    decreases n,
{
    if n > 0 {
        lemma_decimal(n / 10);
        let d = decimal(n);
        assert(d.drop_last() =~= decimal(n / 10));
    }
}

/// `10` to the power `k`.
spec fn pow10(k: nat) -> nat
    decreases k,
{
    if k == 0 {
        1
    } else {
        10 * pow10((k - 1) as nat)
    }
}

proof fn lemma_decimal_len(n: nat, k: nat)
    requires
        n < pow10(k),
    ensures
        decimal(n).len() <= k,
    decreases k,
{
    if n > 0 {
        assert(k > 0);
        lemma_decimal_len(n / 10, (k - 1) as nat);
    }
}

/// The digits of `n` spell `n`, are all ASCII digits, and, when `n` is not
/// 0, are between one and ten and start with a nonzero digit.
pub proof fn law_decimal_digits(n: u32)
    ensures
        decimal_value(decimal(n as nat)) == n,
        forall|i: int|
            0 <= i < decimal(n as nat).len() ==> 48 <= #[trigger] decimal(n as nat)[i] <= 57,
        n > 0 ==> 1 <= decimal(n as nat).len() <= 10,
        n > 0 ==> decimal(n as nat)[0] != 48,
        n > 0 ==> decimal(n as nat).last() == 48 + n % 10,
{
    lemma_decimal(n as nat);
    assert(pow10(10) == 10000000000) by {
        reveal_with_fuel(pow10, 11);
    }
    lemma_decimal_len(n as nat, 10);
}

} // verus!
