use vstd::prelude::*;

verus! {

/// How many samples the console preview shows at most.
pub const PREVIEW_SAMPLES: usize = 5;

/// The ASCII byte of decimal digit `d`.
pub open spec fn digit_byte(d: nat) -> u8 {
    (48 + d) as u8
}

/// The decimal digits of `n`, most significant first, without leading zeros.
pub open spec fn decimal(n: nat) -> Seq<u8>
    decreases n,
{
    if n < 10 {
        seq![digit_byte(n)]
    } else {
        decimal(n / 10).push(digit_byte(n % 10))
    }
}

/// The header row of the sample table: `Index,Value`.
pub open spec fn header_text() -> Seq<u8> {
    seq!['I' as u8, 'n' as u8, 'd' as u8, 'e' as u8, 'x' as u8, ',' as u8, 'V' as u8, 'a' as u8, 'l' as u8, 'u' as u8, 'e' as u8]
}

/// The data row of the sample at `index`: its index in decimal, a comma,
/// and the value's text.
pub open spec fn record_text(index: nat, value: Seq<u8>) -> Seq<u8> {
    decimal(index) + seq![',' as u8] + value
}

/// The preview line of the `number`-th sample: `Sample <number>: <value>`.
pub open spec fn preview_text(number: nat, value: Seq<u8>) -> Seq<u8> {
    seq!['S' as u8, 'a' as u8, 'm' as u8, 'p' as u8, 'l' as u8, 'e' as u8, ' ' as u8] + decimal(number) + seq![':' as u8, ' ' as u8] + value
}

/// How many preview lines a run of `total` samples shows.
pub open spec fn preview_len(total: nat) -> nat {
    if total < PREVIEW_SAMPLES {
        total
    } else {
        PREVIEW_SAMPLES as nat
    }
}

/// `s` is a non-empty run of ASCII decimal digits.
pub open spec fn is_digits(s: Seq<u8>) -> bool {
    s.len() > 0 && forall|i: int| 0 <= i < s.len() ==> 48 <= #[trigger] s[i] <= 57
}

/// The index column of every data row is a non-negative integer written in
/// decimal digits.
pub proof fn lemma_decimal_is_digits(n: nat)
    ensures
        is_digits(decimal(n)),
    decreases n,
{
    if n >= 10 {
        lemma_decimal_is_digits(n / 10);
        assert(is_digits(decimal(n)));
    }
}

/// Appends every byte of `bytes` to `out`.
fn push_all(out: &mut Vec<u8>, bytes: &[u8])
    ensures
        final(out)@ == old(out)@ + bytes@,
{
    let mut i: usize = 0;
    while i < bytes.len()
        invariant
            i <= bytes@.len(),
            out@ == old(out)@ + bytes@.subrange(0, i as int),
        decreases bytes@.len() - i,
    {
        out.push(bytes[i]);
        i = i + 1;
        proof {
            assert(bytes@.subrange(0, i as int) =~= bytes@.subrange(0, i - 1).push(bytes@[i - 1]));
        }
    }
    proof {
        assert(bytes@.subrange(0, bytes@.len() as int) =~= bytes@);
    }
}

/// The decimal digits of `n`.
pub fn decimal_bytes(n: usize) -> (r: Vec<u8>)
    ensures
        r@ == decimal(n as nat),
    decreases n,
{
    if n < 10 {
        vec![48u8 + n as u8]
    } else {
        let mut r = decimal_bytes(n / 10);
        r.push(48u8 + (n % 10) as u8);
        r
    }
}

/// The header row of the sample table.
pub fn header() -> (r: Vec<u8>)
    ensures
        r@ == header_text(),
{
    let r = vec!['I' as u8, 'n' as u8, 'd' as u8, 'e' as u8, 'x' as u8, ',' as u8, 'V' as u8, 'a' as u8, 'l' as u8, 'u' as u8, 'e' as u8];
    proof {
        assert(r@ =~= header_text());
    }
    r
}

/// The data row of the sample at `index`, whose value reads `value`.
pub fn record(index: usize, value: &[u8]) -> (r: Vec<u8>)
    ensures
        r@ == record_text(index as nat, value@),
{
    let mut r = decimal_bytes(index);
    r.push(',' as u8);
    push_all(&mut r, value);
    r
}

/// The console preview line of the `number`-th sample, counted from one.
pub fn preview(number: usize, value: &[u8]) -> (r: Vec<u8>)
    ensures
        r@ == preview_text(number as nat, value@),
{
    let mut r = vec!['S' as u8, 'a' as u8, 'm' as u8, 'p' as u8, 'l' as u8, 'e' as u8, ' ' as u8];
    let digits = decimal_bytes(number);
    push_all(&mut r, digits.as_slice());
    r.push(':' as u8);
    r.push(' ' as u8);
    push_all(&mut r, value);
    proof {
        assert(r@ =~= preview_text(number as nat, value@));
    }
    r
}

/// The lines of the sample table for samples whose values read `values`:
/// the header, then one data row per sample, indexed from zero.
pub fn table_lines(values: &Vec<Vec<u8>>) -> (lines: Vec<Vec<u8>>)
    ensures
        lines@.len() == values@.len() + 1,
        lines@[0]@ == header_text(),
        forall|i: int|
            0 <= i < values@.len() ==> #[trigger] lines@[i + 1]@ == record_text(
                i as nat,
                values@[i]@,
            ),
{
    let mut lines: Vec<Vec<u8>> = Vec::new();
    lines.push(header());
    let mut i: usize = 0;
    while i < values.len()
        invariant
            i <= values@.len(),
            lines@.len() == i + 1,
            lines@[0]@ == header_text(),
            forall|j: int|
                0 <= j < i ==> #[trigger] lines@[j + 1]@ == record_text(j as nat, values@[j]@),
        decreases values@.len() - i,
    {
        let row = record(i, values[i].as_slice());
        lines.push(row);
        i = i + 1;
    }
    lines
}

/// The console preview of samples whose values read `values`: one line for
/// each of the first samples, at most `PREVIEW_SAMPLES`, numbered from one.
pub fn preview_lines(values: &Vec<Vec<u8>>) -> (lines: Vec<Vec<u8>>)
    ensures
        lines@.len() == preview_len(values@.len()),
        forall|i: int|
            0 <= i < lines@.len() ==> #[trigger] lines@[i]@ == preview_text(
                (i + 1) as nat,
                values@[i]@,
            ),
{
    let mut lines: Vec<Vec<u8>> = Vec::new();
    let mut i: usize = 0;
    while i < values.len() && i < PREVIEW_SAMPLES
        invariant
            i <= values@.len(),
            i <= PREVIEW_SAMPLES,
            lines@.len() == i,
            forall|j: int|
                0 <= j < i ==> #[trigger] lines@[j]@ == preview_text((j + 1) as nat, values@[j]@),
        decreases values@.len() - i,
    {
        let line = preview(i + 1, values[i].as_slice());
        lines.push(line);
        i = i + 1;
    }
    lines
}

} // verus!
