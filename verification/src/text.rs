//! Human-readable descriptions of filters.
use vstd::prelude::*;
use vstd::string::StringExecFns;

verus! {

/// The decimal digits of `n`, most significant first.
pub open spec fn decimal(n: nat) -> Seq<char>
    decreases n,
{
    if n < 10 {
        seq![(n + 48) as char]
    } else {
        decimal(n / 10) + seq![((n % 10) + 48) as char]
    }
}

/// The bytes of `s` in decimal, separated by ", ".
pub open spec fn byte_items(s: Seq<u8>) -> Seq<char>
    decreases s.len(),
{
    if s.len() == 0 {
        Seq::empty()
    } else if s.len() == 1 {
        decimal(s[0] as nat)
    } else {
        byte_items(s.drop_last()) + ", "@ + decimal(s.last() as nat)
    }
}

/// The bytes of `s` as a bracketed list, as `Debug` writes a byte array.
pub open spec fn byte_list(s: Seq<u8>) -> Seq<char> {
    "["@ + byte_items(s) + "]"@
}

/// The description of a filter with `bits` bits, `k_num` hash functions and `seed`.
pub open spec fn filter_description(bits: u64, k_num: u32, seed: Seq<u8>) -> Seq<char> {
    "Bloom filter with "@ + decimal(bits as nat) + " bits, "@ + decimal(k_num as nat)
        + " hash functions and seed: "@ + byte_list(seed) + " "@
}

/// The description of a read-only filter with `bits` bits and `k_num` hash functions.
pub open spec fn read_only_description(bits: u64, k_num: u32) -> Seq<char> {
    "ReadOnlyBloom filter with "@ + decimal(bits as nat) + " bits and "@ + decimal(k_num as nat)
        + " hash functions"@
}

/// The decimal digit `d`.
fn digit_str(d: u64) -> (r: &'static str)
    requires
        d < 10,
    ensures
        r@ == seq![(d + 48) as char],
{
    proof {
        reveal_strlit("0");
        reveal_strlit("1");
        reveal_strlit("2");
        reveal_strlit("3");
        reveal_strlit("4");
        reveal_strlit("5");
        reveal_strlit("6");
        reveal_strlit("7");
        reveal_strlit("8");
        reveal_strlit("9");
    }
    match d {
        0 => "0",
        1 => "1",
        2 => "2",
        3 => "3",
        4 => "4",
        5 => "5",
        6 => "6",
        7 => "7",
        8 => "8",
        _ => "9",
    }
}

/// Appends `n` in decimal to `out`.
fn push_decimal(out: &mut String, n: u64)
    ensures
        final(out)@ == old(out)@ + decimal(n as nat),
    decreases n,
{
    if n >= 10 {
        push_decimal(out, n / 10);
    }
    out.append(digit_str(n % 10));
    proof {
        if n < 10 {
            assert(decimal(n as nat) == seq![(n + 48) as char]);
        } else {
            assert(decimal(n as nat) == decimal((n / 10) as nat) + seq![((n % 10) + 48) as char]);
        }
        assert(out@ =~= old(out)@ + decimal(n as nat));
    }
}

/// `n` in decimal, most significant digit first.
pub fn decimal_string(n: u64) -> (r: String)
    ensures
        r@ == decimal(n as nat),
{
    let mut out = String::new();
    push_decimal(&mut out, n);
    assert(out@ =~= decimal(n as nat));
    out
}

/// Appends the bytes of `s` to `out` as a bracketed list.
pub fn push_byte_list(out: &mut String, s: &[u8])
    ensures
        final(out)@ == old(out)@ + byte_list(s@),
{
    let ghost start = out@;
    proof {
        reveal_strlit("[");
        reveal_strlit("]");
        reveal_strlit(", ");
    }
    out.append("[");
    let mut i: usize = 0;
    while i < s.len()
        invariant
            i <= s@.len(),
            out@ == start + "["@ + byte_items(s@.take(i as int)),
        decreases s@.len() - i,
    {
        if i > 0 {
            out.append(", ");
        }
        let d = decimal_string(s[i] as u64);
        out.append(d.as_str());
        proof {
            let t = s@.take(i + 1);
            assert(t.drop_last() =~= s@.take(i as int));
            assert(t.last() == s@[i as int]);
            if i == 0 {
                assert(byte_items(s@.take(0)) =~= Seq::<char>::empty());
            }
        }
        i = i + 1;
    }
    out.append("]");
    proof {
        assert(s@.take(s@.len() as int) =~= s@);
        assert(out@ =~= start + byte_list(s@));
    }
}

} // verus!
