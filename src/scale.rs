use vstd::prelude::*;

verus! {

/// Ten to the power `d`.
pub open spec fn pow10(d: nat) -> nat
    decreases d,
{
    if d == 0 {
        1
    } else {
        10 * pow10((d - 1) as nat)
    }
}

/// `amount` scaled by `10^decimals`, the number of base units that a whole-token
/// quantity stands for.
pub open spec fn scaled(amount: u64, decimals: u8) -> nat {
    amount as nat * pow10(decimals as nat)
}

proof fn lemma_pow10_positive(d: nat)
    ensures
        pow10(d) >= 1,
    decreases d,
{
    if d > 0 {
        lemma_pow10_positive((d - 1) as nat);
    }
}

proof fn lemma_pow10_grows(i: nat, d: nat)
    requires
        i <= d,
    ensures
        pow10(i) <= pow10(d),
    decreases d - i,
{
    if i < d {
        lemma_pow10_grows(i, (d - 1) as nat);
        lemma_pow10_positive((d - 1) as nat);
    }
}

/// Multiplies `amount` by `10^decimals` in base units; `None` when the product
/// does not fit in a `u64`.
pub fn scale_amount(amount: u64, decimals: u8) -> (r: Option<u64>)
    ensures
        r matches Some(v) ==> v as nat == scaled(amount, decimals),
        r is None <==> scaled(amount, decimals) > u64::MAX,
{
    let mut acc: u64 = amount;
    let mut i: u8 = 0;
    proof {
        assert(pow10(0) == 1);
        assert(amount as nat * 1 == amount as nat);
    }
    while i < decimals
        invariant
            i <= decimals,
            acc as nat == amount as nat * pow10(i as nat),
        decreases decimals - i,
    {
        proof {
            assert(amount as nat * pow10((i + 1) as nat) == 10 * (amount as nat * pow10(i as nat)))
                by (nonlinear_arith)
                requires
                    pow10((i + 1) as nat) == 10 * pow10(i as nat),
            ;
        }
        match acc.checked_mul(10) {
            Some(next) => {
                acc = next;
            },
            None => {
                proof {
                    lemma_pow10_grows((i + 1) as nat, decimals as nat);
                    assert(amount as nat * pow10((i + 1) as nat) <= amount as nat * pow10(decimals as nat))
                        by (nonlinear_arith)
                        requires
                            pow10((i + 1) as nat) <= pow10(decimals as nat),
                    ;
                }
                return None;
            },
        }
        i = i + 1;
    }
    Some(acc)
}

} // verus!
