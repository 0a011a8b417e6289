use vstd::prelude::*;

verus! {

/// The ASCII decimal digits of `n`, most significant first.
pub open spec fn decimal_digits(n: nat) -> Seq<u8>
    decreases n,
{
    if n < 10 {
        seq![(48 + n) as u8]
    } else {
        decimal_digits(n / 10).push((48 + n % 10) as u8)
    }
}

/// The sink key of a frame: `{base}/{order}.txt` as bytes.
pub open spec fn key_model(base: Seq<u8>, order: u64) -> Seq<u8> {
    base + seq![47u8] + decimal_digits(order as nat) + seq![46u8, 116u8, 120u8, 116u8]
}

/// Every decimal expansion has at least one digit, and one of a number of
/// ten or more has at least two.
pub proof fn lemma_decimal_len(n: nat)
    ensures
        decimal_digits(n).len() >= 1,
        n >= 10 ==> decimal_digits(n).len() >= 2,
    decreases n,
{
    if n >= 10 {
        lemma_decimal_len(n / 10);
    }
}

/// Distinct numbers have distinct decimal expansions.
pub proof fn lemma_decimal_injective(m: nat, n: nat)
    ensures
        decimal_digits(m) == decimal_digits(n) ==> m == n,
    decreases m,
{
    if decimal_digits(m) == decimal_digits(n) {
        if m < 10 && n < 10 {
            assert(decimal_digits(m)[0] == decimal_digits(n)[0]);
        } else if m < 10 && n >= 10 {
            lemma_decimal_len(n);
        } else if m >= 10 && n < 10 {
            lemma_decimal_len(m);
        } else {
            let dm = decimal_digits(m / 10);
            let dn = decimal_digits(n / 10);
            let em = decimal_digits(m);
            let en = decimal_digits(n);
            assert(em == dm.push((48 + m % 10) as u8));
            assert(en == dn.push((48 + n % 10) as u8));
            assert(dm.len() == dn.len());
            assert(em[em.len() - 1] == en[en.len() - 1]);
            assert(m % 10 == n % 10);
            assert(dm =~= dn) by {
                assert forall|i: int| 0 <= i < dm.len() implies dm[i] == dn[i] by {
                    assert(em[i] == dm[i]);
                    assert(en[i] == dn[i]);
                }
            }
            lemma_decimal_injective(m / 10, n / 10);
        }
    }
}

/// Distinct orders give distinct keys under the same base directory:
/// the persistence key space is collision-free per sender.
pub proof fn lemma_key_unique(base: Seq<u8>, o1: u64, o2: u64)
    requires
        o1 != o2,
    ensures
        key_model(base, o1) != key_model(base, o2),
{
    if key_model(base, o1) == key_model(base, o2) {
        let d1 = decimal_digits(o1 as nat);
        let d2 = decimal_digits(o2 as nat);
        let p = base.len() + 1;
        assert(key_model(base, o1).len() == p + d1.len() + 4);
        assert(key_model(base, o2).len() == p + d2.len() + 4);
        assert(d1.len() == d2.len());
        assert(d1 =~= d2) by {
            assert forall|i: int| 0 <= i < d1.len() implies d1[i] == d2[i] by {
                assert(key_model(base, o1)[p + i] == d1[i]);
                assert(key_model(base, o2)[p + i] == d2[i]);
            }
        }
        lemma_decimal_injective(o1 as nat, o2 as nat);
    }
}

/// The decimal digits of `n`, most significant first, as bytes.
pub fn u64_to_decimal(n: u64) -> (r: Vec<u8>)
    ensures
        r@ == decimal_digits(n as nat),
    decreases n,
{
    if n < 10 {
        let mut r: Vec<u8> = Vec::new();
        r.push(48 + n as u8);
        proof {
            assert(r@ =~= decimal_digits(n as nat));
        }
        r
    } else {
        let mut r = u64_to_decimal(n / 10);
        r.push(48 + (n % 10) as u8);
        proof {
            assert(r@ =~= decimal_digits(n as nat));
        }
        r
    }
}

/// Build the sink key `{base}/{order}.txt` for the frame numbered `order`.
pub fn frame_key(base: &Vec<u8>, order: u64) -> (k: Vec<u8>)
    ensures
        k@ == key_model(base@, order),
{
    let mut k: Vec<u8> = Vec::new();
    let mut i: usize = 0;
    while i < base.len()
        invariant
            i <= base@.len(),
            k@ == base@.subrange(0, i as int),
        decreases base@.len() - i,
    {
        k.push(base[i]);
        proof {
            assert(k@ =~= base@.subrange(0, i + 1));
        }
        i = i + 1;
    }
    proof {
        assert(k@ =~= base@);
    }
    k.push(47);
    let mut digits = u64_to_decimal(order);
    k.append(&mut digits);
    k.push(46);
    k.push(116);
    k.push(120);
    k.push(116);
    proof {
        assert(k@ =~= key_model(base@, order));
    }
    k
}

} // verus!
