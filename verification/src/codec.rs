use vstd::prelude::*;
use crate::ids::InstanceId;

verus! {

/// Decimal digits of `n`, most significant first, as ASCII bytes.
pub open spec fn dec_of(n: u128) -> Seq<u8>
    decreases n,
{
    if n < 10 {
        seq![(48 + n) as u8]
    } else {
        dec_of(n / 10).push((48 + n % 10) as u8)
    }
}

/// Renders `n` in decimal ASCII.
pub fn u128_to_dec(n: u128) -> (r: Vec<u8>)
    ensures
        r@ == dec_of(n),
    decreases n,
{
    if n < 10 {
        let mut r: Vec<u8> = Vec::new();
        r.push(48 + (n as u8));
        proof {
            assert(r@ =~= dec_of(n));
        }
        r
    } else {
        proof {
            assert(n / 10 < n) by (nonlinear_arith)
                requires n >= 10;
        }
        let mut r = u128_to_dec(n / 10);
        r.push(48 + ((n % 10) as u8));
        proof {
            assert(r@ =~= dec_of(n));
        }
        r
    }
}

/// "group:item" display label of an id, in ASCII; 58 is the colon.
pub open spec fn label_of(id: InstanceId) -> Seq<u8> {
    dec_of(id.group) + seq![58u8] + dec_of(id.item)
}

/// Renders the "group:item" label of an id.
pub fn id_label(id: &InstanceId) -> (r: Vec<u8>)
    ensures
        r@ == label_of(*id),
{
    let mut r = u128_to_dec(id.group);
    r.push(58);
    let mut t = u128_to_dec(id.item);
    r.append(&mut t);
    proof {
        assert(r@ =~= label_of(*id));
    }
    r
}

} // verus!
