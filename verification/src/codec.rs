use vstd::prelude::*;

use crate::dec::dec_bytes;
use crate::dec::i32_bytes;
use crate::dec::i32_dec_bytes;
use crate::dec::dec_val;
use crate::dec::lemma_dec_val_of_dec_bytes;
use crate::dec::lemma_dec_bytes_injective;
use crate::dec::lemma_dec_bytes_are_digits;
use crate::dec::lemma_dec_bytes_no_leading_zero;
use crate::dec::lemma_dec_prefix_bound;
use crate::msg::CounterResponse;

verus! {

/// The bytes of `{"counter":`, the opening of the serialized state and of
/// the query response: the host's schema-tagged format is JSON with the one
/// field `counter`.
pub open spec fn counter_json_prefix() -> Seq<u8> {
    seq![123u8, 34u8, 99u8, 111u8, 117u8, 110u8, 116u8, 101u8, 114u8, 34u8, 58u8]
}

/// The serialized form of a counter value `n`: `{"counter":` followed by the
/// decimal rendering of `n` and a closing brace. This is both the persisted
/// state record and the query response encoding.
pub open spec fn counter_json(n: int) -> Seq<u8> {
    counter_json_prefix() + i32_bytes(n) + seq![125u8]
}

/// The bytes of `{"counter":` as a vector.
pub fn counter_json_prefix_vec() -> (v: Vec<u8>)
    ensures
        v@ == counter_json_prefix(),
{
    let mut v: Vec<u8> = Vec::new();
    v.push(123);
    v.push(34);
    v.push(99);
    v.push(111);
    v.push(117);
    v.push(110);
    v.push(116);
    v.push(101);
    v.push(114);
    v.push(34);
    v.push(58);
    proof {
        assert(v@ =~= counter_json_prefix());
    }
    v
}

/// Serialize a counter value.
pub fn encode_counter(n: i32) -> (r: Vec<u8>)
    ensures
        r@ == counter_json(n as int),
{
    let mut v = counter_json_prefix_vec();
    let mut d = i32_dec_bytes(n);
    v.append(&mut d);
    v.push(125);
    proof {
        assert(v@ =~= counter_json(n as int));
    }
    v
}

/// Serialize a query response: the same record as the persisted state, so
/// the query answer equals the direct encoding of the response structure,
/// byte for byte.
pub fn encode_counter_response(resp: &CounterResponse) -> (r: Vec<u8>)
    ensures
        r@ == counter_json(resp.counter as int),
{
    encode_counter(resp.counter)
}

/// Distinct non-negative counter values have distinct serialized forms.
pub proof fn lemma_counter_json_injective(a: int, b: int)
    requires
        a >= 0,
        b >= 0,
        counter_json(a) == counter_json(b),
    ensures
        a == b,
{
    let ja = counter_json(a);
    let jb = counter_json(b);
    assert(dec_bytes(a) =~= ja.subrange(11, ja.len() - 1));
    assert(dec_bytes(b) =~= jb.subrange(11, jb.len() - 1));
    lemma_dec_bytes_injective(a, b);
}

/// Deserialize a counter record. Returns the value whose serialized form is
/// exactly `b`, and `None` where `b` is no such form (for a non-negative
/// value, the only values this library ever persists).
pub fn decode_counter(b: &Vec<u8>) -> (r: Option<i32>)
    ensures
        r matches Some(n) ==> 0 <= n && b@ == counter_json(n as int),
        forall|n: i32| 0 <= n && b@ == counter_json(n as int) ==> r == Some(n),
{
    let len: usize = b.len();
    if len < 13 {
        proof {
            assert forall|n: i32| 0 <= n implies b@ != counter_json(n as int) by {
                lemma_dec_bytes_are_digits(n as int);
                assert(counter_json(n as int).len() >= 13);
            }
        }
        return None;
    }
    let pre = counter_json_prefix_vec();
    let mut j: usize = 0;
    while j < 11
        invariant
            j <= 11,
            len == b@.len(),
            len >= 13,
            pre@ == counter_json_prefix(),
            forall|t: int| 0 <= t < j ==> b@[t] == counter_json_prefix()[t],
        decreases 11 - j,
    {
        if b[j] != pre[j] {
            proof {
                assert forall|n: i32| 0 <= n implies b@ != counter_json(n as int) by {
                    assert(counter_json(n as int)[j as int] == counter_json_prefix()[j as int]);
                }
            }
            return None;
        }
        j += 1;
    }
    if b[len - 1] != 125 {
        proof {
            assert forall|n: i32| 0 <= n implies b@ != counter_json(n as int) by {
                let jn = counter_json(n as int);
                assert(jn[jn.len() - 1] == 125);
            }
        }
        return None;
    }
    let ghost region = b@.subrange(11, len as int - 1);
    proof {
        assert forall|n: i32|
            0 <= n && b@ == counter_json(n as int) implies region == dec_bytes(n as int) by {
            assert(region =~= counter_json(n as int).subrange(11, b@.len() - 1));
            assert(counter_json(n as int).subrange(11, b@.len() - 1) =~= dec_bytes(n as int));
        }
    }
    let d0: u8 = b[11];
    if d0 < 48 || d0 > 57 {
        proof {
            assert forall|n: i32| 0 <= n implies b@ != counter_json(n as int) by {
                if b@ == counter_json(n as int) {
                    lemma_dec_bytes_are_digits(n as int);
                    assert(region[0] == dec_bytes(n as int)[0]);
                }
            }
        }
        return None;
    }
    if d0 == 48 {
        if len == 13 {
            proof {
                assert(b@ =~= counter_json(0));
                assert forall|n: i32|
                    0 <= n && b@ == counter_json(n as int) implies n == 0 by {
                    lemma_counter_json_injective(n as int, 0);
                }
            }
            return Some(0);
        } else {
            proof {
                assert forall|n: i32| 0 <= n implies b@ != counter_json(n as int) by {
                    if b@ == counter_json(n as int) {
                        if n >= 1 {
                            lemma_dec_bytes_no_leading_zero(n as int);
                            assert(region[0] == dec_bytes(n as int)[0]);
                        } else {
                            assert(region =~= dec_bytes(0));
                            assert(b@.len() == 13);
                        }
                    }
                }
            }
            return None;
        }
    }
    let mut acc: i32 = (d0 - 48) as i32;
    let mut k: usize = 1;
    proof {
        assert(region.take(1) =~= dec_bytes(acc as int));
    }
    while k < len - 12
        invariant
            1 <= k <= len - 12,
            len == b@.len(),
            len >= 13,
            region == b@.subrange(11, len as int - 1),
            region.len() == len - 12,
            1 <= acc <= i32::MAX,
            region.take(k as int) == dec_bytes(acc as int),
            forall|t: int| 0 <= t < 11 ==> b@[t] == counter_json_prefix()[t],
            b@[len - 1] == 125,
        decreases len - k,
    {
        let d: u8 = b[11 + k];
        proof {
            assert(region[k as int] == b@[11 + k as int]);
        }
        if d < 48 || d > 57 {
            proof {
                assert forall|n: i32| 0 <= n implies b@ != counter_json(n as int) by {
                    if b@ == counter_json(n as int) {
                        assert(region =~= counter_json(n as int).subrange(11, len as int - 1));
                        assert(counter_json(n as int).subrange(11, len as int - 1) =~= dec_bytes(
                            n as int,
                        ));
                        lemma_dec_bytes_are_digits(n as int);
                        assert(region[k as int] == dec_bytes(n as int)[k as int]);
                    }
                }
            }
            return None;
        }
        let dv: i32 = (d - 48) as i32;
        if acc > (2147483647 - dv) / 10 {
            proof {
                assert forall|n: i32| 0 <= n implies b@ != counter_json(n as int) by {
                    if b@ == counter_json(n as int) {
                        // `acc` reads back the scanned prefix of the digits of `n`,
                        // so extending it by one digit still stays within `n`.
                        assert(region =~= counter_json(n as int).subrange(11, len as int - 1));
                        assert(counter_json(n as int).subrange(11, len as int - 1) =~= dec_bytes(
                            n as int,
                        ));
                        lemma_dec_val_of_dec_bytes(acc as int);
                        assert(dec_val(region.take(k as int)) == acc as int);
                        let ext = region.take(k as int + 1);
                        assert(ext.drop_last() =~= region.take(k as int));
                        assert(ext.last() == dec_bytes(n as int)[k as int]);
                        assert(dec_val(ext) == (acc as int) * 10 + (dv as int));
                        lemma_dec_prefix_bound(n as int, k as int + 1);
                        assert((acc as int) * 10 + (dv as int) <= n as int);
                        vstd::arithmetic::div_mod::lemma_fundamental_div_mod_converse(
                            (acc as int) * 10 + (dv as int),
                            10,
                            acc as int,
                            dv as int,
                        );
                        vstd::arithmetic::div_mod::lemma_div_is_ordered(
                            (acc as int) * 10 + (dv as int),
                            2147483647 - dv as int + dv as int,
                            10,
                        );
                        assert((2147483647int - dv as int + dv as int) / 10 >= acc as int);
                        vstd::arithmetic::div_mod::lemma_fundamental_div_mod(
                            2147483647int - dv as int,
                            10,
                        );
                        assert(false);
                    }
                }
            }
            return None;
        }
        proof {
            // acc * 10 + dv fits in an i32: acc <= (i32::MAX - dv) / 10.
            let q: int = (2147483647int - dv as int) / 10;
            assert(acc as int * 10 <= q * 10) by (nonlinear_arith)
                requires
                    0 <= acc as int <= q,
            ;
            vstd::arithmetic::div_mod::lemma_fundamental_div_mod(2147483647int - dv as int, 10);
            assert(q * 10 <= 2147483647 - dv as int);
        }
        let ghost acc_pre: int = acc as int;
        acc = acc * 10 + dv;
        proof {
            vstd::arithmetic::div_mod::lemma_fundamental_div_mod_converse(
                acc as int,
                10,
                acc_pre,
                dv as int,
            );
            assert(dec_bytes(acc as int) == dec_bytes(acc_pre).push(
                crate::dec::dec_digit_byte(acc as int % 10),
            ));
            assert(region.take(k as int + 1) =~= region.take(k as int).push(region[k as int]));
            assert(region.take(k as int + 1) == dec_bytes(acc as int));
        }
        k += 1;
    }
    proof {
        assert(region.take(k as int) =~= region);
        assert(b@ =~= counter_json(acc as int));
        assert forall|n: i32| 0 <= n && b@ == counter_json(n as int) implies n == acc by {
            lemma_counter_json_injective(n as int, acc as int);
        }
    }
    Some(acc)
}

} // verus!
