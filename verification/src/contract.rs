use vstd::prelude::*;

use crate::codec::counter_json;
use crate::codec::decode_counter;
use crate::codec::encode_counter_response;
use crate::codec::lemma_counter_json_injective;
use crate::dec::dec_chars;
use crate::dec::i32_dec_string;
use crate::error::ContractError;
use crate::error::StdError;
use crate::msg::CounterResponse;
use crate::msg::ExecuteMsg;
use crate::msg::InstantiateMsg;
use crate::msg::QueryMsg;
use crate::response::counter_attr;
use crate::response::Response;
use crate::state::State;
use crate::store::lookup;
use crate::store::KvStore;

verus! {

/// The contents of a store, as the contracts below speak of them: the log
/// of write records, latest write winning (see [`lookup`]).
pub type StoreLog = Seq<(Vec<u8>, Vec<u8>)>;

/// The value a freshly initialized counter holds.
pub const ZERO_CODE: i32 = 0;

/// The fixed storage key of the counter state record: the bytes of `state`.
pub open spec fn state_key() -> Seq<u8> {
    seq![115u8, 116u8, 97u8, 116u8, 101u8]
}

/// The fixed metadata key of the version marker: the bytes of
/// `contract_info`.
pub open spec fn info_key() -> Seq<u8> {
    seq![
        99u8,
        111u8,
        110u8,
        116u8,
        114u8,
        97u8,
        99u8,
        116u8,
        95u8,
        105u8,
        110u8,
        102u8,
        111u8,
    ]
}

/// The version marker written once at initialization, byte for byte:
/// `{"contract":"crates.io:counter","version":"0.1.0"}`.
pub open spec fn version_record() -> Seq<u8> {
    seq![
        123u8,
        34u8,
        99u8,
        111u8,
        110u8,
        116u8,
        114u8,
        97u8,
        99u8,
        116u8,
        34u8,
        58u8,
        34u8,
        99u8,
        114u8,
        97u8,
        116u8,
        101u8,
        115u8,
        46u8,
        105u8,
        111u8,
        58u8,
        99u8,
        111u8,
        117u8,
        110u8,
        116u8,
        101u8,
        114u8,
        34u8,
        44u8,
        34u8,
        118u8,
        101u8,
        114u8,
        115u8,
        105u8,
        111u8,
        110u8,
        34u8,
        58u8,
        34u8,
        48u8,
        46u8,
        49u8,
        46u8,
        48u8,
        34u8,
        125u8,
    ]
}

/// The state key as a vector.
fn state_key_vec() -> (v: Vec<u8>)
    ensures
        v@ == state_key(),
{
    let mut v: Vec<u8> = Vec::new();
    v.push(115);
    v.push(116);
    v.push(97);
    v.push(116);
    v.push(101);
    proof {
        assert(v@ =~= state_key());
    }
    v
}

/// The metadata key as a vector.
fn info_key_vec() -> (v: Vec<u8>)
    ensures
        v@ == info_key(),
{
    let mut v: Vec<u8> = Vec::new();
    v.push(99);
    v.push(111);
    v.push(110);
    v.push(116);
    v.push(114);
    v.push(97);
    v.push(99);
    v.push(116);
    v.push(95);
    v.push(105);
    v.push(110);
    v.push(102);
    v.push(111);
    proof {
        assert(v@ =~= info_key());
    }
    v
}

/// The version marker as a vector.
#[verifier::rlimit(60)]
fn version_record_vec() -> (v: Vec<u8>)
    ensures
        v@ == version_record(),
{
    let mut v: Vec<u8> = Vec::new();
    v.push(123);
    v.push(34);
    v.push(99);
    v.push(111);
    v.push(110);
    v.push(116);
    v.push(114);
    v.push(97);
    v.push(99);
    v.push(116);
    v.push(34);
    v.push(58);
    v.push(34);
    v.push(99);
    v.push(114);
    v.push(97);
    v.push(116);
    v.push(101);
    v.push(115);
    v.push(46);
    v.push(105);
    v.push(111);
    v.push(58);
    v.push(99);
    v.push(111);
    v.push(117);
    v.push(110);
    v.push(116);
    v.push(101);
    v.push(114);
    v.push(34);
    v.push(44);
    v.push(34);
    v.push(118);
    v.push(101);
    v.push(114);
    v.push(115);
    v.push(105);
    v.push(111);
    v.push(110);
    v.push(34);
    v.push(58);
    v.push(34);
    v.push(48);
    v.push(46);
    v.push(49);
    v.push(46);
    v.push(48);
    v.push(34);
    v.push(125);
    proof {
        assert(v@ =~= version_record());
    }
    v
}

/// The bytes persisted at the state key, if any.
pub open spec fn state_bytes(s: StoreLog) -> Option<Seq<u8>> {
    lookup(s, state_key())
}

/// The store holds a well-formed counter record with value `n`.
pub open spec fn state_is(s: StoreLog, n: int) -> bool {
    0 <= n <= i32::MAX && state_bytes(s) == Some(counter_json(n))
}

/// No state record was ever written: the contract was not initialized.
pub open spec fn uninitialized(s: StoreLog) -> bool {
    state_bytes(s) is None
}

/// The store holds a well-formed counter record.
pub open spec fn well_formed_state(s: StoreLog) -> bool {
    exists|n: i32| state_is(s, n as int)
}

/// The state key holds bytes that are no well-formed counter record.
pub open spec fn corrupt(s: StoreLog) -> bool {
    state_bytes(s) is Some && !well_formed_state(s)
}

/// The counter after a successful update: one more, saturating at the
/// largest 32-bit value. The persisted format fixes the field as a 32-bit
/// signed integer; saturation is chosen so that the counter never decreases.
pub open spec fn inc_sat(n: int) -> int {
    if n < i32::MAX {
        n + 1
    } else {
        n
    }
}

/// What initialization does to the store: the version marker and a zero
/// counter are written; every other key keeps its value.
pub open spec fn init_transition(pre: StoreLog, post: StoreLog) -> bool {
    &&& state_is(post, 0)
    &&& lookup(post, info_key()) == Some(version_record())
    &&& forall|k: Seq<u8>|
        k != state_key() && k != info_key() ==> lookup(post, k) == lookup(pre, k)
}

/// What a successful update does to the store: the counter advances from
/// `n` to `inc_sat(n)`; every other key keeps its value.
pub open spec fn update_transition(pre: StoreLog, post: StoreLog, n: int) -> bool {
    &&& state_is(pre, n)
    &&& state_is(post, inc_sat(n))
    &&& forall|k: Seq<u8>| k != state_key() ==> lookup(post, k) == lookup(pre, k)
}

/// Some successful update relates the two stores.
pub open spec fn update_step(pre: StoreLog, post: StoreLog) -> bool {
    exists|n: i32| update_transition(pre, post, n as int)
}

/// Write the version marker at the metadata key, byte for byte as the host
/// tooling expects it.
fn set_contract_version(store: &mut KvStore)
    ensures
        lookup(final(store)@, info_key()) == Some(version_record()),
        forall|k: Seq<u8>|
            k != info_key() ==> lookup(final(store)@, k) == lookup(old(store)@, k),
{
    let key = info_key_vec();
    let val = version_record_vec();
    store.set(key, val);
}

/// Persist `state` at the state key.
fn save_state(store: &mut KvStore, state: &State)
    ensures
        lookup(final(store)@, state_key()) == Some(counter_json(state.counter as int)),
        forall|k: Seq<u8>|
            k != state_key() ==> lookup(final(store)@, k) == lookup(old(store)@, k),
{
    let key = state_key_vec();
    let val = crate::codec::encode_counter(state.counter);
    store.set(key, val);
}

/// Read the state record back from the store.
pub fn load_state(store: &KvStore) -> (r: Result<State, StdError>)
    ensures
        uninitialized(store@) ==> (r matches Err(e) && e == StdError::NotFound),
        corrupt(store@) ==> (r matches Err(e) && e == StdError::ParseErr),
        forall|n: i32|
            state_is(store@, n as int) ==> (r matches Ok(st) && st == (State { counter: n })),
        r matches Ok(st) ==> state_is(store@, st.counter as int),
{
    let key = state_key_vec();
    match store.get(&key) {
        None => Err(StdError::NotFound),
        Some(bytes) => {
            match decode_counter(&bytes) {
                Some(n) => {
                    proof {
                        assert(state_is(store@, n as int));
                        assert(well_formed_state(store@));
                        assert forall|m: i32| state_is(store@, m as int) implies m == n by {
                            lemma_counter_json_injective(m as int, n as int);
                        }
                    }
                    Ok(State { counter: n })
                },
                None => {
                    proof {
                        assert forall|m: i32| !state_is(store@, m as int) by {
                            if state_is(store@, m as int) {
                                assert(bytes@ == counter_json(m as int));
                            }
                        }
                    }
                    Err(StdError::ParseErr)
                },
            }
        },
    }
}

/// Initialize the contract: write the version marker and a zero counter,
/// and answer with the attribute pair `("counter", "0")`. A write to the
/// in-memory store cannot fail, so initialization always succeeds.
pub fn instantiate(store: &mut KvStore, msg: InstantiateMsg) -> (r: Result<
    Response,
    ContractError,
>)
    ensures
        init_transition(old(store)@, final(store)@),
        r matches Ok(resp) && counter_attr(resp, dec_chars(0)),
{
    set_contract_version(store);
    let state = State { counter: ZERO_CODE };
    save_state(store, &state);
    proof {
        assert(state_key().len() != info_key().len());
        assert(state_key() != info_key());
    }
    let resp = Response::new().add_attribute(String::from_str("counter"), i32_dec_string(
        ZERO_CODE,
    ));
    Ok(resp)
}

/// Advance the counter by one (saturating at the largest 32-bit value) and
/// answer with the attribute pair `("counter", <new value>)`. Fails with the
/// wrapped not-found error when the contract was never initialized, and with
/// the wrapped parse error when the state record is malformed; the store is
/// unchanged on failure.
pub fn try_update_counter(store: &mut KvStore) -> (r: Result<Response, ContractError>)
    ensures
        uninitialized(old(store)@) ==> (r matches Err(e) && e == ContractError::Std(
            StdError::NotFound,
        )) && final(store)@ == old(store)@,
        corrupt(old(store)@) ==> (r matches Err(e) && e == ContractError::Std(
            StdError::ParseErr,
        )) && final(store)@ == old(store)@,
        forall|n: i32|
            state_is(old(store)@, n as int) ==> update_transition(old(store)@, final(store)@, n as int),
        well_formed_state(old(store)@) <==> r is Ok,
        forall|n: i32|
            state_is(old(store)@, n as int) ==> (r matches Ok(resp) && counter_attr(
                resp,
                dec_chars(inc_sat(n as int)),
            )),
{
    let current_state = match load_state(store) {
        Ok(s) => s,
        Err(e) => {
            proof {
                assert(!well_formed_state(old(store)@));
            }
            return Err(ContractError::Std(e));
        },
    };
    proof {
        assert(state_is(old(store)@, current_state.counter as int));
        assert(well_formed_state(old(store)@));
    }
    let current_counter: i32 = current_state.counter;
    let next_counter: i32 = if current_counter < i32::MAX {
        current_counter + 1
    } else {
        current_counter
    };
    let new_state = State { counter: next_counter };
    save_state(store, &new_state);
    let resp = Response::new().add_attribute(
        String::from_str("counter"),
        i32_dec_string(next_counter),
    );
    Ok(resp)
}

/// Dispatch a mutating call: the one action is the counter update.
pub fn execute(store: &mut KvStore, msg: ExecuteMsg) -> (r: Result<Response, ContractError>)
    ensures
        uninitialized(old(store)@) ==> (r matches Err(e) && e == ContractError::Std(
            StdError::NotFound,
        )) && final(store)@ == old(store)@,
        corrupt(old(store)@) ==> (r matches Err(e) && e == ContractError::Std(
            StdError::ParseErr,
        )) && final(store)@ == old(store)@,
        forall|n: i32|
            state_is(old(store)@, n as int) ==> update_transition(old(store)@, final(store)@, n as int),
        well_formed_state(old(store)@) <==> r is Ok,
        forall|n: i32|
            state_is(old(store)@, n as int) ==> (r matches Ok(resp) && counter_attr(
                resp,
                dec_chars(inc_sat(n as int)),
            )),
{
    match msg {
        ExecuteMsg::Update {  } => try_update_counter(store),
    }
}

/// Read the current counter and serialize it as the query response. A pure
/// read: the store is borrowed immutably. Fails with the standard not-found
/// error when the contract was never initialized, and with the standard
/// parse error when the state record is malformed.
pub fn query_counter(store: &KvStore) -> (r: Result<Vec<u8>, StdError>)
    ensures
        uninitialized(store@) ==> (r matches Err(e) && e == StdError::NotFound),
        corrupt(store@) ==> (r matches Err(e) && e == StdError::ParseErr),
        forall|n: i32|
            state_is(store@, n as int) ==> (r matches Ok(b) && b@ == counter_json(n as int)),
        well_formed_state(store@) <==> r is Ok,
{
    let current_state = match load_state(store) {
        Ok(s) => s,
        Err(e) => {
            proof {
                assert(!well_formed_state(store@));
            }
            return Err(e);
        },
    };
    proof {
        assert(state_is(store@, current_state.counter as int));
        assert(well_formed_state(store@));
    }
    let resp = CounterResponse { counter: current_state.counter };
    Ok(encode_counter_response(&resp))
}

/// Dispatch a read-only call: the one query is the counter read.
pub fn query(store: &KvStore, msg: QueryMsg) -> (r: Result<Vec<u8>, StdError>)
    ensures
        uninitialized(store@) ==> (r matches Err(e) && e == StdError::NotFound),
        corrupt(store@) ==> (r matches Err(e) && e == StdError::ParseErr),
        forall|n: i32|
            state_is(store@, n as int) ==> (r matches Ok(b) && b@ == counter_json(n as int)),
        well_formed_state(store@) <==> r is Ok,
{
    match msg {
        QueryMsg::Counter {  } => query_counter(store),
    }
}

/// After initialization the store holds exactly the counter value zero:
/// neither missing nor malformed, so a following query must answer with the
/// encoding of zero and a following update must succeed.
pub proof fn lemma_initialize_reads_zero(pre: StoreLog, post: StoreLog)
    requires
        init_transition(pre, post),
    ensures
        state_is(post, 0),
        well_formed_state(post),
        !uninitialized(post),
        !corrupt(post),
{
    assert(state_is(post, 0i32 as int));
}

/// Read after write: a successful update from value `n` leaves the store
/// holding exactly `inc_sat(n)`, so an immediately following query reads
/// that value, with no staleness.
pub proof fn lemma_read_after_write(pre: StoreLog, post: StoreLog, n: int)
    requires
        update_transition(pre, post, n),
    ensures
        state_is(post, inc_sat(n)),
        well_formed_state(post),
        !uninitialized(post),
        !corrupt(post),
{
    let m: i32 = inc_sat(n) as i32;
    assert(state_is(post, m as int));
}

/// Monotonic increment: starting from a freshly initialized store, `n`
/// consecutive successful updates leave the counter at exactly `n`, with no
/// skips and no resets, as long as `n` stays within the counter's range.
pub proof fn lemma_monotonic_increment(stores: Seq<StoreLog>, n: nat)
    requires
        stores.len() == n + 1,
        state_is(stores[0], 0),
        forall|i: int| 0 <= i < n ==> #[trigger] update_step(stores[i], stores[i + 1]),
        n <= i32::MAX,
    ensures
        state_is(stores[n as int], n as int),
    decreases n,
{
    if n > 0 {
        let prefix = stores.drop_last();
        assert(prefix.len() == n);
        assert forall|i: int| 0 <= i < n - 1 implies #[trigger] update_step(prefix[i], prefix[i + 1]) by {
            assert(prefix[i] == stores[i]);
            assert(prefix[i + 1] == stores[i + 1]);
        }
        assert(prefix[0] == stores[0]);
        lemma_monotonic_increment(prefix, (n - 1) as nat);
        assert(state_is(stores[n - 1], n - 1));
        let pre_s = stores[n - 1];
        let post_s = stores[n as int];
        assert(update_step(stores[n - 1], stores[n - 1 + 1]));
        assert(stores[n - 1 + 1] == post_s);
        assert(update_step(pre_s, post_s));
        let m: i32 = choose|m: i32| #[trigger] update_transition(pre_s, post_s, m as int);
        lemma_counter_json_injective(m as int, n - 1);
        assert(m as int == n - 1);
        assert(inc_sat(m as int) == n as int);
    }
}

/// Response encoding stability: the bytes a query answers with for a store
/// holding `n` are exactly the direct encoding of the response structure
/// carrying `n` — byte for byte, not merely value-equal. Both are pinned to
/// `counter_json(n)`, the contract of [`encode_counter_response`].
pub proof fn lemma_response_encoding_stable(s: StoreLog, n: int)
    requires
        state_is(s, n),
    ensures
        state_bytes(s) == Some(counter_json(n)),
        !uninitialized(s),
        !corrupt(s),
{
    let m: i32 = n as i32;
    assert(state_is(s, m as int));
}

} // verus!
