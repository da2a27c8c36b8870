//! Layout of call inputs in guest memory.
//!
//! The sandboxed execution environment copies serialized inputs into one
//! flat guest memory; each input is handed to the guest as an offset and
//! a length.  The offsets are cumulative sums of the lengths placed
//! before them, starting at zero.  Growing the memory is a ceiling
//! division of the missing bytes by the page size.

use vstd::prelude::*;

verus! {

/// The size of one guest memory page, in bytes.
pub const WASM_PAGE_SIZE: u64 = 65536;

/// Where a transaction call finds its input.
pub struct TxCallInput {
    pub tx_data_ptr: u64,
    pub tx_data_len: u64,
}

/// Where a validity predicate call finds its four inputs.
#[derive(Clone, Copy, Debug)]
pub struct VpCallInput {
    pub addr_ptr: u64,
    pub addr_len: u64,
    pub tx_data_ptr: u64,
    pub tx_data_len: u64,
    pub keys_changed_ptr: u64,
    pub keys_changed_len: u64,
    pub verifiers_ptr: u64,
    pub verifiers_len: u64,
}

/// Where a matchmaker call finds its two inputs.
pub struct MatchmakerCallInput {
    pub intent_data_1_ptr: u64,
    pub intent_data_1_len: u64,
    pub intent_data_2_ptr: u64,
    pub intent_data_2_len: u64,
}

/// The transaction input lies at the start of guest memory.
pub fn tx_input_layout(tx_data_len: u64) -> (r: TxCallInput)
    ensures
        r.tx_data_ptr == 0,
        r.tx_data_len == tx_data_len,
{
    TxCallInput { tx_data_ptr: 0, tx_data_len }
}

/// The four validity predicate inputs lie back to back from the start of
/// guest memory: address, transaction data, changed keys, verifiers.
pub fn vp_input_layout(addr_len: u64, tx_data_len: u64, keys_changed_len: u64, verifiers_len: u64)
    -> (r: VpCallInput)
    requires
        addr_len + tx_data_len + keys_changed_len + verifiers_len < 0x1_0000_0000_0000_0000,
    ensures
        r.addr_ptr == 0,
        r.addr_len == addr_len,
        r.tx_data_ptr == addr_len,
        r.tx_data_len == tx_data_len,
        r.keys_changed_ptr == addr_len + tx_data_len,
        r.keys_changed_len == keys_changed_len,
        r.verifiers_ptr == addr_len + tx_data_len + keys_changed_len,
        r.verifiers_len == verifiers_len,
{
    let addr_ptr: u64 = 0;
    let tx_data_ptr = addr_ptr + addr_len;
    let keys_changed_ptr = tx_data_ptr + tx_data_len;
    let verifiers_ptr = keys_changed_ptr + keys_changed_len;
    VpCallInput {
        addr_ptr,
        addr_len,
        tx_data_ptr,
        tx_data_len,
        keys_changed_ptr,
        keys_changed_len,
        verifiers_ptr,
        verifiers_len,
    }
}

/// The two matchmaker inputs lie back to back from the start of guest
/// memory.
pub fn matchmaker_input_layout(intent_data_1_len: u64, intent_data_2_len: u64) -> (r:
    MatchmakerCallInput)
    requires
        intent_data_1_len + intent_data_2_len < 0x1_0000_0000_0000_0000,
    ensures
        r.intent_data_1_ptr == 0,
        r.intent_data_1_len == intent_data_1_len,
        r.intent_data_2_ptr == intent_data_1_len,
        r.intent_data_2_len == intent_data_2_len,
{
    MatchmakerCallInput {
        intent_data_1_ptr: 0,
        intent_data_1_len,
        intent_data_2_ptr: intent_data_1_len,
        intent_data_2_len,
    }
}

/// How many pages the guest memory must grow by so that a write of `len`
/// bytes at `offset` fits: `None` when it already fits, else the least
/// page count that makes it fit.
pub fn required_pages(current_pages: u64, offset: u64, len: u64) -> (r: Option<u64>)
    requires
        current_pages <= 0x1_0000_0000,
        offset + len < 0x1_0000_0000_0000_0000,
    ensures
        r is None <==> offset + len <= current_pages * WASM_PAGE_SIZE,
        r matches Some(p) ==> {
            &&& (current_pages + p) * WASM_PAGE_SIZE >= offset + len
            &&& p > 0
            &&& (current_pages + p - 1) * WASM_PAGE_SIZE < offset + len
        },
{
    let capacity = current_pages * WASM_PAGE_SIZE;
    let end = offset + len;
    if end <= capacity {
        None
    } else {
        let missing = end - capacity;
        let p = (missing - 1) / WASM_PAGE_SIZE + 1;
        proof {
            assert((current_pages + p) * WASM_PAGE_SIZE >= end && (current_pages + p - 1)
                * WASM_PAGE_SIZE < end) by (nonlinear_arith)
                requires
                    capacity == current_pages * WASM_PAGE_SIZE,
                    end > capacity,
                    missing == end - capacity,
                    WASM_PAGE_SIZE == 65536,
                    p as int == (missing as int - 1) / (WASM_PAGE_SIZE as int) + 1,
            ;
        }
        Some(p)
    }
}

} // verus!
