use vstd::prelude::*;

use crate::ledger::approve_applied;
use crate::ledger::transfer_applied;
use crate::ledger::transfer_from_applied;
use crate::ledger::ERC20;

verus! {

/// One step of a supply-conserving call sequence: a completed transfer,
/// delegated transfer or approval — or an aborted call, which leaves the
/// ledger exactly as it was. Mint and burn are deliberately absent: they are
/// the only operations allowed to change the supply.
pub open spec fn conserving_step(pre: ERC20, post: ERC20) -> bool {
    ||| exists|caller: Seq<char>, to: Seq<char>, value: u128|
        transfer_applied(pre, post, caller, to, value)
    ||| exists|caller: Seq<char>, from: Seq<char>, to: Seq<char>, value: u128|
        transfer_from_applied(pre, post, caller, from, to, value)
    ||| exists|caller: Seq<char>, spender: Seq<char>, value: u128|
        approve_applied(pre, post, caller, spender, value)
    ||| post == pre
}

/// One conserving step out of a well-formed ledger keeps it well formed and
/// leaves the total supply and the sum of all balances unchanged.
pub proof fn lemma_step_conserves_supply(pre: ERC20, post: ERC20)
    requires
        pre.wf(),
        conserving_step(pre, post),
    ensures
        post.wf(),
        post.spec_total_supply() == pre.spec_total_supply(),
        post.spec_sum_balances() == pre.spec_sum_balances(),
{
    if exists|caller: Seq<char>, to: Seq<char>, value: u128|
        transfer_applied(pre, post, caller, to, value) {
        let (caller, to, value) = choose|caller: Seq<char>, to: Seq<char>, value: u128|
            transfer_applied(pre, post, caller, to, value);
    } else if exists|caller: Seq<char>, from: Seq<char>, to: Seq<char>, value: u128|
        transfer_from_applied(pre, post, caller, from, to, value) {
        let (caller, from, to, value) = choose|
            caller: Seq<char>,
            from: Seq<char>,
            to: Seq<char>,
            value: u128,
        | transfer_from_applied(pre, post, caller, from, to, value);
    } else if exists|caller: Seq<char>, spender: Seq<char>, value: u128|
        approve_applied(pre, post, caller, spender, value) {
        let (caller, spender, value) = choose|caller: Seq<char>, spender: Seq<char>, value: u128|
            approve_applied(pre, post, caller, spender, value);
    } else {
        assert(post == pre);
    }
    pre.lemma_supply_invariant();
    post.lemma_supply_invariant();
}

/// Conservation: along any sequence of transfer, transfer_from and approve
/// calls (completed or aborted — no mint, no burn) out of a well-formed
/// ledger, the sum of all balances never moves and stays equal to the total
/// supply recorded at the start.
pub proof fn lemma_conservation_over_trace(trace: Seq<ERC20>)
    requires
        trace.len() > 0,
        trace[0].wf(),
        forall|i: int|
            0 <= i < trace.len() - 1 ==> conserving_step(#[trigger] trace[i], trace[i + 1]),
    ensures
        forall|i: int| 0 <= i < trace.len() ==> (#[trigger] trace[i]).wf(),
        forall|i: int|
            0 <= i < trace.len() ==> (#[trigger] trace[i]).spec_total_supply()
                == trace[0].spec_total_supply(),
        forall|i: int|
            0 <= i < trace.len() ==> (#[trigger] trace[i]).spec_sum_balances()
                == trace[0].spec_total_supply() as int,
    decreases trace.len(),
{
    let n: int = trace.len() - 1;
    if n == 0 {
        trace[0].lemma_supply_invariant();
    } else {
        let prefix = trace.drop_last();
        assert(prefix[0] == trace[0]);
        assert forall|i: int|
            0 <= i < prefix.len() - 1 implies conserving_step(#[trigger] prefix[i], prefix[i + 1]) by {
            assert(prefix[i] == trace[i]);
            assert(prefix[i + 1] == trace[i + 1]);
        }
        lemma_conservation_over_trace(prefix);
        assert(prefix[n - 1] == trace[n - 1]);
        lemma_step_conserves_supply(trace[n - 1], trace[n]);
        trace[n].lemma_supply_invariant();
        assert forall|i: int| 0 <= i < trace.len() implies (#[trigger] trace[i]).wf() by {
            if i < n {
                assert(prefix[i] == trace[i]);
            }
        }
        assert forall|i: int|
            0 <= i < trace.len() implies (#[trigger] trace[i]).spec_total_supply()
            == trace[0].spec_total_supply() by {
            if i < n {
                assert(prefix[i] == trace[i]);
            }
        }
        assert forall|i: int|
            0 <= i < trace.len() implies (#[trigger] trace[i]).spec_sum_balances()
            == trace[0].spec_total_supply() as int by {
            if i < n {
                assert(prefix[i] == trace[i]);
            }
        }
    }
}

/// Approvals overwrite: after approving `spender` for `v1` and then for
/// `v2`, the remaining allowance is exactly `v2`, never `v1 + v2`.
pub proof fn lemma_approve_overwrite(
    l0: ERC20,
    l1: ERC20,
    l2: ERC20,
    owner: Seq<char>,
    spender: Seq<char>,
    v1: u128,
    v2: u128,
)
    requires
        approve_applied(l0, l1, owner, spender, v1),
        approve_applied(l1, l2, owner, spender, v2),
    ensures
        l2.spec_allowance(owner, spender) == v2,
{
}

/// A delegated transfer consumes its approval exactly: after `owner`
/// approves `spender` for `v1` and `spender` then completes a delegated
/// transfer of `v2` out of `owner`, the remaining allowance is `v1 - v2`
/// (and the transfer could only complete with `v2 <= v1`).
pub proof fn lemma_allowance_decrement(
    l0: ERC20,
    l1: ERC20,
    l2: ERC20,
    owner: Seq<char>,
    spender: Seq<char>,
    recipient: Seq<char>,
    v1: u128,
    v2: u128,
)
    requires
        approve_applied(l0, l1, owner, spender, v1),
        transfer_from_applied(l1, l2, spender, owner, recipient, v2),
    ensures
        v2 <= v1,
        l2.spec_allowance(owner, spender) == v1 - v2,
{
    assert(l1.spec_allowance(owner, spender) == v1);
}

} // verus!
