//! The action dispatcher: parses the selector, validates the input shape,
//! routes to the matching action handler, consults or mutates the ledger,
//! prices the operation, assembles the event records, and packages the
//! outcome. Ledger failures pass through the error translator and come back
//! as structured failure values, never as faults.

use crate::codec::{addr_eq, is_amount_word, word_value, Address, EvmDataReader, EvmDataWriter};
use crate::gas::{spec_weight_to_gas, weight_to_gas};
use crate::ledger::{approve_transition, transfer_transition, Ledger, LedgerError};
use crate::logs::{
    approval_topic_seq, is_token_log, selector_log_approval, selector_log_transfer,
    transfer_topic_seq, Log, LogsBuilder,
};
use vstd::prelude::*;

verus! {

/// The closed set of token actions.
#[derive(Clone, Copy, Debug, PartialEq, Eq)]
pub enum Action {
    TotalSupply,
    BalanceOf,
    Approve,
    Allowance,
    Transfer,
}

/// The 4-byte selectors, each the big-endian truncated hash of the action's
/// canonical signature text, fixed at build time.
pub const SELECTOR_TOTAL_SUPPLY: u32 = 0x18160ddd;

pub const SELECTOR_BALANCE_OF: u32 = 0x70a08231;

pub const SELECTOR_APPROVE: u32 = 0x095ea7b3;

pub const SELECTOR_ALLOWANCE: u32 = 0xdd62ed3e;

pub const SELECTOR_TRANSFER: u32 = 0xa9059cbb;

/// The action a selector routes to, if any.
pub open spec fn spec_action_of(sel: nat) -> Option<Action> {
    if sel == SELECTOR_TOTAL_SUPPLY {
        Some(Action::TotalSupply)
    } else if sel == SELECTOR_BALANCE_OF {
        Some(Action::BalanceOf)
    } else if sel == SELECTOR_APPROVE {
        Some(Action::Approve)
    } else if sel == SELECTOR_ALLOWANCE {
        Some(Action::Allowance)
    } else if sel == SELECTOR_TRANSFER {
        Some(Action::Transfer)
    } else {
        None
    }
}

/// Route a selector to its action.
pub fn action_of(sel: u32) -> (r: Option<Action>)
    ensures
        r == spec_action_of(sel as nat),
{
    if sel == SELECTOR_TOTAL_SUPPLY {
        Some(Action::TotalSupply)
    } else if sel == SELECTOR_BALANCE_OF {
        Some(Action::BalanceOf)
    } else if sel == SELECTOR_APPROVE {
        Some(Action::Approve)
    } else if sel == SELECTOR_ALLOWANCE {
        Some(Action::Allowance)
    } else if sel == SELECTOR_TRANSFER {
        Some(Action::Transfer)
    } else {
        None
    }
}

impl Action {
    /// The selector that routes to this action.
    pub fn selector(&self) -> (r: u32)
        ensures
            spec_action_of(r as nat) == Some(*self),
    {
        match self {
            Action::TotalSupply => SELECTOR_TOTAL_SUPPLY,
            Action::BalanceOf => SELECTOR_BALANCE_OF,
            Action::Approve => SELECTOR_APPROVE,
            Action::Allowance => SELECTOR_ALLOWANCE,
            Action::Transfer => SELECTOR_TRANSFER,
        }
    }
}

/// A failed call. Dispatcher-internal failures carry a short fixed
/// diagnostic; ledger dispatch failures carry the ledger's own error.
#[derive(Clone, Copy, Debug, PartialEq, Eq)]
pub enum Failure {
    SelectorTooShort,
    UnknownSelector,
    MalformedInput,
    OutOfGas,
    LedgerDispatchFailed(LedgerError),
}

impl Failure {
    /// The human-readable diagnostic text of this failure; a ledger dispatch
    /// failure names the ledger's reported error.
    pub fn diagnostic(&self) -> (r: &'static str)
        ensures
            match *self {
                Failure::SelectorTooShort => r@ == "tried to parse selector out of bounds"@,
                Failure::UnknownSelector => r@ == "unknown selector"@,
                Failure::MalformedInput => r@ == "input doesn't match expected length"@,
                Failure::OutOfGas => r@ == "out of gas"@,
                Failure::LedgerDispatchFailed(e) => match e {
                    LedgerError::InsufficientBalance => r@
                        == "Dispatched call failed with error: DispatchErrorWithPostInfo { error: InsufficientBalance }"@,
                    LedgerError::BalanceOverflow => r@
                        == "Dispatched call failed with error: DispatchErrorWithPostInfo { error: Arithmetic(Overflow) }"@,
                },
            },
    {
        match self {
            Failure::SelectorTooShort => "tried to parse selector out of bounds",
            Failure::UnknownSelector => "unknown selector",
            Failure::MalformedInput => "input doesn't match expected length",
            Failure::OutOfGas => "out of gas",
            Failure::LedgerDispatchFailed(LedgerError::InsufficientBalance) => "Dispatched call failed with error: DispatchErrorWithPostInfo { error: InsufficientBalance }",
            Failure::LedgerDispatchFailed(LedgerError::BalanceOverflow) => "Dispatched call failed with error: DispatchErrorWithPostInfo { error: Arithmetic(Overflow) }",
        }
    }
}

/// The call context the virtual machine supplies.
#[derive(Clone, Copy, Debug, PartialEq, Eq)]
pub struct Context {
    pub address: Address,
    pub caller: Address,
    pub apparent_value: u128,
}

/// How a successful call returned.
#[derive(Clone, Copy, Debug, PartialEq, Eq)]
pub enum ExitSucceed {
    Returned,
}

/// The structured outcome of one successfully dispatched call.
#[derive(Debug, PartialEq, Eq)]
pub struct PrecompileOutput {
    pub exit_status: ExitSucceed,
    pub output: Vec<u8>,
    pub cost: u64,
    pub logs: Vec<Log>,
}

/// The selector of an input holding at least 4 bytes.
pub open spec fn spec_selector_of(input: Seq<u8>) -> nat {
    word_value(input.subrange(0, 4))
}

/// The input holds at least `n` 32-byte argument words after the selector.
pub open spec fn has_arg_words(input: Seq<u8>, n: int) -> bool {
    input.len() >= 4 + 32 * n
}

/// The address held by the `k`-th argument word: its low 20 bytes.
pub open spec fn arg_address(input: Seq<u8>, k: int) -> Seq<u8> {
    input.subrange(4 + 32 * k + 12, 4 + 32 * (k + 1))
}

/// Whether the `k`-th argument word fits the ledger's amount type: its high
/// 16 bytes are zero.
pub open spec fn arg_amount_fits(input: Seq<u8>, k: int) -> bool {
    forall|i: int| 4 + 32 * k <= i < 4 + 32 * k + 16 ==> input[i] == 0
}

/// The amount held by the `k`-th argument word.
pub open spec fn arg_amount(input: Seq<u8>, k: int) -> nat {
    word_value(input.subrange(4 + 32 * k + 16, 4 + 32 * (k + 1)))
}

/// Whether a supplied gas limit cannot cover `cost`.
pub open spec fn gas_insufficient(target_gas: Option<u64>, cost: u64) -> bool {
    target_gas matches Some(limit) && cost > limit
}

/// A read-only action's outcome: the queried value as one ABI word, zero
/// intrinsic cost beyond decoding, no events.
pub open spec fn read_outcome(o: PrecompileOutput, v: nat) -> bool {
    &&& o.exit_status == ExitSucceed::Returned
    &&& is_amount_word(o.output@, v)
    &&& o.cost == 0
    &&& o.logs@.len() == 0
}

/// A mutating action's outcome: an empty return payload, the converted
/// dispatch cost, and exactly one token event record.
pub open spec fn mutate_outcome(
    o: PrecompileOutput,
    cost: u64,
    emitter: Seq<u8>,
    topic0: Seq<u8>,
    a1: Seq<u8>,
    a2: Seq<u8>,
    amount: nat,
) -> bool {
    &&& o.exit_status == ExitSucceed::Returned
    &&& o.output@.len() == 0
    &&& o.cost == cost
    &&& o.logs@.len() == 1
    &&& is_token_log(o.logs@[0], emitter, topic0, a1, a2, amount)
}

/// The precompile registry: the bridge bound to one precompile address, with
/// the configured weight-to-gas conversion ratio.
pub struct Precompiles {
    pub address: Address,
    pub weight_to_gas_ratio: u64,
}

impl Precompiles {
    pub fn new(address: Address, weight_to_gas_ratio: u64) -> (r: Self)
        ensures
            r.address == address,
            r.weight_to_gas_ratio == weight_to_gas_ratio,
    {
        Precompiles { address, weight_to_gas_ratio }
    }

    /// Everything `execute` promises of one dispatched call: how the input
    /// routes, which failure each malformed or rejected input earns, how the
    /// ledger moves, and what outcome bytes, cost and events come back.
    pub open spec fn dispatch_post(
        &self,
        target: Address,
        input: Seq<u8>,
        target_gas: Option<u64>,
        context: Context,
        l0: Ledger,
        l1: Ledger,
        r: Option<Result<PrecompileOutput, Failure>>,
    ) -> bool {
        if target@ != self.address@ {
            r == None::<Result<PrecompileOutput, Failure>> && l1 == l0
        } else if input.len() < 4 {
            r == Some(Err::<PrecompileOutput, Failure>(Failure::SelectorTooShort)) && l1 == l0
        } else {
            match spec_action_of(spec_selector_of(input)) {
                None => r == Some(Err::<PrecompileOutput, Failure>(Failure::UnknownSelector)) && l1
                    == l0,
                Some(Action::TotalSupply) => l1 == l0 && (r matches Some(Ok(o)) && read_outcome(
                    o,
                    l0.total_issuance as nat,
                )),
                Some(Action::BalanceOf) => l1 == l0 && if !has_arg_words(input, 1) {
                    r == Some(Err::<PrecompileOutput, Failure>(Failure::MalformedInput))
                } else {
                    r matches Some(Ok(o)) && read_outcome(
                        o,
                        l0.spec_balance(arg_address(input, 0)) as nat,
                    )
                },
                Some(Action::Allowance) => l1 == l0 && if !has_arg_words(input, 2) {
                    r == Some(Err::<PrecompileOutput, Failure>(Failure::MalformedInput))
                } else {
                    r matches Some(Ok(o)) && read_outcome(
                        o,
                        l0.spec_allowance(arg_address(input, 0), arg_address(input, 1)) as nat,
                    )
                },
                Some(Action::Approve) => {
                    if !has_arg_words(input, 2) || !arg_amount_fits(input, 1) {
                        r == Some(Err::<PrecompileOutput, Failure>(Failure::MalformedInput)) && l1
                            == l0
                    } else {
                        let spender = arg_address(input, 0);
                        let amount = arg_amount(input, 1);
                        let cost = spec_weight_to_gas(l0.approve_weight, self.weight_to_gas_ratio);
                        if gas_insufficient(target_gas, cost) {
                            r == Some(Err::<PrecompileOutput, Failure>(Failure::OutOfGas)) && l1
                                == l0
                        } else {
                            &&& (r matches Some(Ok(o)) && mutate_outcome(
                                o,
                                cost,
                                self.address@,
                                approval_topic_seq(),
                                context.caller@,
                                spender,
                                amount,
                            ))
                            &&& approve_transition(
                                l0,
                                l1,
                                context.caller@,
                                spender,
                                amount as u128,
                            )
                        }
                    }
                },
                Some(Action::Transfer) => {
                    if !has_arg_words(input, 2) || !arg_amount_fits(input, 1) {
                        r == Some(Err::<PrecompileOutput, Failure>(Failure::MalformedInput)) && l1
                            == l0
                    } else {
                        let to = arg_address(input, 0);
                        let amount = arg_amount(input, 1);
                        let cost = spec_weight_to_gas(
                            l0.transfer_weight,
                            self.weight_to_gas_ratio,
                        );
                        if gas_insufficient(target_gas, cost) {
                            r == Some(Err::<PrecompileOutput, Failure>(Failure::OutOfGas)) && l1
                                == l0
                        } else if amount > l0.spec_balance(context.caller@) {
                            r == Some(
                                Err::<PrecompileOutput, Failure>(
                                    Failure::LedgerDispatchFailed(LedgerError::InsufficientBalance),
                                ),
                            ) && l1 == l0
                        } else if context.caller@ != to && l0.spec_balance(to) + amount
                            > u128::MAX {
                            r == Some(
                                Err::<PrecompileOutput, Failure>(
                                    Failure::LedgerDispatchFailed(LedgerError::BalanceOverflow),
                                ),
                            ) && l1 == l0
                        } else {
                            &&& (r matches Some(Ok(o)) && mutate_outcome(
                                o,
                                cost,
                                self.address@,
                                transfer_topic_seq(),
                                context.caller@,
                                to,
                                amount,
                            ))
                            &&& transfer_transition(l0, l1, context.caller@, to, amount as u128)
                        }
                    }
                },
            }
        }
    }

    /// Dispatch one inbound call against the ledger. Returns `None` only
    /// when `target` is not the bound precompile address; otherwise exactly
    /// one structured outcome or failure value.
    pub fn execute(
        &self,
        target: &Address,
        input: &[u8],
        target_gas: Option<u64>,
        context: &Context,
        ledger: &mut Ledger,
    ) -> (r: Option<Result<PrecompileOutput, Failure>>)
        ensures
            self.dispatch_post(
                *target,
                input@,
                target_gas,
                *context,
                *old(ledger),
                *final(ledger),
                r,
            ),
    {
        if !addr_eq(target, &self.address) {
            return None;
        }
        let mut reader = EvmDataReader::new(input);
        let sel = match reader.read_selector() {
            Ok(s) => s,
            Err(_) => {
                return Some(Err(Failure::SelectorTooShort));
            },
        };
        let action = match action_of(sel) {
            Some(a) => a,
            None => {
                return Some(Err(Failure::UnknownSelector));
            },
        };
        match action {
            Action::TotalSupply => {
                let total = ledger.total_supply();
                let output = EvmDataWriter::new().write_amount(total).build();
                proof {
                    assert(output@.subrange(0, 32) =~= output@);
                }
                Some(
                    Ok(
                        PrecompileOutput {
                            exit_status: ExitSucceed::Returned,
                            output,
                            cost: 0,
                            logs: Vec::new(),
                        },
                    ),
                )
            },
            Action::BalanceOf => {
                let who = match reader.read_address() {
                    Ok(a) => a,
                    Err(_) => {
                        return Some(Err(Failure::MalformedInput));
                    },
                };
                proof {
                    assert(who@ == arg_address(input@, 0));
                }
                let bal = ledger.balance_of(&who);
                let output = EvmDataWriter::new().write_amount(bal).build();
                proof {
                    assert(output@.subrange(0, 32) =~= output@);
                }
                Some(
                    Ok(
                        PrecompileOutput {
                            exit_status: ExitSucceed::Returned,
                            output,
                            cost: 0,
                            logs: Vec::new(),
                        },
                    ),
                )
            },
            Action::Allowance => {
                let owner = match reader.read_address() {
                    Ok(a) => a,
                    Err(_) => {
                        return Some(Err(Failure::MalformedInput));
                    },
                };
                let spender = match reader.read_address() {
                    Ok(a) => a,
                    Err(_) => {
                        return Some(Err(Failure::MalformedInput));
                    },
                };
                proof {
                    assert(owner@ == arg_address(input@, 0));
                    assert(spender@ == arg_address(input@, 1));
                }
                let value = ledger.allowance(&owner, &spender);
                let output = EvmDataWriter::new().write_amount(value).build();
                proof {
                    assert(output@.subrange(0, 32) =~= output@);
                }
                Some(
                    Ok(
                        PrecompileOutput {
                            exit_status: ExitSucceed::Returned,
                            output,
                            cost: 0,
                            logs: Vec::new(),
                        },
                    ),
                )
            },
            Action::Approve => {
                let spender = match reader.read_address() {
                    Ok(a) => a,
                    Err(_) => {
                        return Some(Err(Failure::MalformedInput));
                    },
                };
                let amount = match reader.read_amount() {
                    Ok(v) => v,
                    Err(_) => {
                        return Some(Err(Failure::MalformedInput));
                    },
                };
                proof {
                    assert(spender@ == arg_address(input@, 0));
                    lemma_arg_word_at(input@, 1, 36);
                    assert(amount as nat == arg_amount(input@, 1));
                    assert forall|i: int| 4 + 32 * 1 <= i < 4 + 32 * 1 + 16 implies input@[i]
                        == 0 by {
                        assert(input@.subrange(36, 68)[i - 36] == 0);
                    }
                    assert(arg_amount_fits(input@, 1));
                }
                let cost = weight_to_gas(ledger.approve_weight, self.weight_to_gas_ratio);
                match target_gas {
                    Some(limit) => {
                        if cost > limit {
                            return Some(Err(Failure::OutOfGas));
                        }
                    },
                    None => {},
                }
                let _w = ledger.set_allowance(&context.caller, &spender, amount);
                let data = EvmDataWriter::new().write_amount(amount).build();
                proof {
                    assert(data@.subrange(0, 32) =~= data@);
                }
                let logs = LogsBuilder::new(self.address).log3(
                    selector_log_approval(),
                    &context.caller,
                    &spender,
                    data,
                ).build();
                proof {
                    assert(logs@[0] == logs@.last());
                }
                Some(
                    Ok(
                        PrecompileOutput {
                            exit_status: ExitSucceed::Returned,
                            output: Vec::new(),
                            cost,
                            logs,
                        },
                    ),
                )
            },
            Action::Transfer => {
                let to = match reader.read_address() {
                    Ok(a) => a,
                    Err(_) => {
                        return Some(Err(Failure::MalformedInput));
                    },
                };
                let amount = match reader.read_amount() {
                    Ok(v) => v,
                    Err(_) => {
                        return Some(Err(Failure::MalformedInput));
                    },
                };
                proof {
                    assert(to@ == arg_address(input@, 0));
                    lemma_arg_word_at(input@, 1, 36);
                    assert(amount as nat == arg_amount(input@, 1));
                    assert forall|i: int| 4 + 32 * 1 <= i < 4 + 32 * 1 + 16 implies input@[i]
                        == 0 by {
                        assert(input@.subrange(36, 68)[i - 36] == 0);
                    }
                    assert(arg_amount_fits(input@, 1));
                }
                let cost = weight_to_gas(ledger.transfer_weight, self.weight_to_gas_ratio);
                match target_gas {
                    Some(limit) => {
                        if cost > limit {
                            return Some(Err(Failure::OutOfGas));
                        }
                    },
                    None => {},
                }
                match ledger.transfer(&context.caller, &to, amount) {
                    Ok(_w) => {
                        let data = EvmDataWriter::new().write_amount(amount).build();
                        proof {
                            assert(data@.subrange(0, 32) =~= data@);
                        }
                        let logs = LogsBuilder::new(self.address).log3(
                            selector_log_transfer(),
                            &context.caller,
                            &to,
                            data,
                        ).build();
                        proof {
                            assert(logs@[0] == logs@.last());
                        }
                        Some(
                            Ok(
                                PrecompileOutput {
                                    exit_status: ExitSucceed::Returned,
                                    output: Vec::new(),
                                    cost,
                                    logs,
                                },
                            ),
                        )
                    },
                    Err(e) => Some(Err(Failure::LedgerDispatchFailed(e))),
                }
            },
        }
    }
}

/// Ties the reader's view of the amount word at byte offset `at` to the
/// argument-word model of the whole input.
proof fn lemma_arg_word_at(input: Seq<u8>, k: int, at: int)
    requires
        at == 4 + 32 * k,
        0 <= at,
        at + 32 <= input.len(),
    ensures
        input.subrange(at, at + 32).subrange(16, 32) == input.subrange(
            4 + 32 * k + 16,
            4 + 32 * (k + 1),
        ),
{
    assert(input.subrange(at, at + 32).subrange(16, 32) =~= input.subrange(
        4 + 32 * k + 16,
        4 + 32 * (k + 1),
    ));
}

} // verus!
