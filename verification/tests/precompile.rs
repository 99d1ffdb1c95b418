use balances_erc20::codec::{Address, EvmDataWriter};
use balances_erc20::dispatcher::{
    Action, Context, ExitSucceed, Failure, Precompiles, PrecompileOutput,
};
use balances_erc20::ledger::{Ledger, LedgerError};
use balances_erc20::logs::{selector_log_approval, selector_log_transfer, LogsBuilder};

const TRANSFER_WEIGHT: u64 = 198269756;
const APPROVE_WEIGHT: u64 = 1756;

fn alice() -> Address {
    Address([0xa1; 20])
}

fn bob() -> Address {
    Address([0xb0; 20])
}

fn precompile_address() -> Address {
    Address([0x50; 20])
}

fn context_from(caller: Address) -> Context {
    Context {
        address: precompile_address(),
        caller,
        apparent_value: 0,
    }
}

/// A precompile bound to the test address with a 1:1 weight-to-gas ratio,
/// and a ledger credited with the given balances.
fn setup(balances: &[(Address, u128)]) -> (Precompiles, Ledger) {
    let mut ledger = Ledger::new(TRANSFER_WEIGHT, APPROVE_WEIGHT);
    for (account, amount) in balances {
        ledger.credit(account, *amount);
    }
    (Precompiles::new(precompile_address(), 1), ledger)
}

#[test]
fn selector_less_than_four_bytes() {
    let (precompiles, mut ledger) = setup(&[]);
    // This selector is only three bytes long when four are required.
    let bogus_selector = vec![1u8, 2u8, 3u8];

    let result = precompiles.execute(
        &precompile_address(),
        &bogus_selector,
        None,
        &context_from(alice()),
        &mut ledger,
    );
    assert_eq!(result, Some(Err(Failure::SelectorTooShort)));
    assert_eq!(
        Failure::SelectorTooShort.diagnostic(),
        "tried to parse selector out of bounds"
    );
}

#[test]
fn no_selector_exists_but_length_is_right() {
    let (precompiles, mut ledger) = setup(&[]);
    let bogus_selector = vec![1u8, 2u8, 3u8, 4u8];

    let result = precompiles.execute(
        &precompile_address(),
        &bogus_selector,
        None,
        &context_from(alice()),
        &mut ledger,
    );
    assert_eq!(result, Some(Err(Failure::UnknownSelector)));
    assert_eq!(Failure::UnknownSelector.diagnostic(), "unknown selector");
}

#[test]
fn get_total_supply() {
    let (precompiles, mut ledger) = setup(&[(alice(), 1000), (bob(), 2500)]);

    let result = precompiles.execute(
        &precompile_address(),
        &EvmDataWriter::new()
            .write_selector(Action::TotalSupply.selector())
            .build(),
        None,
        &context_from(alice()),
        &mut ledger,
    );
    assert_eq!(
        result,
        Some(Ok(PrecompileOutput {
            exit_status: ExitSucceed::Returned,
            output: EvmDataWriter::new().write_amount(3500).build(),
            cost: 0,
            logs: vec![],
        }))
    );
}

#[test]
fn get_balances_known_user() {
    let (precompiles, mut ledger) = setup(&[(alice(), 1000)]);

    let result = precompiles.execute(
        &precompile_address(),
        &EvmDataWriter::new()
            .write_selector(Action::BalanceOf.selector())
            .write_address(&alice())
            .build(),
        None,
        &context_from(alice()),
        &mut ledger,
    );
    assert_eq!(
        result,
        Some(Ok(PrecompileOutput {
            exit_status: ExitSucceed::Returned,
            output: EvmDataWriter::new().write_amount(1000).build(),
            cost: 0,
            logs: vec![],
        }))
    );
}

#[test]
fn get_balances_unknown_user() {
    let (precompiles, mut ledger) = setup(&[(alice(), 1000)]);

    let result = precompiles.execute(
        &precompile_address(),
        &EvmDataWriter::new()
            .write_selector(Action::BalanceOf.selector())
            .write_address(&bob())
            .build(),
        None,
        &context_from(alice()),
        &mut ledger,
    );
    assert_eq!(
        result,
        Some(Ok(PrecompileOutput {
            exit_status: ExitSucceed::Returned,
            output: EvmDataWriter::new().write_amount(0).build(),
            cost: 0,
            logs: vec![],
        }))
    );
}

#[test]
fn approve() {
    let (precompiles, mut ledger) = setup(&[(alice(), 1000)]);

    let result = precompiles.execute(
        &precompile_address(),
        &EvmDataWriter::new()
            .write_selector(Action::Approve.selector())
            .write_address(&bob())
            .write_amount(500)
            .build(),
        None,
        &context_from(alice()),
        &mut ledger,
    );
    assert_eq!(
        result,
        Some(Ok(PrecompileOutput {
            exit_status: ExitSucceed::Returned,
            output: vec![],
            cost: 1756,
            logs: LogsBuilder::new(precompile_address())
                .log3(
                    selector_log_approval(),
                    &alice(),
                    &bob(),
                    EvmDataWriter::new().write_amount(500).build(),
                )
                .build(),
        }))
    );
}

#[test]
fn check_allowance_existing() {
    let (precompiles, mut ledger) = setup(&[(alice(), 1000)]);

    precompiles.execute(
        &precompile_address(),
        &EvmDataWriter::new()
            .write_selector(Action::Approve.selector())
            .write_address(&bob())
            .write_amount(500)
            .build(),
        None,
        &context_from(alice()),
        &mut ledger,
    );

    let result = precompiles.execute(
        &precompile_address(),
        &EvmDataWriter::new()
            .write_selector(Action::Allowance.selector())
            .write_address(&alice())
            .write_address(&bob())
            .build(),
        None,
        &context_from(alice()),
        &mut ledger,
    );
    assert_eq!(
        result,
        Some(Ok(PrecompileOutput {
            exit_status: ExitSucceed::Returned,
            output: EvmDataWriter::new().write_amount(500).build(),
            cost: 0,
            logs: vec![],
        }))
    );
}

#[test]
fn check_allowance_not_existing() {
    let (precompiles, mut ledger) = setup(&[(alice(), 1000)]);

    let result = precompiles.execute(
        &precompile_address(),
        &EvmDataWriter::new()
            .write_selector(Action::Allowance.selector())
            .write_address(&alice())
            .write_address(&bob())
            .build(),
        None,
        &context_from(alice()),
        &mut ledger,
    );
    assert_eq!(
        result,
        Some(Ok(PrecompileOutput {
            exit_status: ExitSucceed::Returned,
            output: EvmDataWriter::new().write_amount(0).build(),
            cost: 0,
            logs: vec![],
        }))
    );
}

#[test]
fn transfer() {
    let (precompiles, mut ledger) = setup(&[(alice(), 1000)]);

    let result = precompiles.execute(
        &precompile_address(),
        &EvmDataWriter::new()
            .write_selector(Action::Transfer.selector())
            .write_address(&bob())
            .write_amount(400)
            .build(),
        None,
        &context_from(alice()),
        &mut ledger,
    );
    assert_eq!(
        result,
        Some(Ok(PrecompileOutput {
            exit_status: ExitSucceed::Returned,
            output: vec![],
            cost: 198269756, // 1 weight => 1 gas in this setup
            logs: LogsBuilder::new(precompile_address())
                .log3(
                    selector_log_transfer(),
                    &alice(),
                    &bob(),
                    EvmDataWriter::new().write_amount(400).build(),
                )
                .build(),
        }))
    );
}

#[test]
fn transfer_not_enough_founds() {
    let (precompiles, mut ledger) = setup(&[(alice(), 1000)]);

    let result = precompiles.execute(
        &precompile_address(),
        &EvmDataWriter::new()
            .write_selector(Action::Transfer.selector())
            .write_address(&bob())
            .write_amount(1400)
            .build(),
        None,
        &context_from(alice()),
        &mut ledger,
    );
    match result {
        Some(Err(failure)) => {
            let text = failure.diagnostic();
            assert!(
                text.contains("Dispatched call failed with error: DispatchErrorWithPostInfo")
                    && text.contains("InsufficientBalance"),
                "unexpected diagnostic: {text}"
            );
        }
        other => panic!("expected a failure, got {other:?}"),
    }
}

#[test]
fn transfer_moves_balances() {
    let (precompiles, mut ledger) = setup(&[(alice(), 1000)]);

    precompiles.execute(
        &precompile_address(),
        &EvmDataWriter::new()
            .write_selector(Action::Transfer.selector())
            .write_address(&bob())
            .write_amount(400)
            .build(),
        None,
        &context_from(alice()),
        &mut ledger,
    );
    assert_eq!(ledger.balance_of(&alice()), 600);
    assert_eq!(ledger.balance_of(&bob()), 400);
    assert_eq!(ledger.total_supply(), 1000);
}

#[test]
fn failed_transfer_leaves_balances_unchanged() {
    let (precompiles, mut ledger) = setup(&[(alice(), 1000)]);

    let result = precompiles.execute(
        &precompile_address(),
        &EvmDataWriter::new()
            .write_selector(Action::Transfer.selector())
            .write_address(&bob())
            .write_amount(1400)
            .build(),
        None,
        &context_from(alice()),
        &mut ledger,
    );
    assert_eq!(
        result,
        Some(Err(Failure::LedgerDispatchFailed(
            LedgerError::InsufficientBalance
        )))
    );
    assert_eq!(ledger.balance_of(&alice()), 1000);
    assert_eq!(ledger.balance_of(&bob()), 0);
}

#[test]
fn approve_overwrites_previous_allowance() {
    let (precompiles, mut ledger) = setup(&[(alice(), 1000)]);

    for amount in [500u128, 300u128] {
        precompiles.execute(
            &precompile_address(),
            &EvmDataWriter::new()
                .write_selector(Action::Approve.selector())
                .write_address(&bob())
                .write_amount(amount)
                .build(),
            None,
            &context_from(alice()),
            &mut ledger,
        );
    }
    assert_eq!(ledger.allowance(&alice(), &bob()), 300);
}

#[test]
fn transfer_out_of_gas() {
    let (precompiles, mut ledger) = setup(&[(alice(), 1000)]);

    let result = precompiles.execute(
        &precompile_address(),
        &EvmDataWriter::new()
            .write_selector(Action::Transfer.selector())
            .write_address(&bob())
            .write_amount(400)
            .build(),
        Some(100),
        &context_from(alice()),
        &mut ledger,
    );
    assert_eq!(result, Some(Err(Failure::OutOfGas)));
    assert_eq!(ledger.balance_of(&alice()), 1000);
    assert_eq!(ledger.balance_of(&bob()), 0);
}

#[test]
fn approve_out_of_gas_boundary() {
    let (precompiles, mut ledger) = setup(&[(alice(), 1000)]);
    let input = EvmDataWriter::new()
        .write_selector(Action::Approve.selector())
        .write_address(&bob())
        .write_amount(500)
        .build();

    let short = precompiles.execute(
        &precompile_address(),
        &input,
        Some(1755),
        &context_from(alice()),
        &mut ledger,
    );
    assert_eq!(short, Some(Err(Failure::OutOfGas)));
    assert_eq!(ledger.allowance(&alice(), &bob()), 0);

    let exact = precompiles.execute(
        &precompile_address(),
        &input,
        Some(1756),
        &context_from(alice()),
        &mut ledger,
    );
    assert!(matches!(exact, Some(Ok(_))));
    assert_eq!(ledger.allowance(&alice(), &bob()), 500);
}

#[test]
fn transfer_wrong_word_count() {
    let (precompiles, mut ledger) = setup(&[(alice(), 1000)]);

    let result = precompiles.execute(
        &precompile_address(),
        &EvmDataWriter::new()
            .write_selector(Action::Transfer.selector())
            .write_address(&bob())
            .build(),
        None,
        &context_from(alice()),
        &mut ledger,
    );
    assert_eq!(result, Some(Err(Failure::MalformedInput)));
}

#[test]
fn transfer_amount_too_wide() {
    let (precompiles, mut ledger) = setup(&[(alice(), 1000)]);
    let mut input = EvmDataWriter::new()
        .write_selector(Action::Transfer.selector())
        .write_address(&bob())
        .write_amount(400)
        .build();
    // Poison the amount word's high half: wider than the ledger's type.
    input[36] = 1;

    let result = precompiles.execute(
        &precompile_address(),
        &input,
        None,
        &context_from(alice()),
        &mut ledger,
    );
    assert_eq!(result, Some(Err(Failure::MalformedInput)));
}

#[test]
fn transfer_receiver_balance_overflow() {
    let (precompiles, mut ledger) = setup(&[]);
    ledger.balances.push((alice(), 1000));
    ledger.balances.push((bob(), u128::MAX));
    ledger.total_issuance = u128::MAX;

    let result = precompiles.execute(
        &precompile_address(),
        &EvmDataWriter::new()
            .write_selector(Action::Transfer.selector())
            .write_address(&bob())
            .write_amount(1000)
            .build(),
        None,
        &context_from(alice()),
        &mut ledger,
    );
    assert_eq!(
        result,
        Some(Err(Failure::LedgerDispatchFailed(
            LedgerError::BalanceOverflow
        )))
    );
    assert_eq!(ledger.balance_of(&alice()), 1000);
    assert_eq!(ledger.balance_of(&bob()), u128::MAX);
}

#[test]
fn transfer_to_self_keeps_balance() {
    let (precompiles, mut ledger) = setup(&[(alice(), 1000)]);

    let result = precompiles.execute(
        &precompile_address(),
        &EvmDataWriter::new()
            .write_selector(Action::Transfer.selector())
            .write_address(&alice())
            .write_amount(400)
            .build(),
        None,
        &context_from(alice()),
        &mut ledger,
    );
    assert!(matches!(result, Some(Ok(_))));
    assert_eq!(ledger.balance_of(&alice()), 1000);
}

#[test]
fn unbound_address_is_not_handled() {
    let (precompiles, mut ledger) = setup(&[(alice(), 1000)]);

    let result = precompiles.execute(
        &bob(),
        &EvmDataWriter::new()
            .write_selector(Action::TotalSupply.selector())
            .build(),
        None,
        &context_from(alice()),
        &mut ledger,
    );
    assert_eq!(result, None);
}

#[test]
fn transfer_log_shape() {
    let (precompiles, mut ledger) = setup(&[(alice(), 1000)]);

    let result = precompiles.execute(
        &precompile_address(),
        &EvmDataWriter::new()
            .write_selector(Action::Transfer.selector())
            .write_address(&bob())
            .write_amount(400)
            .build(),
        None,
        &context_from(alice()),
        &mut ledger,
    );
    let output = result.unwrap().unwrap();
    assert_eq!(output.logs.len(), 1);
    let log = &output.logs[0];
    assert_eq!(log.address, precompile_address());
    assert_eq!(log.topics.len(), 3);
    assert_eq!(log.topics[0], selector_log_transfer());
    assert_eq!(&log.topics[1][0..12], &[0u8; 12]);
    assert_eq!(&log.topics[1][12..32], &alice().0);
    assert_eq!(&log.topics[2][12..32], &bob().0);
    assert_eq!(log.data, EvmDataWriter::new().write_amount(400).build());
}
