use balances_erc20::codec::{Address, CodecError, EvmDataReader, EvmDataWriter};
use balances_erc20::currencies::{CurrencyId, GetDecimals, TokenSymbol};
use balances_erc20::gas::weight_to_gas;
use balances_erc20::logs::{selector_log_approval, selector_log_transfer, LogsBuilder};

#[test]
fn amount_word_layout() {
    let bytes = EvmDataWriter::new().write_amount(0x0102).build();
    assert_eq!(bytes.len(), 32);
    assert_eq!(&bytes[0..30], &[0u8; 30]);
    assert_eq!(bytes[30], 0x01);
    assert_eq!(bytes[31], 0x02);
}

#[test]
fn amount_word_round_trip() {
    for value in [0u128, 1, 255, 256, 3500, u128::MAX] {
        let bytes = EvmDataWriter::new().write_amount(value).build();
        let mut reader = EvmDataReader::new(&bytes);
        assert_eq!(reader.read_amount(), Ok(value));
    }
}

#[test]
fn selector_word_round_trip() {
    let bytes = EvmDataWriter::new().write_selector(0xa9059cbb).build();
    assert_eq!(bytes, vec![0xa9, 0x05, 0x9c, 0xbb]);
    let mut reader = EvmDataReader::new(&bytes);
    assert_eq!(reader.read_selector(), Ok(0xa9059cbb));
}

#[test]
fn reader_rejects_short_buffers() {
    let short = vec![1u8, 2u8, 3u8];
    let mut reader = EvmDataReader::new(&short);
    assert_eq!(reader.read_selector(), Err(CodecError::OutOfBounds));
    let mut reader = EvmDataReader::new(&short);
    assert_eq!(reader.read_amount(), Err(CodecError::OutOfBounds));
    let mut reader = EvmDataReader::new(&short);
    assert_eq!(reader.read_address(), Err(CodecError::OutOfBounds));
}

#[test]
fn reader_rejects_wide_amounts() {
    let mut word = vec![0u8; 32];
    word[15] = 1;
    let mut reader = EvmDataReader::new(&word);
    assert_eq!(reader.read_amount(), Err(CodecError::ValueTooLarge));
}

#[test]
fn address_words_are_zero_extended() {
    let address = Address([0x42; 20]);
    let bytes = EvmDataWriter::new().write_address(&address).build();
    assert_eq!(bytes.len(), 32);
    assert_eq!(&bytes[0..12], &[0u8; 12]);
    assert_eq!(&bytes[12..32], &address.0);
    let mut reader = EvmDataReader::new(&bytes);
    assert_eq!(reader.read_address(), Ok(address));
}

#[test]
fn weight_to_gas_applies_ratio() {
    assert_eq!(weight_to_gas(3, 7), 21);
    assert_eq!(weight_to_gas(198269756, 1), 198269756);
    assert_eq!(weight_to_gas(0, 5), 0);
}

#[test]
fn weight_to_gas_saturates() {
    assert_eq!(weight_to_gas(u64::MAX, 2), u64::MAX);
    assert_eq!(weight_to_gas(u64::MAX / 2 + 1, 2), u64::MAX);
}

#[test]
fn logs_keep_emission_order() {
    let emitter = Address([0x50; 20]);
    let first_data = EvmDataWriter::new().write_amount(1).build();
    let second_data = EvmDataWriter::new().write_amount(2).build();
    let logs = LogsBuilder::new(emitter)
        .log3(
            selector_log_approval(),
            &Address([1; 20]),
            &Address([2; 20]),
            first_data.clone(),
        )
        .log3(
            selector_log_transfer(),
            &Address([3; 20]),
            &Address([4; 20]),
            second_data.clone(),
        )
        .build();
    assert_eq!(logs.len(), 2);
    assert_eq!(logs[0].topics[0], selector_log_approval());
    assert_eq!(logs[0].data, first_data);
    assert_eq!(logs[1].topics[0], selector_log_transfer());
    assert_eq!(logs[1].data, second_data);
}

#[test]
fn event_topic_hashes() {
    assert_eq!(
        selector_log_transfer()[..4],
        [0xdd, 0xf2, 0x52, 0xad],
    );
    assert_eq!(
        selector_log_approval()[..4],
        [0x8c, 0x5b, 0xe1, 0xe5],
    );
}

#[test]
fn token_word_round_trip() {
    let id = CurrencyId::Token(TokenSymbol::KSM);
    let word = id.to_word();
    assert_eq!(&word[0..30], &[0u8; 30]);
    assert_eq!(word[30], 130);
    assert_eq!(word[31], 0);
    assert_eq!(CurrencyId::try_from(&word), Ok(id));
}

#[test]
fn token_word_rejects_broken_patterns() {
    let id = CurrencyId::Token(TokenSymbol::KSM);

    let mut leading = id.to_word();
    leading[0] = 1;
    assert_eq!(CurrencyId::try_from(&leading), Err(()));

    let mut trailing = id.to_word();
    trailing[31] = 1;
    assert_eq!(CurrencyId::try_from(&trailing), Err(()));

    let mut unknown = id.to_word();
    unknown[30] = 99;
    assert_eq!(CurrencyId::try_from(&unknown), Err(()));

    assert_eq!(CurrencyId::try_from(&[0u8; 32]), Err(()));
}

#[test]
fn token_symbol_discriminants() {
    assert_eq!(TokenSymbol::KSM.discriminant(), 130);
    assert_eq!(TokenSymbol::try_from(130), Ok(TokenSymbol::KSM));
    assert_eq!(TokenSymbol::try_from(131), Err(()));
}

#[test]
fn token_names_and_decimals() {
    let id = CurrencyId::Token(TokenSymbol::KSM);
    assert!(id.is_token_currency_id());
    assert_eq!(id.decimals(), 12);
    assert_eq!(TokenSymbol::get_info(), vec![("KSM", 12)]);
    assert_eq!(CurrencyId::try_from_symbol(b"KSM"), Ok(id));
    assert_eq!(CurrencyId::try_from_symbol(b"BTC"), Err(()));
    assert_eq!(CurrencyId::try_from_symbol(b""), Err(()));
}
