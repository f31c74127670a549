use ledger_shell::gas::{as_i64, BlockGasMeter, GasError, BLOCK_GAS_LIMIT};

#[test]
fn meter_starts_at_zero() {
    let meter = BlockGasMeter::default();
    assert_eq!(meter.block_gas(), 0);
}

#[test]
fn meter_adds_up() {
    let mut meter = BlockGasMeter::default();
    assert_eq!(meter.add(10), Ok(()));
    assert_eq!(meter.add(32), Ok(()));
    assert_eq!(meter.block_gas(), 42);
}

#[test]
fn meter_stops_at_the_limit() {
    let mut meter = BlockGasMeter::default();
    assert_eq!(meter.add(BLOCK_GAS_LIMIT), Ok(()));
    assert_eq!(meter.add(1), Err(GasError::BlockGasExceeded));
    assert_eq!(meter.block_gas(), BLOCK_GAS_LIMIT);
}

#[test]
fn meter_reset_goes_back_to_zero() {
    let mut meter = BlockGasMeter::default();
    assert_eq!(meter.add(7), Ok(()));
    meter.reset();
    assert_eq!(meter.block_gas(), 0);
}

#[test]
fn gas_as_signed() {
    assert_eq!(as_i64(0), 0);
    assert_eq!(as_i64(BLOCK_GAS_LIMIT), 10_000_000_000i64);
}
