use mvm::bank::Bank;
use mvm::codec::AccountAddress;
use mvm::gas::{CostTable, GasMeter};
use mvm::types::{FatalError, OUT_OF_GAS};

#[test]
fn second_over_debit_is_fatal_and_first_stays() {
    let a = AccountAddress(0xA);
    let mut bank = Bank::new();
    bank.withdraw(a, "X", 15).unwrap();
    assert_eq!(bank.deposit(a, "X", 10), Ok(()));
    assert_eq!(bank.get_balance(a, "X"), Some(5));
    assert_eq!(bank.deposit(a, "X", 10), Err(FatalError::BalanceUnderflow));
    assert_eq!(bank.get_balance(a, "X"), Some(5));
}

#[test]
fn credit_creates_entry_and_overflow_is_fatal() {
    let a = AccountAddress(1);
    let mut bank = Bank::new();
    assert_eq!(bank.get_balance(a, "PONT"), None);
    bank.withdraw(a, "PONT", 7).unwrap();
    bank.withdraw(a, "PONT", 3).unwrap();
    assert_eq!(bank.get_balance(a, "PONT"), Some(10));
    assert_eq!(bank.get_balance(a, "BTC"), None);
    assert_eq!(bank.withdraw(a, "PONT", u128::MAX), Err(FatalError::BalanceOverflow));
    assert_eq!(bank.get_balance(a, "PONT"), Some(10));
}

#[test]
fn debit_of_missing_entry_is_fatal() {
    let mut bank = Bank::new();
    assert_eq!(bank.deposit(AccountAddress(3), "X", 1), Err(FatalError::BalanceUnderflow));
    assert_eq!(bank.deposit(AccountAddress(3), "X", 0), Ok(()));
    assert_eq!(bank.get_balance(AccountAddress(3), "X"), Some(0));
}

#[test]
fn intrinsic_charge_fails_exactly_past_the_budget() {
    let table = CostTable { intrinsic_gas_per_byte: 3 };
    let mut m = GasMeter::new(30);
    assert_eq!(m.charge_intrinsic(table, 10), Ok(()));
    assert_eq!(m.remaining(), 0);
    assert_eq!(m.used(), 30);
    let mut m = GasMeter::new(29);
    assert_eq!(m.charge_intrinsic(table, 10), Err(OUT_OF_GAS));
    assert_eq!(m.remaining(), 0);
    assert_eq!(m.used(), 29);
    let mut m = GasMeter::new(u64::MAX);
    assert_eq!(m.charge_intrinsic(CostTable { intrinsic_gas_per_byte: u64::MAX }, 2), Err(OUT_OF_GAS));
}
