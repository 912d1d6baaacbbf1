use vstd::prelude::*;

verus! {

/// The failures a request can end in.
#[derive(Clone, Copy, Debug, PartialEq, Eq, Structural)]
pub enum CoreError {
    /// A request parameter is missing or cannot be read as an identifier.
    InvalidParameter,
    /// No database connection could be obtained.
    ConnectionAcquisitionFailure,
    /// The store failed to run the statement, or returned no row where one
    /// was required.
    QueryExecutionFailure,
    /// A row lacks an expected column, or holds a value of the wrong type.
    MappingError,
}

/// One customer account.
#[derive(Clone, Debug, PartialEq)]
pub struct CustomerAccount {
    pub id: i64,
    pub name: String,
    pub user_name: String,
}

/// The list of all customer accounts.
#[derive(Clone, Debug, PartialEq)]
pub struct CustomerAccounts {
    pub customer_acount_list: Vec<CustomerAccount>,
}

/// An account together with the number and the sum of its movements.
/// Amounts are fixed-point values in hundredths of the currency unit.
#[derive(Clone, Debug, PartialEq)]
pub struct CustomerAccountDetails {
    pub id: i64,
    pub name: String,
    pub user_name: String,
    pub movements: usize,
    pub total_amount: i128,
}

/// One ledger movement of an account. `amount` is in hundredths of the
/// currency unit.
#[derive(Clone, Debug, PartialEq)]
pub struct CustomerAccountMovement {
    pub id: i64,
    pub movement_date: String,
    pub amount: i64,
    pub concept: String,
    pub customer_account_id: i64,
}

/// An ordered list of movements.
#[derive(Clone, Debug, PartialEq)]
pub struct CustomerAccountMovements {
    pub customer_acount_mmnt_list: Vec<CustomerAccountMovement>,
}

/// The signed sum of an account's movement amounts, in hundredths.
#[derive(Clone, Copy, Debug, PartialEq, Eq, Structural)]
pub struct CustomerAccountBalance {
    pub customer_account_id: i64,
    pub balance: i128,
}

} // verus!
