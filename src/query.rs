use vstd::prelude::*;
use crate::models::CoreError;

verus! {

/// Parameters of the endpoints that take only an account.
pub struct Parameters {
    pub account_id: String,
}

/// Parameters of the movement list: `sort == 1` asks for ordering by
/// identifier, and `asc` chooses ascending (non-zero) or descending (zero).
pub struct SortedParameters {
    pub account_id: String,
    pub sort: usize,
    pub asc: usize,
}

/// Parameters of the top movements: at most `total_elements` rows, ascending
/// where `asc` is non-zero and descending where it is zero.
pub struct TopSortedParameters {
    pub account_id: String,
    pub total_elements: usize,
    pub asc: usize,
}

/// The value that `sort` and `asc` take when a request leaves them out.
pub fn default_numeric() -> (r: usize)
    ensures
        r == 0,
{
    0
}

/// The value that `totalElements` takes when a request leaves it out.
pub fn default_elements() -> (r: usize)
    ensures
        r == 0,
{
    0
}

/// The statement that lists every account.
pub const ACCOUNTS_SQL: &'static str = "SELECT id, name, username FROM customer_account";

/// The statement that reads one account; its parameter is the account id.
pub const ACCOUNT_SQL: &'static str = "SELECT id, name, username FROM customer_account WHERE id = ?1";

/// The statement that reads an account's movements; its parameter is the
/// account id.
pub const MOVEMENTS_SQL: &'static str = "SELECT id, movement_date, amount, concept, customer_account_id FROM customer_account_movements WHERE customer_account_id = ?1";

/// The shapes of statement the endpoints run. The account detail has no
/// statement of its own: it joins the results of `Account` and `Movements`
/// and counts and sums in memory.
#[derive(Clone, Copy, Debug, PartialEq, Eq, Structural)]
pub enum QueryKind {
    AllAccounts,
    Account,
    Movements,
}

/// A statement and the value bound to its one parameter, if it has one.
/// The account id is never part of the statement's text.
pub struct Query {
    pub sql: &'static str,
    pub account_id: Option<i64>,
}

pub open spec fn sql_of(kind: QueryKind) -> Seq<char> {
    match kind {
        QueryKind::AllAccounts => ACCOUNTS_SQL@,
        QueryKind::Account => ACCOUNT_SQL@,
        QueryKind::Movements => MOVEMENTS_SQL@,
    }
}

pub open spec fn is_digit(c: char) -> bool {
    '0' <= c && c <= '9'
}

pub open spec fn digit_value(c: char) -> int {
    c as int - '0' as int
}

/// Every character of `s` is a decimal digit, and there is at least one.
pub open spec fn all_digits(s: Seq<char>) -> bool {
    s.len() > 0 && forall|i: int| 0 <= i < s.len() ==> is_digit(#[trigger] s[i])
}

/// The number that the decimal digits `s` write.
pub open spec fn digits_value(s: Seq<char>) -> int
    decreases s.len(),
{
    if s.len() == 0 {
        0
    } else {
        digits_value(s.drop_last()) * 10 + digit_value(s.last())
    }
}

/// The integer that `s` writes: decimal digits with an optional leading `-`.
pub open spec fn written_value(s: Seq<char>) -> Option<int> {
    if s.len() > 0 && s[0] == '-' {
        if all_digits(s.drop_first()) {
            Some(-digits_value(s.drop_first()))
        } else {
            None
        }
    } else if all_digits(s) {
        Some(digits_value(s))
    } else {
        None
    }
}

/// The account identifier that `s` denotes, where it is an integer that
/// fits in an `i64`.
pub open spec fn account_id_of(s: Seq<char>) -> Option<i64> {
    match written_value(s) {
        Some(v) => if i64::MIN <= v <= i64::MAX {
            Some(v as i64)
        } else {
            None
        },
        None => None,
    }
}

/// One past the largest magnitude an `i64` holds; digit accumulation stops
/// growing there.
const MAGNITUDE_CAP: i128 = 0x8000_0000_0000_0001;

/// Reads the account identifier a request carries.
pub fn parse_account_id(s: &str) -> (r: Result<i64, CoreError>)
    ensures
        r == match account_id_of(s@) {
            Some(v) => Ok::<i64, CoreError>(v),
            None => Err(CoreError::InvalidParameter),
        },
{
    let n = s.unicode_len();
    let mut start: usize = 0;
    if n > 0 && s.get_char(0) == '-' {
        start = 1;
    }
    if start >= n {
        return Err(CoreError::InvalidParameter);
    }
    let ghost digits = s@.subrange(start as int, n as int);
    assert(start == 1 ==> digits =~= s@.drop_first());
    assert(start == 0 ==> digits =~= s@);
    let mut acc: i128 = 0;
    let mut k: usize = start;
    while k < n
        invariant
            start <= k <= n,
            n == s@.len(),
            start <= 1,
            start == 1 <==> (s@.len() > 0 && s@[0] == '-'),
            digits == s@.subrange(start as int, n as int),
            forall|i: int| start <= i < k ==> is_digit(#[trigger] s@[i]),
            0 <= acc <= MAGNITUDE_CAP,
            acc == if digits_value(s@.subrange(start as int, k as int)) < MAGNITUDE_CAP {
                digits_value(s@.subrange(start as int, k as int))
            } else {
                MAGNITUDE_CAP as int
            },
        decreases n - k,
    {
        let c = s.get_char(k);
        if !('0' <= c && c <= '9') {
            assert(!is_digit(digits[k - start]));
            assert(!all_digits(digits));
            return Err(CoreError::InvalidParameter);
        }
        let d = (c as u32 - '0' as u32) as i128;
        proof {
            assert(s@.subrange(start as int, k + 1).drop_last() =~= s@.subrange(start as int, k as int));
        }
        let next = acc * 10 + d;
        acc = if next < MAGNITUDE_CAP { next } else { MAGNITUDE_CAP };
        k = k + 1;
    }
    assert(s@.subrange(start as int, k as int) =~= digits);
    assert(all_digits(digits));
    if start == 1 {
        if acc > 0x8000_0000_0000_0000 {
            Err(CoreError::InvalidParameter)
        } else {
            Ok((-acc) as i64)
        }
    } else {
        if acc > 0x7fff_ffff_ffff_ffff {
            Err(CoreError::InvalidParameter)
        } else {
            Ok(acc as i64)
        }
    }
}

/// The statement for `kind`, with the account id read from `account_id`
/// bound as its parameter. Listing all accounts binds nothing and ignores
/// `account_id`.
pub fn build_query(kind: QueryKind, account_id: &str) -> (r: Result<Query, CoreError>)
    ensures
        kind == QueryKind::AllAccounts ==> r is Ok,
        kind != QueryKind::AllAccounts ==> (r is Ok <==> account_id_of(account_id@) is Some),
        r is Err ==> r == Err::<Query, CoreError>(CoreError::InvalidParameter),
        r matches Ok(q) ==> q.sql@ == sql_of(kind) && q.account_id == if kind == QueryKind::AllAccounts {
            None
        } else {
            account_id_of(account_id@)
        },
{
    match kind {
        QueryKind::AllAccounts => Ok(Query { sql: ACCOUNTS_SQL, account_id: None }),
        QueryKind::Account => {
            let id = parse_account_id(account_id)?;
            Ok(Query { sql: ACCOUNT_SQL, account_id: Some(id) })
        },
        QueryKind::Movements => {
            let id = parse_account_id(account_id)?;
            Ok(Query { sql: MOVEMENTS_SQL, account_id: Some(id) })
        },
    }
}

} // verus!
