use vstd::prelude::*;
use crate::aggregate::{
    account_detail, arrange_movements, balance_account, balance_of, lemma_detail_of_own_movements,
    lemma_same_movements_same_account, movement_view, sorted_by_id, sorted_views, top_movements, total,
    views,
};
use crate::models::{
    CoreError, CustomerAccount, CustomerAccountBalance, CustomerAccountDetails,
    CustomerAccountMovement, CustomerAccountMovements, CustomerAccounts,
};
use crate::query::{account_id_of, parse_account_id, Parameters, SortedParameters, TopSortedParameters};
use crate::rows::{
    account_matches, account_row_ok, amount_cell, integer_cell, lookup, text_cell, map_account_row, map_account_rows,
    map_movement_rows, movement_matches, movement_row_ok, Row,
};

verus! {

/// The movements `ms` hold, in order, what the rows `rows` carry.
pub open spec fn movements_match(ms: Seq<CustomerAccountMovement>, rows: Seq<Row>) -> bool {
    ms.len() == rows.len() && forall|i: int| 0 <= i < rows.len() ==> movement_matches(#[trigger] ms[i], rows[i])
}

/// The fields of the movement that `row` carries, as plain values.
pub open spec fn row_view(row: Row) -> (i64, Seq<char>, i64, Seq<char>, i64) {
    (
        integer_cell(lookup(row.columns@, "id"@))->0,
        text_cell(lookup(row.columns@, "movement_date"@))->0,
        amount_cell(lookup(row.columns@, "amount"@))->0,
        text_cell(lookup(row.columns@, "concept"@))->0,
        integer_cell(lookup(row.columns@, "customer_account_id"@))->0,
    )
}

pub open spec fn row_views(rows: Seq<Row>) -> Seq<(i64, Seq<char>, i64, Seq<char>, i64)> {
    rows.map_values(|row: Row| row_view(row))
}

/// The movement list that a request with `sort` and `asc` yields from the
/// rows `rows`, field by field.
pub open spec fn arranged_views(rows: Seq<Row>, sort: usize, asc: usize) -> Seq<
    (i64, Seq<char>, i64, Seq<char>, i64),
> {
    if sort == 1 {
        sorted_views(row_views(rows), asc != 0)
    } else {
        row_views(rows)
    }
}

proof fn lemma_matched_views(ms: Seq<CustomerAccountMovement>, rows: Seq<Row>)
    requires
        movements_match(ms, rows),
    ensures
        views(ms) == row_views(rows),
{
    assert forall|i: int| 0 <= i < ms.len() implies views(ms)[i] == row_views(rows)[i] by {
        assert(movement_matches(ms[i], rows[i]));
    }
    assert(views(ms) =~= row_views(rows));
}

/// Reads are repeatable: two movement lists that the movement endpoint may
/// return for the same rows and the same `sort` and `asc` hold the same
/// movements, field by field and in the same order, ties included.
pub proof fn lemma_movement_reads_agree(
    rows: Seq<Row>,
    sort: usize,
    asc: usize,
    first: Seq<CustomerAccountMovement>,
    second: Seq<CustomerAccountMovement>,
)
    requires
        views(first) == arranged_views(rows, sort, asc),
        views(second) == arranged_views(rows, sort, asc),
    ensures
        first.len() == second.len(),
        forall|i: int| 0 <= i < first.len() ==> movement_view(#[trigger] first[i]) == movement_view(second[i]),
{
    assert(views(first).len() == first.len());
    assert(views(second).len() == second.len());
    assert forall|i: int| 0 <= i < first.len() implies movement_view(#[trigger] first[i]) == movement_view(second[i]) by {
        assert(views(first)[i] == movement_view(first[i]));
        assert(views(second)[i] == movement_view(second[i]));
    }
}

/// Every row of `rows` carries a movement.
pub open spec fn movement_rows_ok(rows: Seq<Row>) -> bool {
    forall|i: int| 0 <= i < rows.len() ==> movement_row_ok(#[trigger] rows[i])
}

pub open spec fn is_lower_hex(c: char) -> bool {
    ('0' <= c && c <= '9') || ('a' <= c && c <= 'f')
}

pub open spec fn is_hyphen_position(i: int) -> bool {
    i == 8 || i == 13 || i == 18 || i == 23
}

/// A hyphenated version-4 identifier: 36 characters, hyphens between the
/// groups of 8, 4, 4, 4 and 12 lower-case hex digits, the version digit `4`
/// at 14 and the variant digit (`8`, `9`, `a` or `b`) at 19.
pub open spec fn uuid_v4_shaped(s: Seq<char>) -> bool {
    &&& s.len() == 36
    &&& forall|i: int| 0 <= i < 36 && is_hyphen_position(i) ==> #[trigger] s[i] == '-'
    &&& forall|i: int| 0 <= i < 36 && !is_hyphen_position(i) ==> is_lower_hex(#[trigger] s[i])
    &&& s[14] == '4'
    &&& (s[19] == '8' || s[19] == '9' || s[19] == 'a' || s[19] == 'b')
}

/// How many movements a top-N request returns: `n`, or every row where
/// there are fewer.
pub open spec fn top_count(n: usize, available: usize) -> int {
    if n < available {
        n as int
    } else {
        available as int
    }
}

/// The banner of the root route.
pub fn index() -> (r: &'static str)
    ensures
        r@ == "Hello world!\r\n"@,
{
    "Hello world!\r\n"
}

/// Relies on uuid::Uuid::new_v4, which sets the version nibble to 4 and the
/// variant bits to `10`, and on its `Display`, which writes the lower-case
/// hyphenated form: 36 characters, hyphens at 8, 13, 18 and 23, lower-case
/// hex digits elsewhere, `4` at 14 and one of `8`, `9`, `a`, `b` at 19. The
/// value itself is random.
#[verifier::external_body]
fn new_uuid_text() -> (r: String)
    ensures
        uuid_v4_shaped(r@),
{
    uuid::Uuid::new_v4().to_string()
}

/// A freshly generated random identifier, as text.
pub fn echo_handler() -> (r: String)
    ensures
        uuid_v4_shaped(r@),
{
    new_uuid_text()
}

/// The list of accounts that `rows` carry, in order.
pub fn customer_accounts_handler(rows: &Vec<Row>) -> (r: Result<CustomerAccounts, CoreError>)
    ensures
        r is Ok <==> forall|i: int| 0 <= i < rows.len() ==> account_row_ok(#[trigger] rows@[i]),
        r matches Ok(l) ==> l.customer_acount_list.len() == rows.len() && forall|i: int|
            0 <= i < rows.len() ==> account_matches(#[trigger] l.customer_acount_list@[i], rows@[i]),
        r is Err ==> r == Err::<CustomerAccounts, CoreError>(CoreError::MappingError),
{
    let v = map_account_rows(rows)?;
    Ok(CustomerAccounts { customer_acount_list: v })
}

/// Every row of `rows` carries the account identifier `id` in its
/// `customer_account_id` column.
pub open spec fn rows_of_account(rows: Seq<Row>, id: i64) -> bool {
    forall|i: int| 0 <= i < rows.len() ==> integer_cell(lookup(#[trigger] rows[i].columns@, "customer_account_id"@)) == Some(id)
}

/// Every movement of `ms` belongs to account `id`.
pub open spec fn all_of_account(ms: Seq<CustomerAccountMovement>, id: i64) -> bool {
    forall|i: int| 0 <= i < ms.len() ==> #[trigger] ms[i].customer_account_id == id
}

/// The movements that `rows` carry, where every one of them belongs to
/// account `id`. A row of another account means the store did not apply the
/// statement's filter: that fails, rather than mixing accounts.
fn account_movements(id: i64, rows: &Vec<Row>) -> (r: Result<Vec<CustomerAccountMovement>, CoreError>)
    ensures
        r is Ok <==> movement_rows_ok(rows@) && rows_of_account(rows@, id),
        !movement_rows_ok(rows@) ==> r == Err::<Vec<CustomerAccountMovement>, CoreError>(CoreError::MappingError),
        movement_rows_ok(rows@) && !rows_of_account(rows@, id) ==> r == Err::<
            Vec<CustomerAccountMovement>,
            CoreError,
        >(CoreError::QueryExecutionFailure),
        r matches Ok(v) ==> movements_match(v@, rows@) && all_of_account(v@, id),
{
    let v = map_movement_rows(rows)?;
    assert(movements_match(v@, rows@));
    let mut k: usize = 0;
    while k < v.len()
        invariant
            k <= v.len(),
            movements_match(v@, rows@),
            movement_rows_ok(rows@),
            forall|i: int| 0 <= i < k ==> #[trigger] v@[i].customer_account_id == id,
        decreases v.len() - k,
    {
        if v[k].customer_account_id != id {
            assert(movement_matches(v@[k as int], rows@[k as int]));
            assert(!rows_of_account(rows@, id));
            return Err(CoreError::QueryExecutionFailure);
        }
        k = k + 1;
    }
    assert forall|i: int| 0 <= i < rows.len() implies integer_cell(lookup(#[trigger] rows@[i].columns@, "customer_account_id"@)) == Some(id) by {
        assert(movement_matches(v@[i], rows@[i]));
    }
    Ok(v)
}

/// The account with the identifier that `params.account_id` denotes, read
/// from the first of `rows`. A malformed identifier fails with
/// `InvalidParameter`; no row means no such account, an error and never a
/// default record; a row of another account fails too.
pub fn customer_account_handler(params: &Parameters, rows: &Vec<Row>) -> (r: Result<CustomerAccount, CoreError>)
    ensures
        account_id_of(params.account_id@) is None ==> r == Err::<CustomerAccount, CoreError>(
            CoreError::InvalidParameter,
        ),
        account_id_of(params.account_id@) is Some && rows.len() == 0 ==> r == Err::<CustomerAccount, CoreError>(
            CoreError::QueryExecutionFailure,
        ),
        account_id_of(params.account_id@) is Some && rows.len() > 0 && !account_row_ok(rows@[0]) ==> r == Err::<
            CustomerAccount,
            CoreError,
        >(CoreError::MappingError),
        account_id_of(params.account_id@) is Some && rows.len() > 0 && account_row_ok(rows@[0]) ==> (r is Ok
            <==> integer_cell(lookup(rows@[0].columns@, "id"@)) == account_id_of(params.account_id@)),
        account_id_of(params.account_id@) is Some && rows.len() > 0 && account_row_ok(rows@[0]) && r is Err
            ==> r == Err::<CustomerAccount, CoreError>(CoreError::QueryExecutionFailure),
        r matches Ok(a) ==> account_matches(a, rows@[0]) && account_id_of(params.account_id@) == Some(a.id),
{
    let id = parse_account_id(params.account_id.as_str())?;
    if rows.len() == 0 {
        return Err(CoreError::QueryExecutionFailure);
    }
    let account = map_account_row(&rows[0])?;
    if account.id != id {
        return Err(CoreError::QueryExecutionFailure);
    }
    Ok(account)
}

/// The detail of the account that `params.account_id` denotes: its fields,
/// read from the first of `account_rows`, with the number and the sum of
/// its movements, the rows of `movement_rows`. The two come from two
/// statements, the account's and its movements', and are joined here. An
/// account without movements has a count and a total of 0.
pub fn customer_account_detail_handler(params: &Parameters, account_rows: &Vec<Row>, movement_rows: &Vec<Row>) -> (r:
    Result<CustomerAccountDetails, CoreError>)
    ensures
        account_id_of(params.account_id@) is None ==> r == Err::<CustomerAccountDetails, CoreError>(
            CoreError::InvalidParameter,
        ),
        account_id_of(params.account_id@) is Some && account_rows.len() == 0 ==> r == Err::<
            CustomerAccountDetails,
            CoreError,
        >(CoreError::QueryExecutionFailure),
        r is Ok <==> ({
            &&& account_id_of(params.account_id@) is Some
            &&& account_rows.len() > 0
            &&& account_row_ok(account_rows@[0])
            &&& integer_cell(lookup(account_rows@[0].columns@, "id"@)) == account_id_of(params.account_id@)
            &&& movement_rows_ok(movement_rows@)
            &&& rows_of_account(movement_rows@, account_id_of(params.account_id@)->0)
        }),
        r matches Ok(d) ==> exists|a: CustomerAccount, ms: Seq<CustomerAccountMovement>|
            account_matches(a, account_rows@[0]) && movements_match(ms, movement_rows@) && account_id_of(
                params.account_id@,
            ) == Some(d.id) && d.id == a.id && d.name == a.name && d.user_name == a.user_name
                && d.movements == movement_rows.len() && d.total_amount == total(ms),
{
    let account = customer_account_handler(params, account_rows)?;
    let movements = account_movements(account.id, movement_rows)?;
    proof {
        lemma_detail_of_own_movements(movements@, account.id);
    }
    let ghost a = account;
    let d = account_detail(account, &movements);
    assert(account_matches(a, account_rows@[0]) && movements_match(movements@, movement_rows@));
    Ok(d)
}

/// The movements of the account that `params.account_id` denotes, the rows
/// of `rows`: ordered by identifier where `params.sort == 1` (ascending
/// where `params.asc != 0`, else descending), and in the order of the rows
/// otherwise.
pub fn customer_account_movements_handler(params: &SortedParameters, rows: &Vec<Row>) -> (r: Result<
    CustomerAccountMovements,
    CoreError,
>)
    ensures
        account_id_of(params.account_id@) is None ==> r == Err::<CustomerAccountMovements, CoreError>(
            CoreError::InvalidParameter,
        ),
        account_id_of(params.account_id@) is Some && !movement_rows_ok(rows@) ==> r == Err::<
            CustomerAccountMovements,
            CoreError,
        >(CoreError::MappingError),
        r is Ok <==> account_id_of(params.account_id@) is Some && movement_rows_ok(rows@) && rows_of_account(
            rows@,
            account_id_of(params.account_id@)->0,
        ),
        r matches Ok(l) ==> all_of_account(l.customer_acount_mmnt_list@, account_id_of(params.account_id@)->0),
        r matches Ok(l) ==> exists|ms: Seq<CustomerAccountMovement>|
            movements_match(ms, rows@) && {
                let out = l.customer_acount_mmnt_list@;
                &&& params.sort != 1 ==> out == ms
                &&& params.sort == 1 ==> out.to_multiset() == ms.to_multiset() && out.len() == ms.len()
                    && sorted_by_id(out, params.asc != 0)
            },
        r matches Ok(l) ==> views(l.customer_acount_mmnt_list@) == arranged_views(rows@, params.sort, params.asc),
{
    let id = parse_account_id(params.account_id.as_str())?;
    let v = account_movements(id, rows)?;
    let ghost ms = v@;
    let sorted = arrange_movements(v, params.sort, params.asc);
    proof {
        lemma_same_movements_same_account(sorted@, ms, id);
        lemma_matched_views(ms, rows@);
    }
    Ok(CustomerAccountMovements { customer_acount_mmnt_list: sorted })
}

/// At most `params.total_elements` movements of the account that
/// `params.account_id` denotes: the first ones that `rows` carry, ordered by
/// identifier, ascending where `params.asc != 0` and descending otherwise.
/// Rows past that count are not read.
pub fn customer_account_movements_top_handler(params: &TopSortedParameters, rows: Vec<Row>) -> (r:
    Result<CustomerAccountMovements, CoreError>)
    ensures
        account_id_of(params.account_id@) is None ==> r == Err::<CustomerAccountMovements, CoreError>(
            CoreError::InvalidParameter,
        ),
        account_id_of(params.account_id@) is Some && !movement_rows_ok(
            rows@.take(top_count(params.total_elements, rows.len())),
        ) ==> r == Err::<CustomerAccountMovements, CoreError>(CoreError::MappingError),
        r is Ok <==> account_id_of(params.account_id@) is Some && movement_rows_ok(
            rows@.take(top_count(params.total_elements, rows.len())),
        ) && rows_of_account(
            rows@.take(top_count(params.total_elements, rows.len())),
            account_id_of(params.account_id@)->0,
        ),
        r matches Ok(l) ==> all_of_account(l.customer_acount_mmnt_list@, account_id_of(params.account_id@)->0),
        r matches Ok(l) ==> exists|ms: Seq<CustomerAccountMovement>|
            movements_match(ms, rows@.take(top_count(params.total_elements, rows.len())))
                && l.customer_acount_mmnt_list.len() == top_count(params.total_elements, rows.len())
                && l.customer_acount_mmnt_list@.to_multiset() == ms.to_multiset()
                && sorted_by_id(l.customer_acount_mmnt_list@, params.asc != 0),
        r matches Ok(l) ==> views(l.customer_acount_mmnt_list@) == sorted_views(
            row_views(rows@.take(top_count(params.total_elements, rows.len()))),
            params.asc != 0,
        ),
{
    let id = parse_account_id(params.account_id.as_str())?;
    let ghost all = rows@;
    let ghost n = top_count(params.total_elements, rows.len());
    let mut first = rows;
    first.truncate(params.total_elements);
    assert(first@ =~= all.take(n));
    let v = match account_movements(id, &first) {
        Ok(v) => v,
        Err(e) => return Err(e),
    };
    let ghost ms = v@;
    let top = top_movements(v, params.total_elements, params.asc);
    assert(ms.take(ms.len() as int) =~= ms);
    proof {
        lemma_same_movements_same_account(top@, ms, id);
        lemma_matched_views(ms, first@);
    }
    assert(movements_match(ms, all.take(n)) && top.len() == n && top@.to_multiset() == ms.to_multiset());
    Ok(CustomerAccountMovements { customer_acount_mmnt_list: top })
}

/// The balance of the account that `params.account_id` denotes: the sum of
/// the amounts of the movements that `rows` carry, and the account
/// identifier of the last row (0 where there is none). Every row must
/// belong to that account, so the identifier reported is the requested one
/// whenever there is a movement.
pub fn customer_account_movements_balance_handler(params: &Parameters, rows: &Vec<Row>) -> (r: Result<
    CustomerAccountBalance,
    CoreError,
>)
    ensures
        account_id_of(params.account_id@) is None ==> r == Err::<CustomerAccountBalance, CoreError>(
            CoreError::InvalidParameter,
        ),
        account_id_of(params.account_id@) is Some && !movement_rows_ok(rows@) ==> r == Err::<
            CustomerAccountBalance,
            CoreError,
        >(CoreError::MappingError),
        r is Ok <==> account_id_of(params.account_id@) is Some && movement_rows_ok(rows@) && rows_of_account(
            rows@,
            account_id_of(params.account_id@)->0,
        ),
        r matches Ok(b) ==> exists|ms: Seq<CustomerAccountMovement>|
            movements_match(ms, rows@) && b.balance == total(ms) && b.customer_account_id
                == balance_account(ms),
        r matches Ok(b) ==> rows.len() > 0 ==> account_id_of(params.account_id@) == Some(b.customer_account_id),
{
    let id = parse_account_id(params.account_id.as_str())?;
    let v = account_movements(id, rows)?;
    let b = balance_of(&v);
    proof {
        if v.len() > 0 {
            assert(v@.last() == v@[v.len() - 1]);
        }
    }
    Ok(b)
}

} // verus!
