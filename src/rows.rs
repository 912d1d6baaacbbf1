use vstd::prelude::*;
use crate::models::{CoreError, CustomerAccount, CustomerAccountMovement};

verus! {

/// One value of a result row. `Fixed` holds a decimal column's value in
/// hundredths.
pub enum Cell {
    Null,
    Integer(i64),
    Fixed(i64),
    Text(String),
    Blob(Vec<u8>),
}

/// A named value of a result row.
pub struct Column {
    pub name: String,
    pub value: Cell,
}

/// One row of a result set, its columns in statement order.
pub struct Row {
    pub columns: Vec<Column>,
}

/// The value of the first column of `cols` named `name`.
pub open spec fn lookup(cols: Seq<Column>, name: Seq<char>) -> Option<Cell>
    decreases cols.len(),
{
    if cols.len() == 0 {
        None
    } else if cols[0].name@ == name {
        Some(cols[0].value)
    } else {
        lookup(cols.drop_first(), name)
    }
}

pub open spec fn integer_cell(c: Option<Cell>) -> Option<i64> {
    match c {
        Some(Cell::Integer(v)) => Some(v),
        _ => None,
    }
}

pub open spec fn text_cell(c: Option<Cell>) -> Option<Seq<char>> {
    match c {
        Some(Cell::Text(t)) => Some(t@),
        _ => None,
    }
}

/// An amount in hundredths: a decimal value as it is, or an integer scaled
/// by 100 where that fits.
pub open spec fn amount_cell(c: Option<Cell>) -> Option<i64> {
    match c {
        Some(Cell::Fixed(v)) => Some(v),
        Some(Cell::Integer(v)) => if i64::MIN <= v * 100 <= i64::MAX {
            Some((v * 100) as i64)
        } else {
            None
        },
        _ => None,
    }
}

/// `row` carries an account: an integer `id`, and text `name` and `username`.
pub open spec fn account_row_ok(row: Row) -> bool {
    integer_cell(lookup(row.columns@, "id"@)) is Some
        && text_cell(lookup(row.columns@, "name"@)) is Some
        && text_cell(lookup(row.columns@, "username"@)) is Some
}

/// `a` holds what `row` carries; the `username` column becomes `user_name`.
pub open spec fn account_matches(a: CustomerAccount, row: Row) -> bool {
    Some(a.id) == integer_cell(lookup(row.columns@, "id"@))
        && Some(a.name@) == text_cell(lookup(row.columns@, "name"@))
        && Some(a.user_name@) == text_cell(lookup(row.columns@, "username"@))
}

/// `row` carries a movement.
pub open spec fn movement_row_ok(row: Row) -> bool {
    integer_cell(lookup(row.columns@, "id"@)) is Some
        && text_cell(lookup(row.columns@, "movement_date"@)) is Some
        && amount_cell(lookup(row.columns@, "amount"@)) is Some
        && text_cell(lookup(row.columns@, "concept"@)) is Some
        && integer_cell(lookup(row.columns@, "customer_account_id"@)) is Some
}

/// `m` holds what `row` carries.
pub open spec fn movement_matches(m: CustomerAccountMovement, row: Row) -> bool {
    Some(m.id) == integer_cell(lookup(row.columns@, "id"@))
        && Some(m.movement_date@) == text_cell(lookup(row.columns@, "movement_date"@))
        && Some(m.amount) == amount_cell(lookup(row.columns@, "amount"@))
        && Some(m.concept@) == text_cell(lookup(row.columns@, "concept"@))
        && Some(m.customer_account_id) == integer_cell(lookup(row.columns@, "customer_account_id"@))
}

fn same_text(a: &str, b: &str) -> (r: bool)
    ensures
        r == (a@ == b@),
{
    let n = a.unicode_len();
    if n != b.unicode_len() {
        return false;
    }
    let mut k: usize = 0;
    while k < n
        invariant
            k <= n,
            n == a@.len(),
            n == b@.len(),
            forall|i: int| 0 <= i < k ==> a@[i] == b@[i],
        decreases n - k,
    {
        if a.get_char(k) != b.get_char(k) {
            return false;
        }
        k = k + 1;
    }
    assert(a@ =~= b@);
    true
}

/// The position of the first column named `name`, where there is one.
fn find_column(row: &Row, name: &str) -> (r: Option<usize>)
    ensures
        r is None ==> lookup(row.columns@, name@) is None,
        r matches Some(i) ==> i < row.columns.len() && lookup(row.columns@, name@) == Some(row.columns@[i as int].value),
{
    let mut k: usize = 0;
    assert(row.columns@.subrange(0, row.columns.len() as int) =~= row.columns@);
    while k < row.columns.len()
        invariant
            k <= row.columns.len(),
            lookup(row.columns@, name@) == lookup(row.columns@.subrange(k as int, row.columns.len() as int), name@),
        decreases row.columns.len() - k,
    {
        proof {
            assert(row.columns@.subrange(k as int, row.columns.len() as int).drop_first() =~= row.columns@.subrange(k + 1, row.columns.len() as int));
        }
        if same_text(row.columns[k].name.as_str(), name) {
            let ghost rest = row.columns@.subrange(k as int, row.columns.len() as int);
            assert(rest[0] == row.columns@[k as int]);
            return Some(k);
        }
        k = k + 1;
    }
    None
}

fn integer_column(row: &Row, name: &str) -> (r: Option<i64>)
    ensures
        r == integer_cell(lookup(row.columns@, name@)),
{
    match find_column(row, name) {
        Some(i) => match &row.columns[i].value {
            Cell::Integer(v) => Some(*v),
            _ => None,
        },
        None => None,
    }
}

fn text_column(row: &Row, name: &str) -> (r: Option<String>)
    ensures
        r matches Some(t) ==> text_cell(lookup(row.columns@, name@)) == Some(t@),
        r is None ==> text_cell(lookup(row.columns@, name@)) is None,
{
    match find_column(row, name) {
        Some(i) => match &row.columns[i].value {
            Cell::Text(t) => Some(t.clone()),
            _ => None,
        },
        None => None,
    }
}

fn amount_column(row: &Row, name: &str) -> (r: Option<i64>)
    ensures
        r == amount_cell(lookup(row.columns@, name@)),
{
    match find_column(row, name) {
        Some(i) => match &row.columns[i].value {
            Cell::Fixed(v) => Some(*v),
            Cell::Integer(v) => v.checked_mul(100),
            _ => None,
        },
        None => None,
    }
}

/// Maps a row of the account statements into an account.
pub fn map_account_row(row: &Row) -> (r: Result<CustomerAccount, CoreError>)
    ensures
        r is Ok <==> account_row_ok(*row),
        r matches Ok(a) ==> account_matches(a, *row),
        r is Err ==> r == Err::<CustomerAccount, CoreError>(CoreError::MappingError),
{
    let id = integer_column(row, "id");
    let name = text_column(row, "name");
    let user_name = text_column(row, "username");
    match (id, name, user_name) {
        (Some(id), Some(name), Some(user_name)) => Ok(CustomerAccount { id, name, user_name }),
        _ => Err(CoreError::MappingError),
    }
}

/// Maps a row of the movement statement into a movement.
pub fn map_movement_row(row: &Row) -> (r: Result<CustomerAccountMovement, CoreError>)
    ensures
        r is Ok <==> movement_row_ok(*row),
        r matches Ok(m) ==> movement_matches(m, *row),
        r is Err ==> r == Err::<CustomerAccountMovement, CoreError>(CoreError::MappingError),
{
    let id = integer_column(row, "id");
    let movement_date = text_column(row, "movement_date");
    let amount = amount_column(row, "amount");
    let concept = text_column(row, "concept");
    let customer_account_id = integer_column(row, "customer_account_id");
    match (id, movement_date, amount, concept, customer_account_id) {
        (Some(id), Some(movement_date), Some(amount), Some(concept), Some(customer_account_id)) => Ok(
            CustomerAccountMovement { id, movement_date, amount, concept, customer_account_id },
        ),
        _ => Err(CoreError::MappingError),
    }
}

/// Maps every row of the account statements; fails where any row does not map.
pub fn map_account_rows(rows: &Vec<Row>) -> (r: Result<Vec<CustomerAccount>, CoreError>)
    ensures
        r is Ok <==> forall|i: int| 0 <= i < rows.len() ==> account_row_ok(#[trigger] rows@[i]),
        r matches Ok(v) ==> v.len() == rows.len() && forall|i: int|
            0 <= i < rows.len() ==> account_matches(#[trigger] v@[i], rows@[i]),
        r is Err ==> r == Err::<Vec<CustomerAccount>, CoreError>(CoreError::MappingError),
{
    let mut out: Vec<CustomerAccount> = Vec::new();
    let mut k: usize = 0;
    while k < rows.len()
        invariant
            k <= rows.len(),
            out.len() == k,
            forall|i: int| 0 <= i < k ==> account_row_ok(#[trigger] rows@[i]),
            forall|i: int| 0 <= i < k ==> account_matches(#[trigger] out@[i], rows@[i]),
        decreases rows.len() - k,
    {
        match map_account_row(&rows[k]) {
            Ok(a) => out.push(a),
            Err(e) => return Err(e),
        }
        k = k + 1;
    }
    Ok(out)
}

/// Maps every row of the movement statement, in order; fails where any row
/// does not map.
pub fn map_movement_rows(rows: &Vec<Row>) -> (r: Result<Vec<CustomerAccountMovement>, CoreError>)
    ensures
        r is Ok <==> forall|i: int| 0 <= i < rows.len() ==> movement_row_ok(#[trigger] rows@[i]),
        r matches Ok(v) ==> v.len() == rows.len() && forall|i: int|
            0 <= i < rows.len() ==> movement_matches(#[trigger] v@[i], rows@[i]),
        r is Err ==> r == Err::<Vec<CustomerAccountMovement>, CoreError>(CoreError::MappingError),
{
    let mut out: Vec<CustomerAccountMovement> = Vec::new();
    let mut k: usize = 0;
    while k < rows.len()
        invariant
            k <= rows.len(),
            out.len() == k,
            forall|i: int| 0 <= i < k ==> movement_row_ok(#[trigger] rows@[i]),
            forall|i: int| 0 <= i < k ==> movement_matches(#[trigger] out@[i], rows@[i]),
        decreases rows.len() - k,
    {
        match map_movement_row(&rows[k]) {
            Ok(m) => out.push(m),
            Err(e) => return Err(e),
        }
        k = k + 1;
    }
    Ok(out)
}

} // verus!
