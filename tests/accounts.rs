use backendr::aggregate::{account_detail, arrange_movements, balance_of, sort_movements, top_movements};
use backendr::handlers::{
    customer_account_detail_handler, customer_account_handler, customer_account_movements_balance_handler,
    customer_account_movements_handler, customer_account_movements_top_handler, customer_accounts_handler,
    echo_handler, index,
};
use backendr::models::{CoreError, CustomerAccount, CustomerAccountBalance, CustomerAccountMovement};
use backendr::query::{
    build_query, default_elements, default_numeric, parse_account_id, Parameters, QueryKind, SortedParameters,
    TopSortedParameters, ACCOUNTS_SQL, ACCOUNT_SQL, MOVEMENTS_SQL,
};
use backendr::reply::reply_for;
use backendr::rows::{map_account_row, map_movement_row, Cell, Column, Row};

fn col(name: &str, value: Cell) -> Column {
    Column { name: name.to_string(), value }
}

fn text(s: &str) -> Cell {
    Cell::Text(s.to_string())
}

fn account_row(id: i64, name: &str, user: &str) -> Row {
    Row { columns: vec![col("id", Cell::Integer(id)), col("name", text(name)), col("username", text(user))] }
}

fn movement_row(id: i64, amount: i64, account: i64) -> Row {
    Row {
        columns: vec![
            col("id", Cell::Integer(id)),
            col("movement_date", text("2019-05-01")),
            col("amount", Cell::Fixed(amount)),
            col("concept", text("payment")),
            col("customer_account_id", Cell::Integer(account)),
        ],
    }
}

fn params(id: &str) -> Parameters {
    Parameters { account_id: id.to_string() }
}

fn movement(id: i64, amount: i64, account: i64) -> CustomerAccountMovement {
    CustomerAccountMovement {
        id,
        movement_date: "2019-05-01".to_string(),
        amount,
        concept: "payment".to_string(),
        customer_account_id: account,
    }
}

fn ids(v: &[CustomerAccountMovement]) -> Vec<i64> {
    v.iter().map(|m| m.id).collect()
}

#[test]
fn index_banner() {
    assert_eq!(index(), "Hello world!\r\n");
}

#[test]
fn defaults_are_zero() {
    assert_eq!(default_numeric(), 0);
    assert_eq!(default_elements(), 0);
}

#[test]
fn echo_gives_fresh_v4_identifiers() {
    let a = echo_handler();
    let b = echo_handler();
    assert_eq!(a.len(), 36);
    assert_eq!(a.chars().nth(14), Some('4'));
    assert!(matches!(a.chars().nth(19), Some('8' | '9' | 'a' | 'b')));
    for (k, c) in a.chars().enumerate() {
        if [8, 13, 18, 23].contains(&k) {
            assert_eq!(c, '-');
        } else {
            assert!(c.is_ascii_digit() || ('a'..='f').contains(&c), "{}", a);
        }
    }
    assert_ne!(a, b);
}

#[test]
fn parse_account_id_values() {
    assert_eq!(parse_account_id("1"), Ok(1));
    assert_eq!(parse_account_id("0042"), Ok(42));
    assert_eq!(parse_account_id("-7"), Ok(-7));
    assert_eq!(parse_account_id("9223372036854775807"), Ok(i64::MAX));
    assert_eq!(parse_account_id("-9223372036854775808"), Ok(i64::MIN));
}

#[test]
fn parse_account_id_rejects() {
    for s in ["", "-", "1a", "1 OR 1=1", " 1", "+1", "9223372036854775808", "-9223372036854775809", "123456789012345678901234"] {
        assert_eq!(parse_account_id(s), Err(CoreError::InvalidParameter), "{}", s);
    }
}

#[test]
fn queries_bind_the_account_id() {
    let q = build_query(QueryKind::Account, "12").unwrap();
    assert_eq!(q.sql, ACCOUNT_SQL);
    assert_eq!(q.account_id, Some(12));
    assert!(!q.sql.contains("12"));
    let q = build_query(QueryKind::Movements, "3").unwrap();
    assert_eq!(q.sql, MOVEMENTS_SQL);
    assert_eq!(q.account_id, Some(3));
    let q = build_query(QueryKind::AllAccounts, "ignored").unwrap();
    assert_eq!(q.sql, ACCOUNTS_SQL);
    assert_eq!(q.account_id, None);
}

#[test]
fn query_with_injected_text_is_rejected() {
    let p = Parameters { account_id: "1; DROP TABLE customer_account".to_string() };
    assert!(matches!(build_query(QueryKind::Account, &p.account_id), Err(CoreError::InvalidParameter)));
    assert!(matches!(build_query(QueryKind::Movements, ""), Err(CoreError::InvalidParameter)));
}

#[test]
fn account_row_maps_username_to_user_name() {
    let a = map_account_row(&account_row(1, "Alice", "alice")).unwrap();
    assert_eq!(a, CustomerAccount { id: 1, name: "Alice".to_string(), user_name: "alice".to_string() });
}

#[test]
fn account_row_first_column_of_a_name_wins() {
    let mut row = account_row(5, "Bob", "bob");
    row.columns.push(col("id", Cell::Integer(9)));
    assert_eq!(map_account_row(&row).unwrap().id, 5);
}

#[test]
fn account_row_mapping_errors() {
    let missing = Row { columns: vec![col("id", Cell::Integer(1)), col("name", text("Alice"))] };
    assert_eq!(map_account_row(&missing), Err(CoreError::MappingError));
    let wrong = Row {
        columns: vec![col("id", text("1")), col("name", text("Alice")), col("username", text("alice"))],
    };
    assert_eq!(map_account_row(&wrong), Err(CoreError::MappingError));
    let null = Row {
        columns: vec![col("id", Cell::Integer(1)), col("name", Cell::Null), col("username", text("alice"))],
    };
    assert_eq!(map_account_row(&null), Err(CoreError::MappingError));
}

#[test]
fn movement_row_amounts() {
    assert_eq!(map_movement_row(&movement_row(3, 1050, 1)).unwrap(), movement(3, 1050, 1));
    let mut row = movement_row(3, 0, 1);
    row.columns[2] = col("amount", Cell::Integer(7));
    assert_eq!(map_movement_row(&row).unwrap().amount, 700);
    row.columns[2] = col("amount", Cell::Integer(i64::MAX));
    assert_eq!(map_movement_row(&row), Err(CoreError::MappingError));
    row.columns[2] = col("amount", Cell::Blob(vec![1, 2]));
    assert_eq!(map_movement_row(&row), Err(CoreError::MappingError));
}

#[test]
fn accounts_list_in_row_order() {
    let rows = vec![account_row(2, "Bob", "bob"), account_row(1, "Alice", "alice")];
    let l = customer_accounts_handler(&rows).unwrap();
    assert_eq!(l.customer_acount_list.len(), 2);
    assert_eq!(l.customer_acount_list[0].id, 2);
    assert_eq!(l.customer_acount_list[1].user_name, "alice");
    let bad = vec![account_row(2, "Bob", "bob"), Row { columns: vec![] }];
    assert_eq!(customer_accounts_handler(&bad), Err(CoreError::MappingError));
    assert_eq!(customer_accounts_handler(&vec![]).unwrap().customer_acount_list.len(), 0);
}

#[test]
fn single_account_matches_stored_row() {
    let rows = vec![account_row(7, "Carol", "carol")];
    assert_eq!(
        customer_account_handler(&params("7"), &rows),
        Ok(CustomerAccount { id: 7, name: "Carol".to_string(), user_name: "carol".to_string() })
    );
}

#[test]
fn unknown_account_is_an_error() {
    assert_eq!(customer_account_handler(&params("1"), &vec![]), Err(CoreError::QueryExecutionFailure));
    assert_eq!(
        customer_account_detail_handler(&params("1"), &vec![], &vec![movement_row(1, 100, 1)]),
        Err(CoreError::QueryExecutionFailure)
    );
}

#[test]
fn detail_of_alice() {
    let accounts = vec![account_row(1, "Alice", "alice")];
    let movements = vec![movement_row(1, 1050, 1), movement_row(2, -200, 1)];
    let d = customer_account_detail_handler(&params("1"), &accounts, &movements).unwrap();
    assert_eq!(d.id, 1);
    assert_eq!(d.name, "Alice");
    assert_eq!(d.user_name, "alice");
    assert_eq!(d.movements, 2);
    assert_eq!(d.total_amount, 850);
}

#[test]
fn detail_counts_only_the_accounts_movements() {
    let a = CustomerAccount { id: 1, name: "Alice".to_string(), user_name: "alice".to_string() };
    let v = vec![movement(1, 500, 1), movement(2, 900, 2), movement(3, -100, 1)];
    let d = account_detail(a, &v);
    assert_eq!(d.movements, 2);
    assert_eq!(d.total_amount, 400);
    let empty = account_detail(CustomerAccount { id: 4, name: "D".to_string(), user_name: "d".to_string() }, &vec![]);
    assert_eq!((empty.movements, empty.total_amount), (0, 0));
}

#[test]
fn detail_mapping_error() {
    let accounts = vec![account_row(1, "Alice", "alice")];
    let movements = vec![Row { columns: vec![col("id", Cell::Integer(1))] }];
    assert_eq!(customer_account_detail_handler(&params("1"), &accounts, &movements), Err(CoreError::MappingError));
}

#[test]
fn balance_of_three_movements() {
    let rows = vec![movement_row(1, 1000, 4), movement_row(2, -300, 4), movement_row(3, 500, 4)];
    assert_eq!(
        customer_account_movements_balance_handler(&params("4"), &rows),
        Ok(CustomerAccountBalance { customer_account_id: 4, balance: 1200 })
    );
}

#[test]
fn balance_takes_last_account_and_empty_is_zero() {
    let v = vec![movement(1, 10, 3), movement(2, 20, 8)];
    assert_eq!(balance_of(&v), CustomerAccountBalance { customer_account_id: 8, balance: 30 });
    assert_eq!(balance_of(&vec![]), CustomerAccountBalance { customer_account_id: 0, balance: 0 });
}

#[test]
fn balance_does_not_overflow() {
    let v = vec![movement(1, i64::MAX, 1), movement(2, i64::MAX, 1)];
    assert_eq!(balance_of(&v).balance, 2 * (i64::MAX as i128));
    let v = vec![movement(1, i64::MIN, 1), movement(2, i64::MIN, 1)];
    assert_eq!(balance_of(&v).balance, 2 * (i64::MIN as i128));
}

#[test]
fn sort_ascending_and_descending() {
    let v = vec![movement(3, 1, 1), movement(1, 2, 1), movement(2, 3, 1)];
    assert_eq!(ids(&sort_movements(v.clone(), true)), vec![1, 2, 3]);
    assert_eq!(ids(&sort_movements(v.clone(), false)), vec![3, 2, 1]);
    let sorted = sort_movements(v, true);
    assert_eq!(sorted[0].amount, 2);
    assert!(sort_movements(vec![], true).is_empty());
}

#[test]
fn sort_keeps_equal_ids() {
    let v = vec![movement(2, 1, 1), movement(1, 2, 1), movement(2, 3, 1)];
    let r = sort_movements(v, false);
    assert_eq!(ids(&r), vec![2, 2, 1]);
    let mut amounts: Vec<i64> = r.iter().map(|m| m.amount).collect();
    amounts.sort();
    assert_eq!(amounts, vec![1, 2, 3]);
}

#[test]
fn arrange_only_sorts_on_request() {
    let v = vec![movement(3, 1, 1), movement(1, 2, 1), movement(2, 3, 1)];
    assert_eq!(ids(&arrange_movements(v.clone(), 0, 1)), vec![3, 1, 2]);
    assert_eq!(ids(&arrange_movements(v.clone(), 2, 1)), vec![3, 1, 2]);
    assert_eq!(ids(&arrange_movements(v.clone(), 1, 1)), vec![1, 2, 3]);
    assert_eq!(ids(&arrange_movements(v, 1, 0)), vec![3, 2, 1]);
}

#[test]
fn movements_handler_sorts_on_request() {
    let rows = vec![movement_row(2, 1, 1), movement_row(5, 1, 1), movement_row(1, 1, 1)];
    let p = SortedParameters { account_id: "1".to_string(), sort: 1, asc: 1 };
    assert_eq!(ids(&customer_account_movements_handler(&p, &rows).unwrap().customer_acount_mmnt_list), vec![1, 2, 5]);
    let p = SortedParameters { account_id: "1".to_string(), sort: 1, asc: 0 };
    assert_eq!(ids(&customer_account_movements_handler(&p, &rows).unwrap().customer_acount_mmnt_list), vec![5, 2, 1]);
    let p = SortedParameters { account_id: "1".to_string(), sort: default_numeric(), asc: 1 };
    assert_eq!(ids(&customer_account_movements_handler(&p, &rows).unwrap().customer_acount_mmnt_list), vec![2, 5, 1]);
    let bad = vec![movement_row(2, 1, 1), Row { columns: vec![] }];
    assert_eq!(customer_account_movements_handler(&p, &bad), Err(CoreError::MappingError));
}

#[test]
fn top_takes_first_rows_then_sorts() {
    let v = vec![movement(4, 1, 1), movement(9, 1, 1), movement(1, 1, 1), movement(7, 1, 1)];
    assert_eq!(ids(&top_movements(v.clone(), 3, 1)), vec![1, 4, 9]);
    assert_eq!(ids(&top_movements(v.clone(), 3, 0)), vec![9, 4, 1]);
    assert_eq!(ids(&top_movements(v.clone(), 10, 1)), vec![1, 4, 7, 9]);
    assert!(top_movements(v, 0, 1).is_empty());
}

#[test]
fn top_handler_reads_only_requested_rows() {
    let rows = vec![movement_row(4, 1, 1), movement_row(9, 1, 1), Row { columns: vec![] }];
    let p = TopSortedParameters { account_id: "1".to_string(), total_elements: 2, asc: 0 };
    let l = customer_account_movements_top_handler(&p, rows).unwrap();
    assert_eq!(ids(&l.customer_acount_mmnt_list), vec![9, 4]);
    let rows = vec![movement_row(4, 1, 1), Row { columns: vec![] }];
    let p = TopSortedParameters { account_id: "1".to_string(), total_elements: 5, asc: 0 };
    assert_eq!(customer_account_movements_top_handler(&p, rows), Err(CoreError::MappingError));
    let p = TopSortedParameters { account_id: "1".to_string(), total_elements: default_elements(), asc: 1 };
    let l = customer_account_movements_top_handler(&p, vec![movement_row(1, 1, 1)]).unwrap();
    assert!(l.customer_acount_mmnt_list.is_empty());
}

#[test]
fn repeated_reads_are_identical() {
    let rows = vec![movement_row(2, 10, 1), movement_row(5, -4, 1), movement_row(1, 3, 1)];
    let p = SortedParameters { account_id: "1".to_string(), sort: 1, asc: 0 };
    assert_eq!(customer_account_movements_handler(&p, &rows), customer_account_movements_handler(&p, &rows));
    assert_eq!(
        customer_account_movements_balance_handler(&params("1"), &rows),
        customer_account_movements_balance_handler(&params("1"), &rows)
    );
    let accounts = vec![account_row(1, "Alice", "alice")];
    assert_eq!(
        customer_account_detail_handler(&params("1"), &accounts, &rows),
        customer_account_detail_handler(&params("1"), &accounts, &rows)
    );
}

#[test]
fn reply_success_and_failures() {
    let r = reply_for(Ok("[]".to_string()));
    assert_eq!(r.status, 200);
    assert_eq!(r.body, "[]");
    assert_eq!(
        r.headers,
        vec![
            ("X-TEST".to_string(), "value".to_string()),
            ("content-type".to_string(), "application/json".to_string())
        ]
    );
    let r = reply_for(Ok("{}".to_string()));
    assert_eq!((r.status, r.headers.len(), r.body.as_str()), (200, 2, "{}"));
    let r = reply_for(Err(CoreError::InvalidParameter));
    assert_eq!((r.status, r.body.as_str()), (400, "\"400 - Bad Request\""));
    for e in [CoreError::ConnectionAcquisitionFailure, CoreError::QueryExecutionFailure, CoreError::MappingError] {
        let r = reply_for(Err(e));
        assert_eq!((r.status, r.body.as_str()), (500, "\"500 - Internal Server Error\""));
        assert_eq!(r.headers.len(), 1);
    }
}

#[test]
fn malformed_account_id_is_rejected_by_every_handler() {
    for bad in ["abc", "", "1 OR 1=1", "0 OR a.ID > 0"] {
        let p = params(bad);
        assert_eq!(customer_account_handler(&p, &vec![account_row(1, "Alice", "alice")]), Err(CoreError::InvalidParameter));
        assert_eq!(
            customer_account_detail_handler(&p, &vec![account_row(1, "Alice", "alice")], &vec![]),
            Err(CoreError::InvalidParameter)
        );
        assert_eq!(
            customer_account_movements_balance_handler(&p, &vec![movement_row(1, 5, 1)]),
            Err(CoreError::InvalidParameter)
        );
        let sp = SortedParameters { account_id: bad.to_string(), sort: 1, asc: 1 };
        assert_eq!(customer_account_movements_handler(&sp, &vec![movement_row(1, 5, 1)]), Err(CoreError::InvalidParameter));
        let tp = TopSortedParameters { account_id: bad.to_string(), total_elements: 3, asc: 1 };
        assert_eq!(
            customer_account_movements_top_handler(&tp, vec![movement_row(1, 5, 1)]),
            Err(CoreError::InvalidParameter)
        );
    }
}

#[test]
fn rows_of_another_account_are_refused() {
    let rows = vec![movement_row(1, 5, 1), movement_row(2, 7, 2)];
    let sp = SortedParameters { account_id: "1".to_string(), sort: 0, asc: 0 };
    assert_eq!(customer_account_movements_handler(&sp, &rows), Err(CoreError::QueryExecutionFailure));
    assert_eq!(customer_account_movements_balance_handler(&params("1"), &rows), Err(CoreError::QueryExecutionFailure));
    assert_eq!(
        customer_account_detail_handler(&params("1"), &vec![account_row(1, "Alice", "alice")], &rows),
        Err(CoreError::QueryExecutionFailure)
    );
    let tp = TopSortedParameters { account_id: "1".to_string(), total_elements: 1, asc: 0 };
    let l = customer_account_movements_top_handler(&tp, rows).unwrap();
    assert_eq!(ids(&l.customer_acount_mmnt_list), vec![1]);
    assert_eq!(
        customer_account_handler(&params("2"), &vec![account_row(1, "Alice", "alice")]),
        Err(CoreError::QueryExecutionFailure)
    );
}

#[test]
fn detail_of_account_without_movements() {
    let d = customer_account_detail_handler(&params("3"), &vec![account_row(3, "Dan", "dan")], &vec![]).unwrap();
    assert_eq!((d.id, d.movements, d.total_amount), (3, 0, 0));
}

#[test]
fn balance_without_movements() {
    assert_eq!(
        customer_account_movements_balance_handler(&params("9"), &vec![]),
        Ok(CustomerAccountBalance { customer_account_id: 0, balance: 0 })
    );
}

#[test]
fn equal_ids_keep_a_fixed_order() {
    let rows = vec![movement_row(2, 1, 1), movement_row(1, 2, 1), movement_row(2, 3, 1)];
    let p = SortedParameters { account_id: "1".to_string(), sort: 1, asc: 0 };
    let first = customer_account_movements_handler(&p, &rows).unwrap();
    let second = customer_account_movements_handler(&p, &rows).unwrap();
    let amounts: Vec<i64> = first.customer_acount_mmnt_list.iter().map(|m| m.amount).collect();
    assert_eq!(amounts, vec![3, 1, 2]);
    assert_eq!(first, second);
}
