use vstd::prelude::*;
use vstd::multiset::Multiset;
use crate::models::{CustomerAccount, CustomerAccountBalance, CustomerAccountDetails, CustomerAccountMovement};

verus! {

broadcast use vstd::seq_lib::group_to_multiset_ensures;

/// `a` may stand before `b` in the requested direction.
pub open spec fn in_order(a: i64, b: i64, ascending: bool) -> bool {
    if ascending {
        a <= b
    } else {
        a >= b
    }
}

/// The movement identifiers of `s` are non-decreasing (ascending) or
/// non-increasing (descending).
pub open spec fn sorted_by_id(s: Seq<CustomerAccountMovement>, ascending: bool) -> bool {
    forall|i: int, j: int| 0 <= i < j < s.len() ==> in_order(#[trigger] s[i].id, #[trigger] s[j].id, ascending)
}

/// The signed sum of the amounts of `s`.
pub open spec fn total(s: Seq<CustomerAccountMovement>) -> int
    decreases s.len(),
{
    if s.len() == 0 {
        0
    } else {
        total(s.drop_last()) + s.last().amount
    }
}

/// How many movements of `s` belong to account `id`.
pub open spec fn count_for(s: Seq<CustomerAccountMovement>, id: i64) -> nat
    decreases s.len(),
{
    if s.len() == 0 {
        0
    } else {
        count_for(s.drop_last(), id) + if s.last().customer_account_id == id { 1nat } else { 0nat }
    }
}

/// The sum of the amounts of the movements of `s` that belong to account `id`.
pub open spec fn total_for(s: Seq<CustomerAccountMovement>, id: i64) -> int
    decreases s.len(),
{
    if s.len() == 0 {
        0
    } else {
        total_for(s.drop_last(), id) + if s.last().customer_account_id == id { s.last().amount as int } else { 0 }
    }
}

/// The account identifier a balance reports: that of the last movement, or 0
/// where there is none.
pub open spec fn balance_account(s: Seq<CustomerAccountMovement>) -> i64 {
    if s.len() == 0 {
        0
    } else {
        s.last().customer_account_id
    }
}

/// The fields of a movement, as plain values: identifier, date, amount,
/// concept and account identifier.
pub open spec fn movement_view(m: CustomerAccountMovement) -> (i64, Seq<char>, i64, Seq<char>, i64) {
    (m.id, m.movement_date@, m.amount, m.concept@, m.customer_account_id)
}

pub open spec fn views(s: Seq<CustomerAccountMovement>) -> Seq<(i64, Seq<char>, i64, Seq<char>, i64)> {
    s.map_values(|m: CustomerAccountMovement| movement_view(m))
}

/// Where a movement with identifier `id` goes in `s`: before the first
/// movement that may not precede it.
pub open spec fn insertion_index(s: Seq<(i64, Seq<char>, i64, Seq<char>, i64)>, id: i64, ascending: bool) -> int
    decreases s.len(),
{
    if s.len() == 0 {
        0
    } else if !in_order(s[0].0, id, ascending) {
        0
    } else {
        1 + insertion_index(s.drop_first(), id, ascending)
    }
}

/// `s` ordered by identifier: each movement, from the last to the first,
/// inserted before the first one that may not precede it. Equal identifiers
/// thus keep a fixed order, so the result is a function of `s`.
pub open spec fn sorted_views(s: Seq<(i64, Seq<char>, i64, Seq<char>, i64)>, ascending: bool) -> Seq<
    (i64, Seq<char>, i64, Seq<char>, i64),
>
    decreases s.len(),
{
    if s.len() == 0 {
        s
    } else {
        let rest = sorted_views(s.drop_first(), ascending);
        rest.insert(insertion_index(rest, s[0].0, ascending), s[0])
    }
}

fn ordered(a: i64, b: i64, ascending: bool) -> (r: bool)
    ensures
        r == in_order(a, b, ascending),
{
    if ascending {
        a <= b
    } else {
        a >= b
    }
}

/// The place where a movement with identifier `id` goes in the sorted `out`:
/// after every movement that may precede it, before the rest.
fn insertion_point(out: &Vec<CustomerAccountMovement>, id: i64, ascending: bool) -> (k: usize)
    requires
        sorted_by_id(out@, ascending),
    ensures
        k <= out.len(),
        forall|i: int| 0 <= i < k ==> in_order(#[trigger] out@[i].id, id, ascending),
        forall|i: int| k <= i < out.len() ==> in_order(id, #[trigger] out@[i].id, ascending),
        k == insertion_index(views(out@), id, ascending),
{
    let ghost vs = views(out@);
    let mut k: usize = 0;
    assert(vs.subrange(0, vs.len() as int) =~= vs);
    while k < out.len()
        invariant
            k <= out.len(),
            vs == views(out@),
            sorted_by_id(out@, ascending),
            forall|i: int| 0 <= i < k ==> in_order(#[trigger] out@[i].id, id, ascending),
            insertion_index(vs, id, ascending) == k + insertion_index(vs.subrange(k as int, vs.len() as int), id, ascending),
        decreases out.len() - k,
    {
        let ghost rest = vs.subrange(k as int, vs.len() as int);
        assert(rest[0] == movement_view(out@[k as int]));
        assert(rest.drop_first() =~= vs.subrange(k + 1, vs.len() as int));
        if !ordered(out[k].id, id, ascending) {
            assert forall|i: int| k <= i < out.len() implies in_order(id, #[trigger] out@[i].id, ascending) by {
                if i > k {
                    assert(in_order(out@[k as int].id, out@[i].id, ascending));
                }
            }
            return k;
        }
        k = k + 1;
    }
    assert(vs.subrange(k as int, vs.len() as int).len() == 0);
    k
}

/// Orders movements by identifier, ascending or descending.
pub fn sort_movements(v: Vec<CustomerAccountMovement>, ascending: bool) -> (r: Vec<CustomerAccountMovement>)
    ensures
        r@.to_multiset() == v@.to_multiset(),
        r.len() == v.len(),
        sorted_by_id(r@, ascending),
        views(r@) == sorted_views(views(v@), ascending),
{
    let ghost n = v.len() as int;
    let mut input = v;
    let mut out: Vec<CustomerAccountMovement> = Vec::new();
    assert(views(v@.subrange(n, n)) =~= Seq::empty());
    assert(views(out@) =~= Seq::empty());
    while input.len() > 0
        invariant
            n == v.len(),
            input.len() <= n,
            input@ == v@.subrange(0, input.len() as int),
            views(out@) == sorted_views(views(v@.subrange(input.len() as int, n)), ascending),
            out@.to_multiset().add(input@.to_multiset()) == v@.to_multiset(),
            sorted_by_id(out@, ascending),
        decreases input.len(),
    {
        let ghost before_in = input@;
        let ghost before_out = out@;
        let ghost len = input.len() as int;
        let m = input.pop().unwrap();
        assert(before_in =~= input@.push(m));
        assert(input@ =~= v@.subrange(0, len - 1));
        let pos = insertion_point(&out, m.id, ascending);
        out.insert(pos, m);
        assert(out@ =~= before_out.insert(pos as int, m));
        proof {
            let suffix = views(v@.subrange(len - 1, n));
            assert(suffix.drop_first() =~= views(v@.subrange(len, n)));
            assert(suffix[0] == movement_view(m));
            assert(views(out@) =~= views(before_out).insert(pos as int, movement_view(m)));
        }
        assert forall|i: int| 0 <= i < out.len() implies #[trigger] out@[i] == if i < pos {
            before_out[i]
        } else if i == pos {
            m
        } else {
            before_out[i - 1]
        } by {}
        assert(sorted_by_id(out@, ascending)) by {
            assert forall|i: int, j: int| 0 <= i < j < out.len() implies in_order(#[trigger] out@[i].id, #[trigger] out@[j].id, ascending) by {
                if j < pos {
                } else if j == pos {
                } else if i < pos {
                    assert(in_order(before_out[i].id, m.id, ascending));
                    assert(in_order(m.id, before_out[j - 1].id, ascending));
                } else if i == pos {
                } else {
                    assert(in_order(before_out[i - 1].id, before_out[j - 1].id, ascending));
                }
            }
        }
        assert(out@.to_multiset().add(input@.to_multiset()) =~= v@.to_multiset());
    }
    assert(input@.to_multiset() =~= Multiset::empty());
    assert(v@.subrange(0, n) =~= v@);
    assert(out@.to_multiset() =~= v@.to_multiset());
    assert(out@.to_multiset().len() == v@.to_multiset().len());
    out
}

/// The movement list endpoint's order policy: with `sort == 1` the
/// movements are ordered by identifier, ascending where `asc != 0` and
/// descending where `asc == 0`; otherwise they keep the order the store gave.
pub fn arrange_movements(v: Vec<CustomerAccountMovement>, sort: usize, asc: usize) -> (r: Vec<CustomerAccountMovement>)
    ensures
        sort != 1 ==> r@ == v@,
        sort == 1 ==> r@.to_multiset() == v@.to_multiset() && r.len() == v.len() && sorted_by_id(r@, asc != 0),
        sort == 1 ==> views(r@) == sorted_views(views(v@), asc != 0),
{
    if sort == 1 {
        sort_movements(v, asc != 0)
    } else {
        v
    }
}

/// The first `n` movements in the order the store gave, or all of them where
/// there are fewer, then ordered by identifier: ascending where `asc != 0`,
/// descending where `asc == 0`.
pub fn top_movements(v: Vec<CustomerAccountMovement>, n: usize, asc: usize) -> (r: Vec<CustomerAccountMovement>)
    ensures
        r.len() == if n < v.len() { n } else { v.len() },
        r@.to_multiset() == v@.take(if n < v.len() { n as int } else { v.len() as int }).to_multiset(),
        views(r@) == sorted_views(views(v@.take(if n < v.len() { n as int } else { v.len() as int })), asc != 0),
        sorted_by_id(r@, asc != 0),
{
    let mut first = v;
    first.truncate(n);
    assert(first@ =~= v@.take(if n < v.len() { n as int } else { v.len() as int }));
    sort_movements(first, asc != 0)
}

proof fn lemma_total_bounds(s: Seq<CustomerAccountMovement>)
    ensures
        -(s.len() as int) * 0x8000_0000_0000_0000 <= total(s) <= (s.len() as int) * 0x8000_0000_0000_0000,
    decreases s.len(),
{
    if s.len() > 0 {
        lemma_total_bounds(s.drop_last());
    }
}

/// The balance of a list of movements: the sum of every amount, and the
/// account identifier of the last movement read (0 where there is none).
pub fn balance_of(v: &Vec<CustomerAccountMovement>) -> (r: CustomerAccountBalance)
    ensures
        r.balance == total(v@),
        r.customer_account_id == balance_account(v@),
{
    let mut balance: i128 = 0;
    let mut ca_id: i64 = 0;
    let mut k: usize = 0;
    while k < v.len()
        invariant
            k <= v.len(),
            balance == total(v@.take(k as int)),
            ca_id == balance_account(v@.take(k as int)),
        decreases v.len() - k,
    {
        proof {
            assert(v@.take(k as int + 1).drop_last() =~= v@.take(k as int));
            lemma_total_bounds(v@.take(k as int));
        }
        ca_id = v[k].customer_account_id;
        balance = balance + v[k].amount as i128;
        k = k + 1;
    }
    assert(v@.take(k as int) =~= v@);
    CustomerAccountBalance { customer_account_id: ca_id, balance }
}

proof fn lemma_total_for_bounds(s: Seq<CustomerAccountMovement>, id: i64)
    ensures
        count_for(s, id) <= s.len(),
        -(s.len() as int) * 0x8000_0000_0000_0000 <= total_for(s, id) <= (s.len() as int) * 0x8000_0000_0000_0000,
    decreases s.len(),
{
    if s.len() > 0 {
        lemma_total_for_bounds(s.drop_last(), id);
    }
}

/// The detail view of `account`: its fields, with the number and the sum of
/// the movements in `v` that belong to it.
pub fn account_detail(account: CustomerAccount, v: &Vec<CustomerAccountMovement>) -> (r: CustomerAccountDetails)
    ensures
        r.id == account.id,
        r.name == account.name,
        r.user_name == account.user_name,
        r.movements == count_for(v@, account.id),
        r.total_amount == total_for(v@, account.id),
{
    let mut count: usize = 0;
    let mut sum: i128 = 0;
    let mut k: usize = 0;
    while k < v.len()
        invariant
            k <= v.len(),
            count == count_for(v@.take(k as int), account.id),
            sum == total_for(v@.take(k as int), account.id),
        decreases v.len() - k,
    {
        proof {
            assert(v@.take(k as int + 1).drop_last() =~= v@.take(k as int));
            lemma_total_for_bounds(v@.take(k as int), account.id);
        }
        if v[k].customer_account_id == account.id {
            count = count + 1;
            sum = sum + v[k].amount as i128;
        }
        k = k + 1;
    }
    assert(v@.take(k as int) =~= v@);
    CustomerAccountDetails {
        id: account.id,
        name: account.name,
        user_name: account.user_name,
        movements: count,
        total_amount: sum,
    }
}

/// No two movements of `s` share an identifier.
pub open spec fn unique_ids(s: Seq<CustomerAccountMovement>) -> bool {
    forall|i: int, j: int| 0 <= i < s.len() && 0 <= j < s.len() && i != j ==> #[trigger] s[i].id != #[trigger] s[j].id
}

/// Where every movement belongs to account `id`, the detail's count is the
/// number of movements and its total is the same sum the balance reports.
pub proof fn lemma_detail_of_own_movements(s: Seq<CustomerAccountMovement>, id: i64)
    requires
        forall|i: int| 0 <= i < s.len() ==> #[trigger] s[i].customer_account_id == id,
    ensures
        count_for(s, id) == s.len(),
        total_for(s, id) == total(s),
    decreases s.len(),
{
    if s.len() > 0 {
        let rest = s.drop_last();
        assert forall|i: int| 0 <= i < rest.len() implies #[trigger] rest[i].customer_account_id == id by {
            assert(rest[i] == s[i]);
        }
        lemma_detail_of_own_movements(rest, id);
        assert(s.last() == s[s.len() - 1]);
    }
}

/// Ordering by identifier is determined: two orderings of the same
/// movements in the same direction are the same sequence, where
/// identifiers are unique. Reading the same movements twice therefore
/// yields the same ordered list.
pub proof fn lemma_sorted_order_unique(a: Seq<CustomerAccountMovement>, b: Seq<CustomerAccountMovement>, ascending: bool)
    requires
        a.to_multiset() == b.to_multiset(),
        sorted_by_id(a, ascending),
        sorted_by_id(b, ascending),
        unique_ids(a),
    ensures
        a == b,
    decreases a.len(),
{
    a.to_multiset_ensures();
    b.to_multiset_ensures();
    if a.len() == 0 {
        assert(b.len() == 0);
        assert(a =~= b);
    } else {
        assert(b.len() == a.len());
        assert(a.to_multiset().count(b[0]) > 0);
        assert(b.to_multiset().count(a[0]) > 0);
        let i = choose|i: int| 0 <= i < a.len() && a[i] == b[0];
        let j = choose|j: int| 0 <= j < b.len() && b[j] == a[0];
        if i != 0 {
            assert(in_order(a[0].id, a[i].id, ascending));
        }
        if j != 0 {
            assert(in_order(b[0].id, b[j].id, ascending));
        }
        assert(a[0].id == a[i].id);
        assert(i == 0);
        assert(a[0] == b[0]);
        let a1 = a.drop_first();
        let b1 = b.drop_first();
        assert(a.remove(0) =~= a1);
        assert(b.remove(0) =~= b1);
        assert(a1.to_multiset() == b1.to_multiset());
        assert(sorted_by_id(a1, ascending)) by {
            assert forall|p: int, q: int| 0 <= p < q < a1.len() implies in_order(#[trigger] a1[p].id, #[trigger] a1[q].id, ascending) by {
                assert(a1[p] == a[p + 1] && a1[q] == a[q + 1]);
            }
        }
        assert(sorted_by_id(b1, ascending)) by {
            assert forall|p: int, q: int| 0 <= p < q < b1.len() implies in_order(#[trigger] b1[p].id, #[trigger] b1[q].id, ascending) by {
                assert(b1[p] == b[p + 1] && b1[q] == b[q + 1]);
            }
        }
        assert(unique_ids(a1)) by {
            assert forall|p: int, q: int| 0 <= p < a1.len() && 0 <= q < a1.len() && p != q implies #[trigger] a1[p].id != #[trigger] a1[q].id by {
                assert(a1[p] == a[p + 1] && a1[q] == a[q + 1]);
            }
        }
        lemma_sorted_order_unique(a1, b1, ascending);
        assert(a =~= b) by {
            assert forall|k: int| 0 <= k < a.len() implies a[k] == b[k] by {
                if k > 0 {
                    assert(a[k] == a1[k - 1] && b[k] == b1[k - 1]);
                }
            }
        }
    }
}

/// Two lists with the same movements agree on whether they all belong to
/// account `id`.
pub proof fn lemma_same_movements_same_account(a: Seq<CustomerAccountMovement>, b: Seq<CustomerAccountMovement>, id: i64)
    requires
        a.to_multiset() == b.to_multiset(),
        forall|i: int| 0 <= i < b.len() ==> #[trigger] b[i].customer_account_id == id,
    ensures
        forall|i: int| 0 <= i < a.len() ==> #[trigger] a[i].customer_account_id == id,
{
    a.to_multiset_ensures();
    b.to_multiset_ensures();
    assert forall|i: int| 0 <= i < a.len() implies #[trigger] a[i].customer_account_id == id by {
        assert(a.contains(a[i]));
        assert(a.to_multiset().count(a[i]) > 0);
        assert(b.contains(a[i]));
    }
}

} // verus!
