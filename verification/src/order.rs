//! The order in which a query returns rows: the columns of its trailing `ORDER BY` clause, and
//! what sorting rows by those columns means.

use vstd::prelude::*;

verus! {

/// True when `c` can appear in an SQL identifier: an ASCII letter, a digit or `_`.
pub open spec fn is_identifier_char(c: char) -> bool {
    ('a' <= c <= 'z') || ('A' <= c <= 'Z') || ('0' <= c <= '9') || c == '_'
}

/// True when `s` is an SQL identifier, such as a column name.
pub open spec fn is_identifier(s: Seq<char>) -> bool {
    s.len() > 0 && forall|i: int| 0 <= i < s.len() ==> is_identifier_char(#[trigger] s[i])
}

/// ` ORDER BY `, the words that start the clause that sorts the rows of a query.
pub open spec fn order_by_words() -> Seq<char> {
    seq![' ', 'O', 'R', 'D', 'E', 'R', ' ', 'B', 'Y', ' ']
}

/// The columns `keys` written as an SQL list, separated by `, `.
pub open spec fn column_list(keys: Seq<Seq<char>>) -> Seq<char>
    decreases keys.len(),
{
    if keys.len() == 0 {
        Seq::<char>::empty()
    } else if keys.len() == 1 {
        keys[0]
    } else {
        column_list(keys.drop_last()) + seq![',', ' '] + keys.last()
    }
}

/// True when the query `q` ends with the clause `ORDER BY k1, ..., km` for the columns `keys`, so
/// that the database returns its rows sorted by `k1`, then by `k2` among rows equal in `k1`, and
/// so on.
pub open spec fn orders_by(q: Seq<char>, keys: Seq<Seq<char>>) -> bool {
    &&& keys.len() > 0
    &&& forall|i: int| 0 <= i < keys.len() ==> is_identifier(#[trigger] keys[i])
    &&& exists|p: Seq<char>| q == p + order_by_words() + column_list(keys)
}

/// True when the row `a` may come before the row `b` in rows sorted by `keys`: they are equal
/// in every key, or the first key in which they differ is smaller in `a`.  A row maps each
/// column name to its value.
pub open spec fn sorted_pair(a: Map<Seq<char>, int>, b: Map<Seq<char>, int>, keys: Seq<Seq<char>>) -> bool
    decreases keys.len(),
{
    if keys.len() == 0 {
        true
    } else {
        a[keys[0]] < b[keys[0]] || (a[keys[0]] == b[keys[0]] && sorted_pair(a, b, keys.drop_first()))
    }
}

/// True when `rows` are in an order that sorting them by `keys` gives.
pub open spec fn sorted_by(rows: Seq<Map<Seq<char>, int>>, keys: Seq<Seq<char>>) -> bool {
    forall|i: int, j: int| 0 <= i < j < rows.len() ==> sorted_pair(#[trigger] rows[i], #[trigger] rows[j], keys)
}

proof fn lemma_orders_by_shape(p: Seq<char>, keys: Seq<Seq<char>>)
    requires
        keys.len() > 0,
        forall|i: int| 0 <= i < keys.len() ==> is_identifier(#[trigger] keys[i]),
    ensures
        ({
            let q = p + order_by_words() + column_list(keys);
            let n = keys.last().len();
            &&& q.len() >= n + 1
            &&& q.skip(q.len() - n) == keys.last()
            &&& q[q.len() - n - 1] == ' '
            &&& keys.len() == 1 ==> q.take(q.len() - n) == p + order_by_words()
            &&& keys.len() > 1 ==> q.take(q.len() - n) == p + order_by_words() + column_list(
                keys.drop_last(),
            ) + seq![',', ' ']
        }),
{
    let q = p + order_by_words() + column_list(keys);
    let last = keys.last();
    assert(is_identifier(keys[keys.len() - 1]));
    if keys.len() == 1 {
        assert(column_list(keys) == keys[0]);
        let front = p + order_by_words();
        assert(q =~= front + last);
        assert(q.skip(q.len() - last.len()) =~= last);
        assert(q.take(q.len() - last.len()) =~= front);
        assert(q[q.len() - last.len() - 1] == front[front.len() - 1]);
    } else {
        let front = p + order_by_words() + column_list(keys.drop_last()) + seq![',', ' '];
        assert(q =~= front + last);
        assert(q.skip(q.len() - last.len()) =~= last);
        assert(q.take(q.len() - last.len()) =~= front);
        assert(q[q.len() - last.len() - 1] == front[front.len() - 1]);
    }
}

/// The columns that a query sorts by are determined by its text: a query cannot end with two
/// different `ORDER BY` clauses.
pub proof fn lemma_orders_by_unique(q: Seq<char>, keys1: Seq<Seq<char>>, keys2: Seq<Seq<char>>)
    requires
        orders_by(q, keys1),
        orders_by(q, keys2),
    ensures
        keys1 == keys2,
    decreases keys1.len(),
{
    let p1 = choose|p: Seq<char>| q == p + order_by_words() + column_list(keys1);
    let p2 = choose|p: Seq<char>| q == p + order_by_words() + column_list(keys2);
    lemma_orders_by_shape(p1, keys1);
    lemma_orders_by_shape(p2, keys2);
    let a = keys1.last();
    let b = keys2.last();
    assert(is_identifier(keys1[keys1.len() - 1]));
    assert(is_identifier(keys2[keys2.len() - 1]));
    let n = q.len();
    if a.len() < b.len() {
        let k = n - a.len() - 1;
        assert(q[k] == ' ');
        assert(q.skip(n - b.len())[k - (n - b.len())] == q[k]);
        assert(is_identifier_char(b[k - (n - b.len())]));
        assert(false);
    }
    if b.len() < a.len() {
        let k = n - b.len() - 1;
        assert(q[k] == ' ');
        assert(q.skip(n - a.len())[k - (n - a.len())] == q[k]);
        assert(is_identifier_char(a[k - (n - a.len())]));
        assert(false);
    }
    assert(a == b);
    let r = q.take(n - a.len());
    if keys1.len() > 1 && keys2.len() == 1 {
        assert(r[r.len() - 2] == ',');
        assert(r[r.len() - 2] == order_by_words()[8]);
        assert(false);
    }
    if keys1.len() == 1 && keys2.len() > 1 {
        assert(r[r.len() - 2] == ',');
        assert(r[r.len() - 2] == order_by_words()[8]);
        assert(false);
    }
    if keys1.len() == 1 {
        assert(keys1 =~= keys2);
    } else {
        let k1 = keys1.drop_last();
        let k2 = keys2.drop_last();
        let r2 = r.take(r.len() - 2);
        assert(r2 =~= p1 + order_by_words() + column_list(k1));
        assert(r2 =~= p2 + order_by_words() + column_list(k2));
        assert forall|i: int| 0 <= i < k1.len() implies is_identifier(#[trigger] k1[i]) by {
            assert(k1[i] == keys1[i]);
        }
        assert forall|i: int| 0 <= i < k2.len() implies is_identifier(#[trigger] k2[i]) by {
            assert(k2[i] == keys2[i]);
        }
        lemma_orders_by_unique(r2, k1, k2);
        assert(keys1 =~= k1.push(a));
        assert(keys2 =~= k2.push(b));
    }
}

} // verus!
