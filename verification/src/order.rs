//! The order in which jobs are retired and claimed.
use vstd::prelude::*;
use vstd::utf8::encode_utf8;

use crate::jobs::{Job, JobRow};
use crate::names::lemma_bytes_identify;

verus! {

/// What jobs are ordered by: two instants, then the bytes of the identifier.
pub struct Rank {
    pub first: int,
    pub second: int,
    pub id: Seq<u8>,
}

/// The byte strings agree up to `k`, and there the left one ends or is smaller.
pub open spec fn differs_at(left: Seq<u8>, right: Seq<u8>, k: int) -> bool {
    &&& 0 <= k <= left.len()
    &&& k < right.len()
    &&& left.take(k) == right.take(k)
    &&& k == left.len() || left[k] < right[k]
}

/// The left byte string comes first in a dictionary.
pub open spec fn bytes_precede(left: Seq<u8>, right: Seq<u8>) -> bool {
    exists|k: int| differs_at(left, right, k)
}

impl Rank {
    pub open spec fn precedes(self, other: Rank) -> bool {
        ||| self.first < other.first
        ||| self.first == other.first && self.second < other.second
        ||| self.first == other.first && self.second == other.second && bytes_precede(
            self.id,
            other.id,
        )
    }
}

/// Expired jobs are retired in the order of their expiry.
pub open spec fn retirement_rank(job: Job) -> Rank {
    Rank {
        first: match job.lease_expires_at {
            Some(expiry) => expiry,
            None => 0,
        },
        second: 0,
        id: encode_utf8(job.id),
    }
}

/// Due jobs are claimed in the order in which they became available.
pub open spec fn claim_rank(job: Job) -> Rank {
    Rank { first: job.available_at, second: job.created_at, id: encode_utf8(job.id) }
}

proof fn lemma_bytes_asymmetric(left: Seq<u8>, right: Seq<u8>)
    requires
        bytes_precede(left, right),
    ensures
        !bytes_precede(right, left),
{
    let k = choose|k: int| differs_at(left, right, k);
    assert forall|m: int| !differs_at(right, left, m) by {
        if differs_at(right, left, m) {
            if m < k {
                assert(left.take(k)[m] == right.take(k)[m]);
            } else if k < m {
                assert(left.take(m)[k] == right.take(m)[k]);
            }
        }
    }
}

proof fn lemma_bytes_transitive(a: Seq<u8>, b: Seq<u8>, c: Seq<u8>)
    requires
        bytes_precede(a, b),
        bytes_precede(b, c),
    ensures
        bytes_precede(a, c),
{
    let k = choose|k: int| differs_at(a, b, k);
    let m = choose|m: int| differs_at(b, c, m);
    let n = if k < m { k } else { m };
    assert(a.take(n) == c.take(n)) by {
        assert(a.take(n) == a.take(k).take(n));
        assert(b.take(n) == b.take(k).take(n));
        assert(b.take(n) == b.take(m).take(n));
        assert(c.take(n) == c.take(m).take(n));
    }
    if k < m {
        assert(b.take(m)[k] == c.take(m)[k]);
    }
    if m < k {
        assert(a.take(k)[m] == b.take(k)[m]);
    }
    assert(differs_at(a, c, n));
}

proof fn lemma_bytes_total(left: Seq<u8>, right: Seq<u8>)
    requires
        left != right,
    ensures
        bytes_precede(left, right) || bytes_precede(right, left),
    decreases left.len(),
{
    if left.len() == 0 {
        assert(left.take(0) == right.take(0));
        assert(right.len() == 0 ==> left =~= right);
        assert(differs_at(left, right, 0));
    } else if right.len() == 0 {
        assert(left.take(0) == right.take(0));
        assert(differs_at(right, left, 0));
    } else if left[0] != right[0] {
        assert(left.take(0) == right.take(0));
        assert(differs_at(left, right, 0) || differs_at(right, left, 0));
    } else {
        let l = left.drop_first();
        let r = right.drop_first();
        assert(l != r) by {
            if l == r {
                assert(left == seq![left[0]] + l);
                assert(right == seq![right[0]] + r);
            }
        }
        lemma_bytes_total(l, r);
        assert forall|k: int| 0 <= k <= l.len() && k <= r.len() && l.take(k) == r.take(
            k,
        ) implies #[trigger] left.take(k + 1) == right.take(k + 1) by {
            assert(left.take(k + 1) == seq![left[0]] + l.take(k));
            assert(right.take(k + 1) == seq![right[0]] + r.take(k));
        }
        if bytes_precede(l, r) {
            let k = choose|k: int| differs_at(l, r, k);
            assert(left.take(k + 1) == right.take(k + 1));
            assert(differs_at(left, right, k + 1));
        } else {
            let k = choose|k: int| differs_at(r, l, k);
            assert(left.take(k + 1) == right.take(k + 1));
            assert(differs_at(right, left, k + 1));
        }
    }
}

/// Of two ranks at most one precedes the other.
pub proof fn lemma_rank_asymmetric(a: Rank, b: Rank)
    requires
        a.precedes(b),
    ensures
        !b.precedes(a),
{
    if bytes_precede(a.id, b.id) {
        lemma_bytes_asymmetric(a.id, b.id);
    }
}

/// Precedence carries over.
pub proof fn lemma_rank_transitive(a: Rank, b: Rank, c: Rank)
    requires
        a.precedes(b),
        b.precedes(c),
    ensures
        a.precedes(c),
{
    if bytes_precede(a.id, b.id) && bytes_precede(b.id, c.id) {
        lemma_bytes_transitive(a.id, b.id, c.id);
    }
}

/// Of the ranks of two jobs with different identifiers at least one precedes the
/// other.
pub proof fn lemma_rank_total(a: Rank, b: Rank, a_id: Seq<char>, b_id: Seq<char>)
    requires
        a.id == encode_utf8(a_id),
        b.id == encode_utf8(b_id),
        a_id != b_id,
    ensures
        a.precedes(b) || b.precedes(a),
{
    if a.id == b.id {
        lemma_bytes_identify(a_id, b_id);
    }
    lemma_bytes_total(a.id, b.id);
}

fn text_precedes(left: &str, right: &str) -> (r: bool)
    ensures
        r == bytes_precede(encode_utf8(left@), encode_utf8(right@)),
{
    let l = left.as_bytes();
    let r = right.as_bytes();
    let mut i: usize = 0;
    while i < l.len() && i < r.len() && l[i] == r[i]
        invariant
            i <= l.len(),
            i <= r.len(),
            forall|j: int| 0 <= j < i ==> l@[j] == r@[j],
        decreases l.len() - i,
    {
        i = i + 1;
    }
    assert(l@.take(i as int) == r@.take(i as int));
    let result = i < r.len() && (i == l.len() || l[i] < r[i]);
    proof {
        if result {
            assert(differs_at(l@, r@, i as int));
        } else {
            assert forall|k: int| !differs_at(l@, r@, k) by {
                if differs_at(l@, r@, k) && i < k {
                    assert(l@.take(k)[i as int] == r@.take(k)[i as int]);
                }
            }
        }
    }
    result
}

/// Whether `left` is retired before `right`.
pub fn retires_before(left: &JobRow, right: &JobRow) -> (r: bool)
    ensures
        r == retirement_rank(left@).precedes(retirement_rank(right@)),
{
    let left_expiry: i64 = match left.lease_expires_at {
        Some(expiry) => expiry.micros,
        None => 0,
    };
    let right_expiry: i64 = match right.lease_expires_at {
        Some(expiry) => expiry.micros,
        None => 0,
    };
    left_expiry < right_expiry || (left_expiry == right_expiry && text_precedes(
        left.id.as_str(),
        right.id.as_str(),
    ))
}

/// Whether `left` is claimed before `right`.
pub fn claims_before(left: &JobRow, right: &JobRow) -> (r: bool)
    ensures
        r == claim_rank(left@).precedes(claim_rank(right@)),
{
    left.available_at.micros < right.available_at.micros || (left.available_at.micros
        == right.available_at.micros && (left.created_at.micros < right.created_at.micros || (
    left.created_at.micros == right.created_at.micros && text_precedes(
        left.id.as_str(),
        right.id.as_str(),
    ))))
}

} // verus!
