//! The bulk existence check: each candidate is sent under the positional id
//! `file_<index>` with its digest; the server's verdicts name candidates by
//! those ids, and only candidates with an `accept` verdict are uploaded.
use vstd::prelude::*;

use crate::digest::Candidate;
use crate::text::{
    all_digits, decimal, digit_char, digit_value, digits_value, is_digit, parse_unsigned,
    parse_unsigned_chars, push_char, push_decimal, chars_of, unsigned_digits,
};

verus! {

/// One entry of the check request.
pub struct CheckItem {
    pub id: String,
    pub checksum: String,
}

/// One verdict of the check response; `reason` is carried and not read.
pub struct CheckResult {
    pub id: String,
    pub action: String,
    pub reason: Option<String>,
}

pub open spec fn id_prefix() -> Seq<char> {
    seq!['f', 'i', 'l', 'e', '_']
}

pub open spec fn accept_word() -> Seq<char> {
    seq!['a', 'c', 'c', 'e', 'p', 't']
}

/// The id under which the candidate at position `i` is sent.
pub open spec fn file_id(i: nat) -> Seq<char> {
    id_prefix() + decimal(i)
}

/// The position that an id names: `file_` followed by text that parses as a
/// `usize`.
pub open spec fn parse_file_id(id: Seq<char>) -> Option<nat> {
    if id.len() >= 5 && id.subrange(0, 5) == id_prefix() {
        parse_unsigned(id.subrange(5, id.len() as int), usize::MAX as nat)
    } else {
        None
    }
}

/// Whether some verdict accepts the candidate at position `i`.
pub open spec fn accepted(results: Seq<CheckResult>, i: nat) -> bool {
    exists|j: int|
        0 <= j < results.len() && (#[trigger] results[j]).action@ == accept_word()
            && parse_file_id(results[j].id@) == Some(i)
}

/// The accepted positions below `k`, in increasing order.
pub open spec fn accepted_upto(results: Seq<CheckResult>, k: nat) -> Seq<nat>
    decreases k,
{
    if k == 0 {
        Seq::empty()
    } else {
        let prev = accepted_upto(results, (k - 1) as nat);
        if accepted(results, (k - 1) as nat) {
            prev.push((k - 1) as nat)
        } else {
            prev
        }
    }
}

proof fn lemma_decimal_digits(n: nat)
    ensures
        decimal(n).len() > 0,
        all_digits(decimal(n)),
        digits_value(decimal(n)) == n,
        is_digit(decimal(n)[0]),
    decreases n,
{
    if n >= 10 {
        lemma_decimal_digits(n / 10);
        let d = decimal(n);
        assert(d.drop_last() =~= decimal(n / 10));
        assert(digit_value(digit_char(n % 10)) == n % 10);
        assert(d.last() == digit_char(n % 10));
        assert(digits_value(d) == digits_value(decimal(n / 10)) * 10 + digit_value(d.last()));
        assert((n / 10) * 10 + n % 10 == n);
        assert(all_digits(d)) by {
            assert forall|i: int| 0 <= i < d.len() implies is_digit(#[trigger] d[i]) by {
                if i < d.len() - 1 {
                    assert(d[i] == decimal(n / 10)[i]);
                }
            }
        }
        assert(d[0] == decimal(n / 10)[0]);
    } else {
        let d = decimal(n);
        assert(d.drop_last() =~= Seq::<char>::empty());
        assert(digits_value(Seq::<char>::empty()) == 0);
        assert(digits_value(d) == digits_value(d.drop_last()) * 10 + digit_value(d.last()));
        assert(digit_value(digit_char(n)) == n);
    }
}

/// The id of a position names that position again.
pub proof fn lemma_file_id_round_trip(i: nat)
    requires
        i <= usize::MAX,
    ensures
        parse_file_id(file_id(i)) == Some(i),
{
    lemma_decimal_digits(i);
    let id = file_id(i);
    assert(id.subrange(0, 5) =~= id_prefix());
    assert(id.subrange(5, id.len() as int) =~= decimal(i));
    assert(unsigned_digits(decimal(i)) == decimal(i));
}

/// The accepted positions below `k` are all below `k`, strictly increasing,
/// and are exactly the positions that some verdict accepts.
pub proof fn lemma_accepted_upto(results: Seq<CheckResult>, k: nat)
    ensures
        forall|m: int| 0 <= m < accepted_upto(results, k).len() ==> #[trigger] accepted_upto(results, k)[m] < k,
        forall|a: int, b: int|
            0 <= a < b < accepted_upto(results, k).len() ==> accepted_upto(results, k)[a] < accepted_upto(results, k)[b],
        forall|i: nat| i < k ==> (accepted(results, i) <==> accepted_upto(results, k).contains(i)),
    decreases k,
{
    if k > 0 {
        lemma_accepted_upto(results, (k - 1) as nat);
        let prev = accepted_upto(results, (k - 1) as nat);
        if accepted(results, (k - 1) as nat) {
            let cur = prev.push((k - 1) as nat);
            assert forall|i: nat| i < k implies (accepted(results, i) <==> cur.contains(i)) by {
                if i < k - 1 {
                    if cur.contains(i) {
                        let m = choose|m: int| 0 <= m < cur.len() && cur[m] == i;
                        assert(m < prev.len());
                        assert(prev[m] == i);
                    }
                    if prev.contains(i) {
                        let m = choose|m: int| 0 <= m < prev.len() && prev[m] == i;
                        assert(cur[m] == i);
                    }
                } else {
                    assert(cur[cur.len() - 1] == i);
                }
            }
        } else {
            assert forall|i: nat| i < k implies (accepted(results, i) <==> prev.contains(i)) by {
                if i == k - 1 && prev.contains(i) {
                    let m = choose|m: int| 0 <= m < prev.len() && prev[m] == i;
                    assert(prev[m] < k - 1);
                }
            }
        }
    }
}

/// A candidate that no verdict accepts is not selected: content that the
/// server already holds is not sent again.
pub proof fn lemma_known_content_not_selected(results: Seq<CheckResult>, n: nat, i: nat)
    requires
        forall|j: int|
            0 <= j < results.len() && parse_file_id((#[trigger] results[j]).id@) == Some(i)
                ==> results[j].action@ != accept_word(),
    ensures
        !accepted_upto(results, n).contains(i),
{
    lemma_accepted_upto(results, n);
    if accepted_upto(results, n).contains(i) {
        let m = choose|m: int| 0 <= m < accepted_upto(results, n).len() && accepted_upto(results, n)[m] == i;
        assert(accepted_upto(results, n)[m] < n);
        assert(accepted(results, i));
    }
}

/// When every verdict is other than `accept`, nothing is selected.
pub proof fn lemma_no_accept_selects_nothing(results: Seq<CheckResult>, n: nat)
    requires
        forall|j: int| 0 <= j < results.len() ==> (#[trigger] results[j]).action@ != accept_word(),
    ensures
        accepted_upto(results, n).len() == 0,
{
    lemma_accepted_upto(results, n);
    if accepted_upto(results, n).len() > 0 {
        let i = accepted_upto(results, n)[0];
        assert(accepted_upto(results, n).contains(i));
        assert(accepted(results, i));
    }
}

/// A verdict whose id names no position below `n` (out of range, or not
/// `file_` followed by a number) changes nothing in the selection.
pub proof fn lemma_stray_verdict_ignored(results: Seq<CheckResult>, extra: CheckResult, n: nat)
    requires
        match parse_file_id(extra.id@) {
            Some(k) => k >= n,
            None => true,
        },
    ensures
        accepted_upto(results.push(extra), n) == accepted_upto(results, n),
    decreases n,
{
    if n > 0 {
        lemma_stray_verdict_ignored(results, extra, (n - 1) as nat);
        let i = (n - 1) as nat;
        let more = results.push(extra);
        if accepted(more, i) {
            let j = choose|j: int|
                0 <= j < more.len() && (#[trigger] more[j]).action@ == accept_word()
                    && parse_file_id(more[j].id@) == Some(i);
            assert(j < results.len());
            assert(results[j] == more[j]);
        }
        if accepted(results, i) {
            let j = choose|j: int|
                0 <= j < results.len() && (#[trigger] results[j]).action@ == accept_word()
                    && parse_file_id(results[j].id@) == Some(i);
            assert(more[j] == results[j]);
        }
    }
}

/// The request entries: the candidate at position `i` goes under the id
/// `file_<i>` with its digest.
pub fn check_items(candidates: &Vec<Candidate>) -> (r: Vec<CheckItem>)
    ensures
        r@.len() == candidates@.len(),
        forall|i: int|
            0 <= i < r@.len() ==> (#[trigger] r@[i]).id@ == file_id(i as nat)
                && r@[i].checksum@ == candidates@[i].digest@,
{
    let mut out: Vec<CheckItem> = Vec::new();
    let mut i: usize = 0;
    while i < candidates.len()
        invariant
            i <= candidates@.len(),
            out@.len() == i,
            forall|k: int|
                0 <= k < i ==> (#[trigger] out@[k]).id@ == file_id(k as nat)
                    && out@[k].checksum@ == candidates@[k].digest@,
        decreases candidates@.len() - i,
    {
        let mut id = String::new();
        push_char(&mut id, 'f');
        push_char(&mut id, 'i');
        push_char(&mut id, 'l');
        push_char(&mut id, 'e');
        push_char(&mut id, '_');
        assert(id@ =~= id_prefix());
        push_decimal(&mut id, i as u64);
        out.push(CheckItem { id, checksum: candidates[i].digest.clone() });
        i = i + 1;
    }
    out
}

/// Reads the position named by a verdict id; `None` for any id that is not
/// `file_` followed by a `usize`.
pub fn file_index(id: &str) -> (r: Option<usize>)
    ensures
        r matches Some(v) ==> parse_file_id(id@) == Some(v as nat),
        r is None ==> parse_file_id(id@) is None,
{
    let c = chars_of(id);
    if c.len() < 5 || c[0] != 'f' || c[1] != 'i' || c[2] != 'l' || c[3] != 'e' || c[4] != '_' {
        assert(c@.len() < 5 || c@.subrange(0, 5) != id_prefix()) by {
            if c@.len() >= 5 && c@.subrange(0, 5) == id_prefix() {
                assert(c@.subrange(0, 5)[0] == c@[0]);
                assert(c@.subrange(0, 5)[1] == c@[1]);
                assert(c@.subrange(0, 5)[2] == c@[2]);
                assert(c@.subrange(0, 5)[3] == c@[3]);
                assert(c@.subrange(0, 5)[4] == c@[4]);
            }
        }
        return None;
    }
    assert(c@.subrange(0, 5) =~= id_prefix());
    let tail = c.as_slice().split_at(5).1;
    assert(tail@ =~= c@.subrange(5, c@.len() as int));
    match parse_unsigned_chars(tail, usize::MAX as u64) {
        Some(v) => Some(v as usize),
        None => None,
    }
}

fn is_accept(action: &str) -> (r: bool)
    ensures
        r == (action@ == accept_word()),
{
    let c = chars_of(action);
    let r = c.len() == 6 && c[0] == 'a' && c[1] == 'c' && c[2] == 'c' && c[3] == 'e' && c[4] == 'p'
        && c[5] == 't';
    proof {
        if r {
            assert(c@ =~= accept_word());
        } else if c@ == accept_word() {
            assert(c@[0] == 'a' && c@[1] == 'c' && c@[5] == 't');
        }
    }
    r
}

/// The positions below `n` that some verdict accepts, in increasing order,
/// each once. Verdicts whose id names no position below `n` are ignored.
pub fn accepted_indices(n: usize, results: &Vec<CheckResult>) -> (r: Vec<usize>)
    ensures
        r@.len() == accepted_upto(results@, n as nat).len(),
        forall|k: int| 0 <= k < r@.len() ==> #[trigger] r@[k] as nat == accepted_upto(results@, n as nat)[k],
{
    let mut marks: Vec<bool> = Vec::new();
    let mut i: usize = 0;
    while i < n
        invariant
            i <= n,
            marks@.len() == i,
            forall|k: int| 0 <= k < i ==> !#[trigger] marks@[k],
        decreases n - i,
    {
        marks.push(false);
        i = i + 1;
    }
    let mut j: usize = 0;
    while j < results.len()
        invariant
            j <= results@.len(),
            marks@.len() == n,
            forall|k: int|
                0 <= k < n ==> (#[trigger] marks@[k] <==> exists|jj: int|
                    0 <= jj < j && (#[trigger] results@[jj]).action@ == accept_word()
                        && parse_file_id(results@[jj].id@) == Some(k as nat)),
        decreases results@.len() - j,
    {
        let res = &results[j];
        if is_accept(res.action.as_str()) {
            match file_index(res.id.as_str()) {
                Some(idx) => {
                    if idx < n {
                        marks.set(idx, true);
                    }
                },
                None => {},
            }
        }
        assert forall|k: int|
            0 <= k < n implies (#[trigger] marks@[k] <==> exists|jj: int|
                0 <= jj < j + 1 && (#[trigger] results@[jj]).action@ == accept_word()
                    && parse_file_id(results@[jj].id@) == Some(k as nat)) by {
            if marks@[k] && !(exists|jj: int|
                0 <= jj < j && (#[trigger] results@[jj]).action@ == accept_word()
                    && parse_file_id(results@[jj].id@) == Some(k as nat)) {
                assert(results@[j as int].action@ == accept_word()
                    && parse_file_id(results@[j as int].id@) == Some(k as nat));
            }
        }
        j = j + 1;
    }
    let mut out: Vec<usize> = Vec::new();
    let mut i: usize = 0;
    while i < n
        invariant
            i <= n,
            marks@.len() == n,
            forall|k: int| 0 <= k < n ==> (#[trigger] marks@[k] <==> accepted(results@, k as nat)),
            out@.len() == accepted_upto(results@, i as nat).len(),
            forall|k: int| 0 <= k < out@.len() ==> #[trigger] out@[k] as nat == accepted_upto(results@, i as nat)[k],
        decreases n - i,
    {
        if marks[i] {
            out.push(i);
        }
        i = i + 1;
    }
    out
}

/// The candidates that the verdicts accept, in their original order, each
/// once.
pub fn select_accepted(candidates: &Vec<Candidate>, results: &Vec<CheckResult>) -> (r: Vec<Candidate>)
    ensures
        r@.len() == accepted_upto(results@, candidates@.len()).len(),
        forall|k: int| 0 <= k < r@.len() ==> {
            let p = #[trigger] accepted_upto(results@, candidates@.len())[k] as int;
            &&& r@[k].path@ == candidates@[p].path@
            &&& r@[k].digest@ == candidates@[p].digest@
            &&& r@[k].data@ == candidates@[p].data@
        },
{
    let idx = accepted_indices(candidates.len(), results);
    proof {
        lemma_accepted_upto(results@, candidates@.len());
    }
    let mut out: Vec<Candidate> = Vec::new();
    let mut k: usize = 0;
    while k < idx.len()
        invariant
            k <= idx@.len(),
            idx@.len() == accepted_upto(results@, candidates@.len()).len(),
            forall|m: int| 0 <= m < idx@.len() ==> #[trigger] idx@[m] as nat == accepted_upto(results@, candidates@.len())[m],
            forall|m: int| 0 <= m < accepted_upto(results@, candidates@.len()).len() ==> #[trigger] accepted_upto(results@, candidates@.len())[m] < candidates@.len(),
            out@.len() == k,
            forall|m: int| 0 <= m < k ==> {
                let p = #[trigger] accepted_upto(results@, candidates@.len())[m] as int;
                &&& out@[m].path@ == candidates@[p].path@
                &&& out@[m].digest@ == candidates@[p].digest@
                &&& out@[m].data@ == candidates@[p].data@
            },
        decreases idx@.len() - k,
    {
        let p = idx[k];
        assert(idx@[k as int] as nat == accepted_upto(results@, candidates@.len())[k as int]);
        out.push(candidates[p].duplicate());
        k = k + 1;
    }
    out
}

} // verus!
