//! The rebalancer admin's rules: which system status may be set, and how the
//! denomination whitelists are edited (removals first, each of which must
//! exist, then additions).
use vstd::prelude::*;
use crate::chain::{Pair, Timestamp};
use crate::decimal::Decimal;
use crate::rebalancer::{BaseDenom, ContractError};

verus! {

/// Where the system rebalance stands.
#[derive(Clone, Debug, PartialEq, Eq)]
pub enum SystemRebalanceStatus {
    /// No cycle has run yet; the first may start at `cycle_start`.
    NotStarted { cycle_start: Timestamp },
    /// A cycle is under way: the account to continue after, and the prices
    /// fetched when the cycle started.
    Processing { cycle_started: Timestamp, start_from: String, prices: Vec<(Pair, Decimal)> },
    /// The cycle is done; the next may start at `next_cycle`.
    Finished { next_cycle: Timestamp },
}

/// The admin may set any status but `Processing`, which only the system sets.
pub fn check_status_update(status: &SystemRebalanceStatus) -> (r: Result<(), ContractError>)
    ensures
        status is Processing ==> r == Err::<(), ContractError>(ContractError::CantUpdateStatusToProcessing),
        !(status is Processing) ==> r is Ok,
{
    match status {
        SystemRebalanceStatus::Processing { .. } => Err(ContractError::CantUpdateStatusToProcessing),
        _ => Ok(()),
    }
}

/// `x` is among the strings of `s`.
pub open spec fn holds_text(s: Seq<String>, x: Seq<char>) -> bool {
    exists|i: int| 0 <= i < s.len() && (#[trigger] s[i])@ == x
}

/// No string occurs twice in `s`.
pub open spec fn distinct(s: Seq<String>) -> bool {
    forall|i: int, j: int| 0 <= i < j < s.len() ==> (#[trigger] s[i])@ != (#[trigger] s[j])@
}

/// The first removal, among the first `n`, that names a denomination not in
/// the whitelist (or one removed already).
pub open spec fn first_bad_removal(denoms: Seq<String>, to_remove: Seq<String>, n: int) -> Option<int>
    decreases n,
{
    if n <= 0 {
        None
    } else {
        match first_bad_removal(denoms, to_remove, n - 1) {
            Some(j) => Some(j),
            None => if !holds_text(denoms, to_remove[n - 1]@) || holds_text(to_remove.take(n - 1), to_remove[n - 1]@) {
                Some(n - 1)
            } else {
                None
            },
        }
    }
}

fn find_string(s: &Vec<String>, x: &String) -> (r: Option<usize>)
    ensures
        r matches Some(i) ==> i < s.len() && s@[i as int]@ == x@,
        r is None ==> !holds_text(s@, x@),
{
    let mut i: usize = 0;
    while i < s.len()
        invariant
            0 <= i <= s.len(),
            forall|k: int| 0 <= k < i ==> (#[trigger] s@[k])@ != x@,
        decreases s.len() - i,
    {
        if s[i] == *x {
            return Some(i);
        }
        i = i + 1;
    }
    None
}

proof fn lemma_remove_distinct(s: Seq<String>, idx: int)
    requires
        distinct(s),
        0 <= idx < s.len(),
    ensures
        distinct(s.remove(idx)),
        forall|x: Seq<char>| holds_text(s.remove(idx), x) <==> (holds_text(s, x) && x != s[idx]@),
{
    let t = s.remove(idx);
    assert forall|i: int, j: int| 0 <= i < j < t.len() implies (#[trigger] t[i])@ != (#[trigger] t[j])@ by {
        let a = if i < idx { i } else { i + 1 };
        let b = if j < idx { j } else { j + 1 };
        assert(t[i] == s[a] && t[j] == s[b]);
        assert(s[a]@ != s[b]@);
    }
    assert forall|x: Seq<char>| holds_text(t, x) <==> (holds_text(s, x) && x != s[idx]@) by {
        if holds_text(t, x) {
            let i = choose|i: int| 0 <= i < t.len() && (#[trigger] t[i])@ == x;
            let a = if i < idx { i } else { i + 1 };
            assert(t[i] == s[a]);
            assert(s[a]@ != s[idx]@);
        }
        if holds_text(s, x) && x != s[idx]@ {
            let i = choose|i: int| 0 <= i < s.len() && (#[trigger] s[i])@ == x;
            let a = if i < idx { i } else { i - 1 };
            assert(t[a] == s[i]);
        }
    }
}

proof fn lemma_push_new(s: Seq<String>, y: String)
    requires
        distinct(s),
        !holds_text(s, y@),
    ensures
        distinct(s.push(y)),
        forall|x: Seq<char>| holds_text(s.push(y), x) <==> (holds_text(s, x) || x == y@),
{
    let t = s.push(y);
    assert forall|i: int, j: int| 0 <= i < j < t.len() implies (#[trigger] t[i])@ != (#[trigger] t[j])@ by {
        if j == s.len() {
            assert(t[i] == s[i]);
        } else {
            assert(t[i] == s[i] && t[j] == s[j]);
        }
    }
    assert forall|x: Seq<char>| holds_text(t, x) <==> (holds_text(s, x) || x == y@) by {
        if holds_text(t, x) {
            let i = choose|i: int| 0 <= i < t.len() && (#[trigger] t[i])@ == x;
            if i < s.len() {
                assert(t[i] == s[i]);
            }
        }
        if holds_text(s, x) {
            let i = choose|i: int| 0 <= i < s.len() && (#[trigger] s[i])@ == x;
            assert(t[i] == s[i]);
        }
        if x == y@ {
            assert(t[s.len() as int] == y);
        }
    }
}

proof fn lemma_bad_removal_stays(denoms: Seq<String>, to_remove: Seq<String>, n: int, m: int)
    requires
        0 <= n <= m,
        first_bad_removal(denoms, to_remove, n) is Some,
    ensures
        first_bad_removal(denoms, to_remove, m) == first_bad_removal(denoms, to_remove, n),
    decreases m - n,
{
    if m > n {
        lemma_bad_removal_stays(denoms, to_remove, n, m - 1);
    }
}

fn remove_each(cur: &mut Vec<String>, to_remove: &Vec<String>) -> (r: Result<(), String>)
    requires
        distinct(old(cur)@),
    ensures
        first_bad_removal(old(cur)@, to_remove@, to_remove@.len() as int) matches Some(j) ==> r
            == Err::<(), String>(to_remove@[j]),
        first_bad_removal(old(cur)@, to_remove@, to_remove@.len() as int) is None ==> r is Ok,
        r is Ok ==> distinct(final(cur)@) && forall|x: Seq<char>| #[trigger] holds_text(final(cur)@, x) <==> (holds_text(old(cur)@, x)
            && !holds_text(to_remove@, x)),
{
    let ghost orig = cur@;
    let mut k: usize = 0;
    while k < to_remove.len()
        invariant
            0 <= k <= to_remove.len(),
            orig == old(cur)@,
            distinct(cur@),
            first_bad_removal(orig, to_remove@, k as int) is None,
            forall|x: Seq<char>| #[trigger] holds_text(cur@, x) <==> (holds_text(orig, x) && !holds_text(to_remove@.take(k as int), x)),
        decreases to_remove.len() - k,
    {
        let ghost before = cur@;
        proof {
            lemma_take_push_holds(to_remove@, k as int);
        }
        match find_string(cur, &to_remove[k]) {
            Some(idx) => {
                proof {
                    lemma_remove_distinct(before, idx as int);
                    assert(before[idx as int]@ == to_remove@[k as int]@);
                    assert(holds_text(before, to_remove@[k as int]@));
                    assert(first_bad_removal(orig, to_remove@, k + 1) is None);
                }
                cur.remove(idx);
                proof {
                    assert forall|x: Seq<char>| #[trigger] holds_text(cur@, x) <==> (holds_text(orig, x)
                        && !holds_text(to_remove@.take(k as int + 1), x)) by {
                        assert(holds_text(before, x) <==> (holds_text(orig, x) && !holds_text(
                            to_remove@.take(k as int),
                            x,
                        )));
                    }
                }
            },
            None => {
                proof {
                    assert(first_bad_removal(orig, to_remove@, k + 1) == Some(k as int));
                    lemma_bad_removal_stays(orig, to_remove@, k + 1, to_remove@.len() as int);
                }
                return Err(to_remove[k].clone());
            },
        }
        k = k + 1;
    }
    proof {
        assert(to_remove@.take(to_remove@.len() as int) =~= to_remove@);
    }
    Ok(())
}

proof fn lemma_take_push_holds(s: Seq<String>, k: int)
    requires
        0 <= k < s.len(),
    ensures
        forall|x: Seq<char>| #[trigger] holds_text(s.take(k + 1), x) <==> (holds_text(s.take(k), x) || x == s[k]@),
{
    assert forall|x: Seq<char>| #[trigger] holds_text(s.take(k + 1), x) <==> (holds_text(s.take(k), x) || x == s[k]@) by {
        let t = s.take(k);
        if holds_text(s.take(k + 1), x) {
            let i = choose|i: int| 0 <= i < k + 1 && (#[trigger] s.take(k + 1)[i])@ == x;
            if i < k {
                assert(t[i] == s.take(k + 1)[i]);
            }
        }
        if holds_text(t, x) {
            let i = choose|i: int| 0 <= i < t.len() && (#[trigger] t[i])@ == x;
            assert(t[i] == s.take(k + 1)[i]);
        }
        if x == s[k]@ {
            assert(s.take(k + 1)[k] == s[k]);
        }
    }
}

fn add_each(cur: &mut Vec<String>, to_add: &Vec<String>)
    requires
        distinct(old(cur)@),
    ensures
        distinct(final(cur)@),
        forall|x: Seq<char>| #[trigger] holds_text(final(cur)@, x) <==> (holds_text(old(cur)@, x) || holds_text(to_add@, x)),
{
    let ghost orig = cur@;
    let mut a: usize = 0;
    while a < to_add.len()
        invariant
            0 <= a <= to_add.len(),
            orig == old(cur)@,
            distinct(cur@),
            forall|x: Seq<char>| #[trigger] holds_text(cur@, x) <==> (holds_text(orig, x) || holds_text(to_add@.take(a as int), x)),
        decreases to_add.len() - a,
    {
        let ghost before = cur@;
        proof {
            lemma_take_push_holds(to_add@, a as int);
        }
        match find_string(cur, &to_add[a]) {
            Some(i) => {
                proof {
                    assert(before[i as int]@ == to_add@[a as int]@);
                    assert(holds_text(before, to_add@[a as int]@));
                }
            },
            None => {
                proof {
                    lemma_push_new(before, to_add@[a as int]);
                }
                cur.push(to_add[a].clone());
            },
        }
        proof {
            assert forall|x: Seq<char>| #[trigger] holds_text(cur@, x) <==> (holds_text(orig, x)
                || holds_text(to_add@.take(a as int + 1), x)) by {
                assert(holds_text(before, x) <==> (holds_text(orig, x) || holds_text(
                    to_add@.take(a as int),
                    x,
                )));
            }
        }
        a = a + 1;
    }
    proof {
        assert(to_add@.take(to_add@.len() as int) =~= to_add@);
    }
}

/// Edits the denomination whitelist: removes each of `to_remove` (each must be
/// in the whitelist), then adds each of `to_add` not yet in it.
pub fn update_denom_whitelist(denoms: Vec<String>, to_add: Vec<String>, to_remove: Vec<String>) -> (r: Result<Vec<String>, ContractError>)
    requires
        distinct(denoms@),
    ensures
        first_bad_removal(denoms@, to_remove@, to_remove@.len() as int) matches Some(j) ==> r == Err::<
            Vec<String>,
            ContractError,
        >(ContractError::CannotRemoveDenom(to_remove@[j])),
        first_bad_removal(denoms@, to_remove@, to_remove@.len() as int) is None ==> r is Ok,
        r matches Ok(v) ==> {
            &&& distinct(v@)
            &&& forall|x: Seq<char>| #[trigger] holds_text(v@, x) <==> ((holds_text(denoms@, x) && !holds_text(to_remove@, x)) || holds_text(to_add@, x))
        },
{
    let mut cur = denoms;
    match remove_each(&mut cur, &to_remove) {
        Ok(()) => {},
        Err(d) => {
            return Err(ContractError::CannotRemoveDenom(d));
        },
    }
    let ghost removed = cur@;
    add_each(&mut cur, &to_add);
    proof {
        assert forall|x: Seq<char>| #[trigger] holds_text(cur@, x) <==> ((holds_text(denoms@, x) && !holds_text(to_remove@, x)) || holds_text(to_add@, x)) by {
            assert(holds_text(removed, x) <==> (holds_text(denoms@, x) && !holds_text(to_remove@, x)));
        }
    }
    Ok(cur)
}

/// The denominations of a base denomination whitelist.
pub open spec fn keys(s: Seq<BaseDenom>) -> Seq<String> {
    s.map_values(|b: BaseDenom| b.denom)
}

/// `x` is an entry of `a`.
pub open spec fn entry_of(x: BaseDenom, a: Seq<BaseDenom>) -> bool {
    exists|j: int| 0 <= j < a.len() && a[j] == x
}

/// `x` is the first entry of `a` with its denomination.
pub open spec fn first_entry_of(x: BaseDenom, a: Seq<BaseDenom>) -> bool {
    exists|k: int|
        0 <= k < a.len() && a[k] == x && forall|k2: int| 0 <= k2 < k ==> (#[trigger] a[k2]).denom@ != x.denom@
}

/// Every entry of `s` is an entry of `a` or of `b`.
pub open spec fn drawn_from(s: Seq<BaseDenom>, a: Seq<BaseDenom>, b: Seq<BaseDenom>) -> bool {
    forall|i: int| 0 <= i < s.len() ==> entry_of(#[trigger] s[i], a) || entry_of(s[i], b)
}

fn find_base_key(s: &Vec<BaseDenom>, x: &String) -> (r: Option<usize>)
    ensures
        r matches Some(i) ==> i < s.len() && keys(s@)[i as int]@ == x@,
        r is None ==> !holds_text(keys(s@), x@),
{
    let mut i: usize = 0;
    while i < s.len()
        invariant
            0 <= i <= s.len(),
            forall|k: int| 0 <= k < i ==> (#[trigger] keys(s@)[k])@ != x@,
        decreases s.len() - i,
    {
        if s[i].denom == *x {
            return Some(i);
        }
        i = i + 1;
    }
    proof {
        assert forall|k: int| 0 <= k < keys(s@).len() implies (#[trigger] keys(s@)[k])@ != x@ by {}
    }
    None
}

fn remove_each_base(cur: &mut Vec<BaseDenom>, to_remove: &Vec<String>) -> (r: Result<(), String>)
    requires
        distinct(keys(old(cur)@)),
    ensures
        first_bad_removal(keys(old(cur)@), to_remove@, to_remove@.len() as int) matches Some(j) ==> r
            == Err::<(), String>(to_remove@[j]),
        first_bad_removal(keys(old(cur)@), to_remove@, to_remove@.len() as int) is None ==> r is Ok,
        r is Ok ==> distinct(keys(final(cur)@)) && forall|x: Seq<char>| #[trigger] holds_text(keys(final(cur)@), x) <==> (
            holds_text(keys(old(cur)@), x) && !holds_text(to_remove@, x)),
        r is Ok ==> drawn_from(final(cur)@, old(cur)@, old(cur)@),
{
    let ghost orig = cur@;
    let mut k: usize = 0;
    while k < to_remove.len()
        invariant
            0 <= k <= to_remove.len(),
            orig == old(cur)@,
            distinct(keys(cur@)),
            drawn_from(cur@, orig, orig),
            first_bad_removal(keys(orig), to_remove@, k as int) is None,
            forall|x: Seq<char>| #[trigger] holds_text(keys(cur@), x) <==> (holds_text(keys(orig), x) && !holds_text(to_remove@.take(k as int), x)),
        decreases to_remove.len() - k,
    {
        let ghost before = cur@;
        proof {
            lemma_take_push_holds(to_remove@, k as int);
        }
        match find_base_key(cur, &to_remove[k]) {
            Some(idx) => {
                proof {
                    lemma_remove_distinct(keys(before), idx as int);
                    assert(keys(before)[idx as int]@ == to_remove@[k as int]@);
                    assert(holds_text(keys(before), to_remove@[k as int]@));
                    assert(first_bad_removal(keys(orig), to_remove@, k + 1) is None);
                }
                cur.remove(idx);
                proof {
                    assert(keys(cur@) =~= keys(before).remove(idx as int));
                    assert forall|x: Seq<char>| #[trigger] holds_text(keys(cur@), x) <==> (holds_text(keys(orig), x)
                        && !holds_text(to_remove@.take(k as int + 1), x)) by {
                        assert(holds_text(keys(before), x) <==> (holds_text(keys(orig), x) && !holds_text(
                            to_remove@.take(k as int),
                            x,
                        )));
                    }
                    assert forall|i: int| 0 <= i < cur@.len() implies entry_of(#[trigger] cur@[i], orig) || entry_of(cur@[i], orig) by {
                        let a = if i < idx { i } else { i + 1 };
                        assert(cur@[i] == before[a]);
                    }
                }
            },
            None => {
                proof {
                    assert(first_bad_removal(keys(orig), to_remove@, k + 1) == Some(k as int));
                    lemma_bad_removal_stays(keys(orig), to_remove@, k + 1, to_remove@.len() as int);
                }
                return Err(to_remove[k].clone());
            },
        }
        k = k + 1;
    }
    proof {
        assert(to_remove@.take(to_remove@.len() as int) =~= to_remove@);
    }
    Ok(())
}

fn add_each_base(cur: &mut Vec<BaseDenom>, to_add: &Vec<BaseDenom>)
    requires
        distinct(keys(old(cur)@)),
    ensures
        distinct(keys(final(cur)@)),
        forall|x: Seq<char>| #[trigger] holds_text(keys(final(cur)@), x) <==> (holds_text(keys(old(cur)@), x) || holds_text(keys(to_add@), x)),
        drawn_from(final(cur)@, old(cur)@, to_add@),
        forall|i: int|
            0 <= i < final(cur)@.len() && holds_text(keys(old(cur)@), (#[trigger] final(cur)@[i]).denom@)
                ==> entry_of(final(cur)@[i], old(cur)@),
        forall|i: int|
            0 <= i < final(cur)@.len() && !holds_text(keys(old(cur)@), (#[trigger] final(cur)@[i]).denom@)
                ==> first_entry_of(final(cur)@[i], to_add@),
{
    let ghost orig = cur@;
    proof {
        assert forall|i: int| 0 <= i < cur@.len() implies entry_of(#[trigger] cur@[i], orig) || entry_of(cur@[i], to_add@) by {
            assert(orig[i] == cur@[i]);
        }
        assert forall|i: int| 0 <= i < cur@.len() implies holds_text(keys(orig), (#[trigger] cur@[i]).denom@) by {
            assert(keys(orig)[i] == orig[i].denom);
        }
    }
    let mut a: usize = 0;
    while a < to_add.len()
        invariant
            0 <= a <= to_add.len(),
            orig == old(cur)@,
            distinct(keys(cur@)),
            drawn_from(cur@, orig, to_add@),
            forall|x: Seq<char>| #[trigger] holds_text(keys(cur@), x) <==> (holds_text(keys(orig), x) || holds_text(keys(to_add@).take(a as int), x)),
            forall|i: int|
                0 <= i < cur@.len() && holds_text(keys(orig), (#[trigger] cur@[i]).denom@) ==> entry_of(cur@[i], orig),
            forall|i: int|
                0 <= i < cur@.len() && !holds_text(keys(orig), (#[trigger] cur@[i]).denom@) ==> first_entry_of(cur@[i], to_add@),
        decreases to_add.len() - a,
    {
        let ghost before = cur@;
        proof {
            lemma_take_push_holds(keys(to_add@), a as int);
        }
        match find_base_key(cur, &to_add[a].denom) {
            Some(i) => {
                proof {
                    assert(keys(before)[i as int]@ == keys(to_add@)[a as int]@);
                    assert(holds_text(keys(before), keys(to_add@)[a as int]@));
                }
            },
            None => {
                proof {
                    lemma_push_new(keys(before), to_add@[a as int].denom);
                }
                cur.push(BaseDenom { denom: to_add[a].denom.clone(), min_balance_limit: to_add[a].min_balance_limit });
                proof {
                    assert(keys(cur@) =~= keys(before).push(to_add@[a as int].denom));
                    let e = to_add@[a as int];
                    assert(cur@[before.len() as int] == e);
                    assert(!holds_text(keys(orig), e.denom@)) by {
                        if holds_text(keys(orig), e.denom@) {
                            assert(holds_text(keys(before), e.denom@));
                        }
                    }
                    assert forall|k2: int| 0 <= k2 < a implies (#[trigger] to_add@[k2]).denom@ != e.denom@ by {
                        assert(keys(to_add@).take(a as int)[k2] == to_add@[k2].denom);
                        assert(holds_text(keys(to_add@).take(a as int), to_add@[k2].denom@));
                        assert(holds_text(keys(before), to_add@[k2].denom@));
                    }
                    assert(first_entry_of(e, to_add@));
                    assert forall|i: int| 0 <= i < cur@.len() && holds_text(keys(orig), (#[trigger] cur@[i]).denom@)
                        implies entry_of(cur@[i], orig) by {
                        if i < before.len() {
                            assert(cur@[i] == before[i]);
                        }
                    }
                    assert forall|i: int| 0 <= i < cur@.len() && !holds_text(keys(orig), (#[trigger] cur@[i]).denom@)
                        implies first_entry_of(cur@[i], to_add@) by {
                        if i < before.len() {
                            assert(cur@[i] == before[i]);
                        }
                    }
                    assert forall|i: int| 0 <= i < cur@.len() implies entry_of(#[trigger] cur@[i], orig) || entry_of(cur@[i], to_add@) by {
                        if i < before.len() {
                            assert(cur@[i] == before[i]);
                        } else {
                            assert(cur@[i] == to_add@[a as int]);
                        }
                    }
                }
            },
        }
        proof {
            assert forall|x: Seq<char>| #[trigger] holds_text(keys(cur@), x) <==> (holds_text(keys(orig), x)
                || holds_text(keys(to_add@).take(a as int + 1), x)) by {
                assert(holds_text(keys(before), x) <==> (holds_text(keys(orig), x) || holds_text(
                    keys(to_add@).take(a as int),
                    x,
                )));
            }
        }
        a = a + 1;
    }
    proof {
        assert(keys(to_add@).take(to_add@.len() as int) =~= keys(to_add@));
    }
}

/// Edits the base denomination whitelist, whose entries are told apart by
/// denomination: removes the entry of each of `to_remove` (each must be
/// there), then adds each of `to_add` whose denomination is not there yet.
pub fn update_base_denom_whitelist(
    base_denoms: Vec<BaseDenom>,
    to_add: Vec<BaseDenom>,
    to_remove: Vec<String>,
) -> (r: Result<Vec<BaseDenom>, ContractError>)
    requires
        distinct(keys(base_denoms@)),
    ensures
        first_bad_removal(keys(base_denoms@), to_remove@, to_remove@.len() as int) matches Some(j) ==> r
            == Err::<Vec<BaseDenom>, ContractError>(ContractError::CannotRemoveBaseDenom(to_remove@[j])),
        first_bad_removal(keys(base_denoms@), to_remove@, to_remove@.len() as int) is None ==> r is Ok,
        r matches Ok(v) ==> {
            &&& distinct(keys(v@))
            &&& forall|x: Seq<char>| #[trigger] holds_text(keys(v@), x) <==> ((holds_text(keys(base_denoms@), x)
                && !holds_text(to_remove@, x)) || holds_text(keys(to_add@), x))
            &&& drawn_from(v@, base_denoms@, to_add@)
            // a denomination listed and not removed keeps its entry
            &&& forall|i: int|
                0 <= i < v@.len() && holds_text(keys(base_denoms@), (#[trigger] v@[i]).denom@) && !holds_text(
                    to_remove@,
                    v@[i].denom@,
                ) ==> entry_of(v@[i], base_denoms@)
            // a new denomination takes its first entry among those added
            &&& forall|i: int|
                0 <= i < v@.len() && !(holds_text(keys(base_denoms@), (#[trigger] v@[i]).denom@) && !holds_text(
                    to_remove@,
                    v@[i].denom@,
                )) ==> first_entry_of(v@[i], to_add@)
        },
{
    let mut cur = base_denoms;
    match remove_each_base(&mut cur, &to_remove) {
        Ok(()) => {},
        Err(d) => {
            return Err(ContractError::CannotRemoveBaseDenom(d));
        },
    }
    let ghost removed = cur@;
    add_each_base(&mut cur, &to_add);
    proof {
        assert forall|x: Seq<char>| #[trigger] holds_text(keys(cur@), x) <==> ((holds_text(keys(base_denoms@), x)
            && !holds_text(to_remove@, x)) || holds_text(keys(to_add@), x)) by {
            assert(holds_text(keys(removed), x) <==> (holds_text(keys(base_denoms@), x) && !holds_text(to_remove@, x)));
        }
        assert forall|i: int| 0 <= i < cur@.len() && holds_text(keys(base_denoms@), (#[trigger] cur@[i]).denom@)
            && !holds_text(to_remove@, cur@[i].denom@) implies entry_of(cur@[i], base_denoms@) by {
            assert(holds_text(keys(removed), cur@[i].denom@));
            let j = choose|j: int| 0 <= j < removed.len() && removed[j] == cur@[i];
            assert(entry_of(removed[j], base_denoms@));
        }
        assert forall|i: int| 0 <= i < cur@.len() && !(holds_text(keys(base_denoms@), (#[trigger] cur@[i]).denom@)
            && !holds_text(to_remove@, cur@[i].denom@)) implies first_entry_of(cur@[i], to_add@) by {
            assert(!holds_text(keys(removed), cur@[i].denom@));
        }
        assert forall|i: int| 0 <= i < cur@.len() implies entry_of(#[trigger] cur@[i], base_denoms@) || entry_of(cur@[i], to_add@) by {
            if entry_of(cur@[i], removed) {
                let j = choose|j: int| 0 <= j < removed.len() && removed[j] == cur@[i];
                assert(entry_of(removed[j], base_denoms@));
            }
        }
    }
    Ok(cur)
}

} // verus!
