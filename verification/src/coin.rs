//! Coins and coin lists.
//!
//! A [`Coin`] is an amount of one denomination.  Denominations are byte
//! strings (chain denominations are short ASCII tokens); amounts are
//! non-negative integers.  A coin list used for funding or fees must be
//! well formed: every amount positive, every denomination non-empty,
//! and no denomination repeated.

use vstd::prelude::*;

verus! {

use vstd::string::StringSliceAdditionalSpecFns;

/// An amount of one denomination.
#[derive(Debug)]
pub struct Coin {
    /// Denomination, as its byte string.
    pub denom: Vec<u8>,
    /// Amount of the denomination.
    pub amount: u128,
}

/// The mathematical value of a [`Coin`].
pub ghost struct CoinView {
    pub denom: Seq<u8>,
    pub amount: u128,
}

impl View for Coin {
    type V = CoinView;

    open spec fn view(&self) -> CoinView {
        CoinView { denom: self.denom@, amount: self.amount }
    }
}

/// The mathematical value of a coin list.
pub open spec fn coins_v(s: Seq<Coin>) -> Seq<CoinView> {
    s.map_values(|c: Coin| c@)
}

impl Coin {
    /// Build a coin from a denomination given as text.
    pub fn new(amount: u128, denom: &str) -> (r: Coin)
        ensures
            r@.denom == denom.spec_bytes(),
            r@.amount == amount,
    {
        Coin { denom: bytes_of_slice(denom.as_bytes()), amount }
    }
}

impl Clone for Coin {
    fn clone(&self) -> (r: Coin)
        ensures
            r@ == self@,
    {
        Coin { denom: clone_bytes(&self.denom), amount: self.amount }
    }
}

/// Copy a byte slice into an owned byte string.
pub fn bytes_of_slice(s: &[u8]) -> (r: Vec<u8>)
    ensures
        r@ == s@,
{
    let mut r: Vec<u8> = Vec::new();
    let mut i: usize = 0;
    while i < s.len()
        invariant
            i <= s@.len(),
            r@ == s@.subrange(0, i as int),
        decreases s@.len() - i,
    {
        r.push(s[i]);
        proof {
            assert(r@ =~= s@.subrange(0, i + 1));
        }
        i = i + 1;
    }
    proof {
        assert(r@ =~= s@);
    }
    r
}

/// Copy a byte string.
pub fn clone_bytes(v: &Vec<u8>) -> (r: Vec<u8>)
    ensures
        r@ == v@,
{
    bytes_of_slice(v.as_slice())
}

/// Byte-string equality.
pub fn bytes_eq(a: &Vec<u8>, b: &Vec<u8>) -> (r: bool)
    ensures
        r == (a@ == b@),
{
    if a.len() != b.len() {
        proof {
            assert(a@ != b@);
        }
        return false;
    }
    let mut i: usize = 0;
    while i < a.len()
        invariant
            i <= a.len(),
            a@.len() == b@.len(),
            forall|j: int| 0 <= j < i ==> a@[j] == b@[j],
        decreases a.len() - i,
    {
        if a[i] != b[i] {
            return false;
        }
        i = i + 1;
    }
    proof {
        assert(a@ =~= b@);
    }
    true
}

/// Total amount of denomination `d` in the coin list `s`.
pub open spec fn amount_of(s: Seq<CoinView>, d: Seq<u8>) -> int
    decreases s.len(),
{
    if s.len() <= 0 {
        0
    } else {
        (if s[0].denom == d {
            s[0].amount as int
        } else {
            0
        }) + amount_of(s.skip(1), d)
    }
}

/// A stored balance list is well formed when no denomination repeats
/// and none is empty.
pub open spec fn coins_wf(s: Seq<CoinView>) -> bool {
    &&& forall|i: int| 0 <= i < s.len() ==> (#[trigger] s[i].denom).len() > 0
    &&& forall|i: int, j: int| 0 <= i < j < s.len() ==> s[i].denom != s[j].denom
}

/// A coin list handed in for funding or as a fee must moreover have
/// every amount positive.
pub open spec fn coin_list_valid(s: Seq<CoinView>) -> bool {
    &&& coins_wf(s)
    &&& forall|i: int| 0 <= i < s.len() ==> (#[trigger] s[i].amount) > 0
}

/// Replacing one coin changes the total of a denomination by the
/// difference the replacement makes for it.
pub proof fn lemma_amount_update(s: Seq<CoinView>, i: int, c: CoinView, d: Seq<u8>)
    requires
        0 <= i < s.len(),
    ensures
        amount_of(s.update(i, c), d) == amount_of(s, d) - (if s[i].denom == d {
            s[i].amount as int
        } else {
            0
        }) + (if c.denom == d {
            c.amount as int
        } else {
            0
        }),
    decreases s.len(),
{
    let s2 = s.update(i, c);
    assert(s2.len() == s.len());
    if i == 0 {
        assert(s2[0] == c);
        assert(s2.skip(1) =~= s.skip(1));
    } else {
        assert(s2[0] == s[0]);
        assert(s2.skip(1) =~= s.skip(1).update(i - 1, c));
        lemma_amount_update(s.skip(1), i - 1, c, d);
    }
}

/// Appending a coin adds its amount to the total of its denomination.
pub proof fn lemma_amount_push(s: Seq<CoinView>, c: CoinView, d: Seq<u8>)
    ensures
        amount_of(s.push(c), d) == amount_of(s, d) + (if c.denom == d {
            c.amount as int
        } else {
            0
        }),
    decreases s.len(),
{
    let s2 = s.push(c);
    assert(s2.len() == s.len() + 1);
    if s.len() == 0 {
        assert(s2[0] == c);
        assert(s2.skip(1) =~= Seq::<CoinView>::empty());
        assert(amount_of(s2.skip(1), d) == 0);
    } else {
        assert(s2[0] == s[0]);
        assert(s2.skip(1) =~= s.skip(1).push(c));
        lemma_amount_push(s.skip(1), c, d);
    }
}

/// A denomination that occurs nowhere has total zero.
pub proof fn lemma_amount_absent(s: Seq<CoinView>, d: Seq<u8>)
    requires
        forall|j: int| 0 <= j < s.len() ==> (#[trigger] s[j].denom) != d,
    ensures
        amount_of(s, d) == 0,
    decreases s.len(),
{
    if s.len() > 0 {
        assert(forall|j: int|
            0 <= j < s.skip(1).len() ==> (#[trigger] s.skip(1)[j]) == s[j + 1]);
        lemma_amount_absent(s.skip(1), d);
    }
}

/// In a well-formed list the total of a denomination is the amount of
/// its one entry.
pub proof fn lemma_amount_unique(s: Seq<CoinView>, i: int, d: Seq<u8>)
    requires
        coins_wf(s),
        0 <= i < s.len(),
        s[i].denom == d,
    ensures
        amount_of(s, d) == s[i].amount,
    decreases s.len(),
{
    assert(forall|j: int|
        0 <= j < s.skip(1).len() ==> (#[trigger] s.skip(1)[j]) == s[j + 1]);
    if i == 0 {
        lemma_amount_absent(s.skip(1), d);
    } else {
        lemma_amount_unique(s.skip(1), i - 1, d);
        assert(s[0].denom != d);
    }
}

/// In a well-formed list every total fits the machine range.
pub proof fn lemma_amount_bounded(s: Seq<CoinView>, d: Seq<u8>)
    requires
        coins_wf(s),
    ensures
        0 <= amount_of(s, d) <= u128::MAX,
    decreases s.len(),
{
    if s.len() > 0 {
        assert(forall|j: int|
            0 <= j < s.skip(1).len() ==> (#[trigger] s.skip(1)[j]) == s[j + 1]);
        if s[0].denom == d {
            lemma_amount_absent(s.skip(1), d);
        } else {
            lemma_amount_bounded(s.skip(1), d);
        }
    }
}

/// Find the entry of denomination `d`, if any.
pub fn find_denom(coins: &Vec<Coin>, d: &Vec<u8>) -> (r: Option<usize>)
    ensures
        match r {
            Some(i) => i < coins@.len() && coins@[i as int]@.denom == d@,
            None => forall|j: int| 0 <= j < coins@.len() ==> (#[trigger] coins@[j]@.denom) != d@,
        },
{
    let mut i: usize = 0;
    while i < coins.len()
        invariant
            i <= coins@.len(),
            forall|j: int| 0 <= j < i ==> (#[trigger] coins@[j]@.denom) != d@,
        decreases coins@.len() - i,
    {
        if bytes_eq(&coins[i].denom, d) {
            return Some(i);
        }
        i = i + 1;
    }
    None
}

/// Add `x` of denomination `d` to a balance list.  Fails, leaving the
/// list as it was, exactly when the new total would not fit.
pub fn credit(coins: &mut Vec<Coin>, d: &Vec<u8>, x: u128) -> (r: Result<(), ()>)
    requires
        coins_wf(coins_v(old(coins)@)),
        d@.len() > 0,
    ensures
        coins_wf(coins_v(final(coins)@)),
        r is Ok <==> amount_of(coins_v(old(coins)@), d@) + x <= u128::MAX,
        r is Ok ==> forall|d2: Seq<u8>|
            amount_of(coins_v(final(coins)@), d2) == amount_of(coins_v(old(coins)@), d2) + (
            if d2 == d@ {
                x as int
            } else {
                0
            }),
        r is Err ==> coins_v(final(coins)@) == coins_v(old(coins)@),
{
    let ghost pre = coins_v(coins@);
    match find_denom(coins, d) {
        Some(i) => {
            proof {
                assert(pre[i as int] == coins@[i as int]@);
                lemma_amount_unique(pre, i as int, d@);
            }
            let cur = coins[i].amount;
            if cur <= u128::MAX - x {
                let c = Coin { denom: clone_bytes(&coins[i].denom), amount: cur + x };
                let ghost cv = c@;
                coins[i] = c;
                proof {
                    assert(coins_v(coins@) =~= pre.update(i as int, cv));
                    assert forall|d2: Seq<u8>|
                        amount_of(coins_v(coins@), d2) == amount_of(pre, d2) + (if d2 == d@ {
                            x as int
                        } else {
                            0
                        }) by {
                        lemma_amount_update(pre, i as int, cv, d2);
                    }
                }
                Ok(())
            } else {
                proof {
                    assert(amount_of(pre, d@) == cur);
                }
                Err(())
            }
        },
        None => {
            proof {
                assert forall|j: int| 0 <= j < pre.len() implies (#[trigger] pre[j].denom)
                    != d@ by {
                    assert(pre[j] == coins@[j]@);
                }
                lemma_amount_absent(pre, d@);
            }
            let c = Coin { denom: clone_bytes(d), amount: x };
            let ghost cv = c@;
            coins.push(c);
            proof {
                assert(coins_v(coins@) =~= pre.push(cv));
                assert forall|d2: Seq<u8>|
                    amount_of(coins_v(coins@), d2) == amount_of(pre, d2) + (if d2 == d@ {
                        x as int
                    } else {
                        0
                    }) by {
                    lemma_amount_push(pre, cv, d2);
                }
            }
            Ok(())
        },
    }
}

/// Take `x` of denomination `d` out of a balance list.  Fails, leaving
/// the list as it was, exactly when the balance is insufficient.
pub fn debit(coins: &mut Vec<Coin>, d: &Vec<u8>, x: u128) -> (r: Result<(), ()>)
    requires
        coins_wf(coins_v(old(coins)@)),
    ensures
        coins_wf(coins_v(final(coins)@)),
        r is Ok <==> x <= amount_of(coins_v(old(coins)@), d@),
        r is Ok ==> forall|d2: Seq<u8>|
            amount_of(coins_v(final(coins)@), d2) == amount_of(coins_v(old(coins)@), d2) - (
            if d2 == d@ {
                x as int
            } else {
                0
            }),
        r is Err ==> coins_v(final(coins)@) == coins_v(old(coins)@),
{
    let ghost pre = coins_v(coins@);
    match find_denom(coins, d) {
        Some(i) => {
            proof {
                assert(pre[i as int] == coins@[i as int]@);
                lemma_amount_unique(pre, i as int, d@);
            }
            let cur = coins[i].amount;
            if x <= cur {
                let c = Coin { denom: clone_bytes(&coins[i].denom), amount: cur - x };
                let ghost cv = c@;
                coins[i] = c;
                proof {
                    assert(coins_v(coins@) =~= pre.update(i as int, cv));
                    assert forall|d2: Seq<u8>|
                        amount_of(coins_v(coins@), d2) == amount_of(pre, d2) - (if d2 == d@ {
                            x as int
                        } else {
                            0
                        }) by {
                        lemma_amount_update(pre, i as int, cv, d2);
                    }
                }
                Ok(())
            } else {
                Err(())
            }
        },
        None => {
            proof {
                assert forall|j: int| 0 <= j < pre.len() implies (#[trigger] pre[j].denom)
                    != d@ by {
                    assert(pre[j] == coins@[j]@);
                }
                lemma_amount_absent(pre, d@);
            }
            if x == 0 {
                Ok(())
            } else {
                Err(())
            }
        },
    }
}

/// Copy a coin list.
pub fn clone_coins(coins: &Vec<Coin>) -> (r: Vec<Coin>)
    ensures
        coins_v(r@) == coins_v(coins@),
{
    let mut r: Vec<Coin> = Vec::new();
    let mut i: usize = 0;
    while i < coins.len()
        invariant
            i <= coins@.len(),
            r@.len() == i,
            forall|k: int| 0 <= k < i ==> (#[trigger] r@[k]@) == coins@[k]@,
        decreases coins@.len() - i,
    {
        r.push(coins[i].clone());
        i = i + 1;
    }
    proof {
        assert forall|k: int| 0 <= k < r@.len() implies (#[trigger] coins_v(r@)[k]) == coins_v(
            coins@,
        )[k] by {
            assert(coins_v(r@)[k] == r@[k]@);
            assert(coins_v(coins@)[k] == coins@[k]@);
        }
        assert(coins_v(r@) =~= coins_v(coins@));
    }
    r
}

/// Check that a coin list may fund an account or pay a fee: every
/// amount positive, every denomination non-empty, none repeated.
pub fn check_coin_list(coins: &Vec<Coin>) -> (r: bool)
    ensures
        r == coin_list_valid(coins_v(coins@)),
{
    let ghost s = coins_v(coins@);
    let mut i: usize = 0;
    while i < coins.len()
        invariant
            i <= coins@.len(),
            s == coins_v(coins@),
            s.len() == coins@.len(),
            forall|j: int| 0 <= j < s.len() ==> (#[trigger] s[j]) == coins@[j]@,
            forall|j: int| 0 <= j < i ==> (#[trigger] s[j].denom).len() > 0,
            forall|j: int| 0 <= j < i ==> (#[trigger] s[j].amount) > 0,
            forall|j: int, k: int| 0 <= j < k < i ==> s[j].denom != s[k].denom,
        decreases coins@.len() - i,
    {
        if coins[i].denom.len() == 0 || coins[i].amount == 0 {
            proof {
                assert(s[i as int] == coins@[i as int]@);
                assert(s[i as int].denom.len() == 0 || s[i as int].amount == 0);
            }
            return false;
        }
        let mut j: usize = 0;
        while j < i
            invariant
                j <= i < coins@.len(),
                s == coins_v(coins@),
                s.len() == coins@.len(),
                forall|k: int| 0 <= k < s.len() ==> (#[trigger] s[k]) == coins@[k]@,
                forall|k: int| 0 <= k < j ==> (#[trigger] s[k].denom) != s[i as int].denom,
            decreases i - j,
        {
            if bytes_eq(&coins[j].denom, &coins[i].denom) {
                proof {
                    assert(s[j as int] == coins@[j as int]@);
                    assert(s[i as int] == coins@[i as int]@);
                    assert(s[j as int].denom == s[i as int].denom);
                }
                return false;
            }
            j = j + 1;
        }
        i = i + 1;
    }
    true
}

} // verus!
