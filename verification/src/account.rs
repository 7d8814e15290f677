//! Signing accounts.
//!
//! A [`SigningAccount`] is a funded identity: an account id on the
//! chain, the address derived from it once at creation, and the
//! signer's fee policy.  Replacing the fee policy yields a new handle;
//! the address never changes.
//!
//! Addresses are the chain's prefix followed by the account id in
//! decimal, which makes distinct accounts' addresses distinct.

use vstd::prelude::*;

verus! {

use vstd::string::StringExecFns;
use crate::fee::{FeeSetting, FeeSettingView};

/// The decimal digit `d` as a character.
pub open spec fn digit_char(d: int) -> char {
    if d == 0 {
        '0'
    } else if d == 1 {
        '1'
    } else if d == 2 {
        '2'
    } else if d == 3 {
        '3'
    } else if d == 4 {
        '4'
    } else if d == 5 {
        '5'
    } else if d == 6 {
        '6'
    } else if d == 7 {
        '7'
    } else if d == 8 {
        '8'
    } else {
        '9'
    }
}

/// The decimal digits of `n`, most significant first.
pub open spec fn dec_chars(n: int) -> Seq<char>
    decreases n,
{
    if n < 10 {
        seq![digit_char(n)]
    } else {
        dec_chars(n / 10).push(digit_char(n % 10))
    }
}

/// The address of account `id`: the chain's address prefix, then the
/// id in decimal.
pub open spec fn address_chars(id: u64) -> Seq<char> {
    "orai1"@ + dec_chars(id as int)
}

/// The decimal form of a number has at least one digit, and of a
/// number of two or more digits, at least two.
proof fn lemma_dec_chars_len(n: int)
    requires
        n >= 0,
    ensures
        dec_chars(n).len() >= 1,
        n >= 10 ==> dec_chars(n).len() >= 2,
    decreases n,
{
    if n >= 10 {
        lemma_dec_chars_len(n / 10);
    }
}

/// Decimal forms are distinct for distinct numbers.
proof fn lemma_dec_chars_injective(a: int, b: int)
    requires
        a >= 0,
        b >= 0,
        dec_chars(a) == dec_chars(b),
    ensures
        a == b,
    decreases a + b,
{
    lemma_dec_chars_len(a);
    lemma_dec_chars_len(b);
    if a < 10 && b < 10 {
        assert(dec_chars(a)[0] == digit_char(a));
        assert(dec_chars(b)[0] == digit_char(b));
    } else if a >= 10 && b >= 10 {
        let la = dec_chars(a).len();
        assert(dec_chars(a).last() == digit_char(a % 10));
        assert(dec_chars(b).last() == digit_char(b % 10));
        assert(a % 10 == b % 10);
        assert(dec_chars(a).drop_last() =~= dec_chars(a / 10));
        assert(dec_chars(b).drop_last() =~= dec_chars(b / 10));
        lemma_dec_chars_injective(a / 10, b / 10);
    } else {
        assert(dec_chars(a).len() != dec_chars(b).len());
    }
}

/// Distinct accounts have distinct addresses: the address derived for
/// one account id is never the address derived for another.
pub proof fn lemma_address_injective(id1: u64, id2: u64)
    requires
        address_chars(id1) == address_chars(id2),
    ensures
        id1 == id2,
{
    reveal_strlit("orai1");
    assert(address_chars(id1).skip(5) =~= dec_chars(id1 as int));
    assert(address_chars(id2).skip(5) =~= dec_chars(id2 as int));
    lemma_dec_chars_injective(id1 as int, id2 as int);
}

/// Append one decimal digit.
fn append_digit(s: &mut String, d: u64)
    requires
        d < 10,
    ensures
        final(s)@ == old(s)@ + seq![digit_char(d as int)],
{
    if d == 0 {
        s.append("0");
        proof {
            reveal_strlit("0");
            assert("0"@ =~= seq![digit_char(0)]);
        }
    } else if d == 1 {
        s.append("1");
        proof {
            reveal_strlit("1");
            assert("1"@ =~= seq![digit_char(1)]);
        }
    } else if d == 2 {
        s.append("2");
        proof {
            reveal_strlit("2");
            assert("2"@ =~= seq![digit_char(2)]);
        }
    } else if d == 3 {
        s.append("3");
        proof {
            reveal_strlit("3");
            assert("3"@ =~= seq![digit_char(3)]);
        }
    } else if d == 4 {
        s.append("4");
        proof {
            reveal_strlit("4");
            assert("4"@ =~= seq![digit_char(4)]);
        }
    } else if d == 5 {
        s.append("5");
        proof {
            reveal_strlit("5");
            assert("5"@ =~= seq![digit_char(5)]);
        }
    } else if d == 6 {
        s.append("6");
        proof {
            reveal_strlit("6");
            assert("6"@ =~= seq![digit_char(6)]);
        }
    } else if d == 7 {
        s.append("7");
        proof {
            reveal_strlit("7");
            assert("7"@ =~= seq![digit_char(7)]);
        }
    } else if d == 8 {
        s.append("8");
        proof {
            reveal_strlit("8");
            assert("8"@ =~= seq![digit_char(8)]);
        }
    } else {
        s.append("9");
        proof {
            reveal_strlit("9");
            assert("9"@ =~= seq![digit_char(9)]);
        }
    }
}

/// Append the decimal digits of `n`.
fn push_dec(s: &mut String, n: u64)
    ensures
        final(s)@ == old(s)@ + dec_chars(n as int),
    decreases n,
{
    if n < 10 {
        append_digit(s, n);
    } else {
        push_dec(s, n / 10);
        append_digit(s, n % 10);
        proof {
            assert(old(s)@ + dec_chars((n / 10) as int) + seq![digit_char((n % 10) as int)]
                =~= old(s)@ + dec_chars(n as int));
        }
    }
}

/// Derive account `id`'s address.
pub fn derive_address(id: u64) -> (r: String)
    ensures
        r@ == address_chars(id),
{
    let mut s: String = "orai1".to_owned();
    push_dec(&mut s, id);
    s
}

/// A funded, key-holding identity.
#[derive(Debug)]
pub struct SigningAccount {
    account_id: u64,
    address: String,
    fee_setting: FeeSetting,
}

/// The mathematical value of a [`SigningAccount`].
pub ghost struct SigningAccountView {
    pub account_id: u64,
    pub address: Seq<char>,
    pub fee_setting: FeeSettingView,
}

impl View for SigningAccount {
    type V = SigningAccountView;

    closed spec fn view(&self) -> SigningAccountView {
        SigningAccountView {
            account_id: self.account_id,
            address: self.address@,
            fee_setting: self.fee_setting@,
        }
    }
}

impl SigningAccount {
    /// The address is the one derived from the account id at creation.
    pub open spec fn wf(self) -> bool {
        self@.address == address_chars(self@.account_id)
    }

    /// Build the handle for account `id` with a fee policy.
    pub fn create(id: u64, fee_setting: FeeSetting) -> (r: SigningAccount)
        ensures
            r.wf(),
            r@.account_id == id,
            r@.fee_setting == fee_setting@,
    {
        SigningAccount { account_id: id, address: derive_address(id), fee_setting }
    }

    /// The account's id on the chain.
    pub fn account_id(&self) -> (r: u64)
        ensures
            r == self@.account_id,
    {
        self.account_id
    }

    /// The account's address.
    pub fn address(&self) -> (r: String)
        ensures
            r@ == self@.address,
    {
        self.address.clone()
    }

    /// The account's fee policy.
    pub fn fee_setting(&self) -> (r: &FeeSetting)
        ensures
            r@ == self@.fee_setting,
    {
        &self.fee_setting
    }

    /// The same identity under another fee policy: a new handle with
    /// the same id and address.  Pure; chain state does not move.
    pub fn with_fee_setting(self, fee_setting: FeeSetting) -> (r: SigningAccount)
        ensures
            r@.account_id == self@.account_id,
            r@.address == self@.address,
            r@.fee_setting == fee_setting@,
            self.wf() ==> r.wf(),
    {
        SigningAccount { account_id: self.account_id, address: self.address, fee_setting }
    }
}

} // verus!
