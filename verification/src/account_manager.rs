//! The accounts that the user has, and which of them is in use.

use crate::keys::{bytes_eq, Keypair, UserAccount};
use vstd::prelude::*;

verus! {

/// Where the selection points once the account at `index` is gone. A
/// selection behind `index` moves one place down with its account, the
/// selection of the removed account is given up, and one before `index`
/// stays.
pub open spec fn selection_after_removal(selected: Option<usize>, index: usize) -> Option<usize> {
    match selected {
        Some(place) => if place > index {
            Some((place - 1) as usize)
        } else if place == index {
            None
        } else {
            Some(place)
        },
        None => None,
    }
}

/// The first place in `accounts` whose account has the public key `pk`.
pub open spec fn is_first_with_key(accounts: Seq<UserAccount>, pk: Seq<u8>, place: int) -> bool {
    &&& 0 <= place < accounts.len()
    &&& accounts[place].pubkey@ == pk
    &&& forall|j: int| 0 <= j < place ==> (#[trigger] accounts[j]).pubkey@ != pk
}

/// A selection that pointed at an account that stays still points at that
/// account after the removal of another.
pub proof fn lemma_selection_follows_account(
    accounts: Seq<UserAccount>,
    selected: usize,
    index: usize,
)
    requires
        selected < accounts.len(),
        index < accounts.len(),
        selected != index,
    ensures
        selection_after_removal(Some(selected), index) matches Some(place) && place
            < accounts.remove(index as int).len() && accounts.remove(index as int)[place as int]
            == accounts[selected as int],
{
}

/// The interface for managing the user's accounts: the accounts in the
/// order in which they were added, and the place of the one in use, if one
/// is.
#[derive(Debug)]
pub struct AccountManager {
    currently_selected_account: Option<usize>,
    accounts: Vec<UserAccount>,
}

impl AccountManager {
    /// The accounts, in order.
    pub closed spec fn accounts(&self) -> Seq<UserAccount> {
        self.accounts@
    }

    /// The place of the account in use.
    pub closed spec fn selected(&self) -> Option<usize> {
        self.currently_selected_account
    }

    /// The selection, where there is one, is the place of an account.
    pub open spec fn selection_valid(&self) -> bool {
        self.selected() matches Some(place) ==> place < self.accounts().len()
    }

    /// A manager of `accounts` with the selection as given. The selection
    /// is taken as it is, whether or not an account lies there.
    pub fn new(currently_selected_account: Option<usize>, accounts: Vec<UserAccount>) -> (manager:
        Self)
        ensures
            manager.accounts() == accounts@,
            manager.selected() == currently_selected_account,
    {
        AccountManager { currently_selected_account, accounts }
    }

    pub fn get_accounts(&self) -> (accounts: &Vec<UserAccount>)
        ensures
            accounts@ == self.accounts(),
    {
        &self.accounts
    }

    /// The account at the place `ind`, if one lies there.
    pub fn get_account(&self, ind: usize) -> (account: Option<&UserAccount>)
        ensures
            ind < self.accounts().len() ==> account == Some(&self.accounts()[ind as int]),
            ind >= self.accounts().len() ==> account.is_none(),
    {
        if ind < self.accounts.len() {
            Some(&self.accounts[ind])
        } else {
            None
        }
    }

    /// The first account with the public key `pk`, if there is one.
    pub fn find_account(&self, pk: &[u8; 32]) -> (account: Option<&UserAccount>)
        ensures
            match account {
                Some(found) => exists|place: int|
                    is_first_with_key(self.accounts(), pk@, place) && *found
                        == #[trigger] self.accounts()[place],
                None => forall|j: int|
                    0 <= j < self.accounts().len() ==> (#[trigger] self.accounts()[j]).pubkey@
                        != pk@,
            },
    {
        let mut i: usize = 0;
        while i < self.accounts.len()
            invariant
                i <= self.accounts@.len(),
                forall|j: int| 0 <= j < i ==> (#[trigger] self.accounts@[j]).pubkey@ != pk@,
            decreases self.accounts@.len() - i,
        {
            if bytes_eq(self.accounts[i].pubkey.bytes(), pk) {
                assert(is_first_with_key(self.accounts(), pk@, i as int));
                return Some(&self.accounts[i]);
            }
            i += 1;
        }
        None
    }

    /// Removes the account at the place `index` and hands it out, for the
    /// caller to remove it from where the keys are kept. The selection
    /// follows as `selection_after_removal` says. Where no account lies at
    /// `index`, nothing changes.
    pub fn remove_account(&mut self, index: usize) -> (removed: Option<UserAccount>)
        ensures
            index < old(self).accounts().len() ==> {
                &&& removed == Some(old(self).accounts()[index as int])
                &&& final(self).accounts() == old(self).accounts().remove(index as int)
                &&& final(self).selected() == selection_after_removal(old(self).selected(), index)
            },
            index >= old(self).accounts().len() ==> {
                &&& removed.is_none()
                &&& final(self).accounts() == old(self).accounts()
                &&& final(self).selected() == old(self).selected()
            },
            old(self).selection_valid() ==> final(self).selection_valid(),
    {
        if index >= self.accounts.len() {
            return None;
        }
        let account = self.accounts.remove(index);
        if let Some(selected_index) = self.currently_selected_account {
            if selected_index > index {
                self.currently_selected_account = Some(selected_index - 1);
            } else if selected_index == index {
                self.clear_selected_account();
            }
        }
        Some(account)
    }

    /// Adds `account` behind the others. The caller sees to it that the
    /// account is kept.
    pub fn add_account(&mut self, account: Keypair)
        ensures
            final(self).accounts() == old(self).accounts().push(account),
            final(self).selected() == old(self).selected(),
    {
        self.accounts.push(account)
    }

    pub fn num_accounts(&self) -> (count: usize)
        ensures
            count == self.accounts().len(),
    {
        self.accounts.len()
    }

    pub fn get_selected_account_index(&self) -> (selected: Option<usize>)
        ensures
            selected == self.selected(),
    {
        self.currently_selected_account
    }

    /// The account in use: the one at the selection, if there is a
    /// selection and an account lies there.
    pub fn get_selected_account(&self) -> (account: Option<&UserAccount>)
        ensures
            match self.selected() {
                Some(place) if place < self.accounts().len() => account == Some(
                    &self.accounts()[place as int],
                ),
                _ => account.is_none(),
            },
    {
        if let Some(account_index) = self.currently_selected_account {
            if let Some(account) = self.get_account(account_index) {
                Some(account)
            } else {
                None
            }
        } else {
            None
        }
    }

    /// Selects the account at the place `index`. Where no account lies
    /// there, nothing changes.
    pub fn select_account(&mut self, index: usize)
        ensures
            final(self).accounts() == old(self).accounts(),
            final(self).selected() == if index < old(self).accounts().len() {
                Some(index)
            } else {
                old(self).selected()
            },
    {
        if index < self.accounts.len() {
            self.currently_selected_account = Some(index)
        }
    }

    /// Gives up the selection.
    pub fn clear_selected_account(&mut self)
        ensures
            final(self).accounts() == old(self).accounts(),
            final(self).selected().is_none(),
    {
        self.currently_selected_account = None
    }
}

} // verus!
