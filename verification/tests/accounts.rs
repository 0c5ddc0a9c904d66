use notedeck_columns::account_manager::AccountManager;
use notedeck_columns::keys::{bytes_eq, Keypair, Pubkey, SecretKey};

fn account(byte: u8) -> Keypair {
    Keypair::only_pubkey(Pubkey::new([byte; 32]))
}

fn xyz(selected: Option<usize>) -> AccountManager {
    AccountManager::new(selected, vec![account(b'X'), account(b'Y'), account(b'Z')])
}

#[test]
fn removing_before_the_selection_moves_it_down() {
    let mut manager = xyz(Some(2));
    assert_eq!(manager.remove_account(0), Some(account(b'X')));
    assert_eq!(manager.get_selected_account_index(), Some(1));
    assert_eq!(manager.get_selected_account(), Some(&account(b'Z')));
    assert_eq!(*manager.get_accounts(), vec![account(b'Y'), account(b'Z')]);
}

#[test]
fn removing_the_selected_account_clears_the_selection() {
    let mut manager = xyz(Some(1));
    assert_eq!(manager.remove_account(1), Some(account(b'Y')));
    assert_eq!(manager.get_selected_account_index(), None);
    assert_eq!(manager.get_selected_account(), None);
    assert_eq!(*manager.get_accounts(), vec![account(b'X'), account(b'Z')]);
}

#[test]
fn removing_behind_the_selection_leaves_it() {
    let mut manager = xyz(Some(0));
    assert_eq!(manager.remove_account(2), Some(account(b'Z')));
    assert_eq!(manager.get_selected_account_index(), Some(0));
    assert_eq!(manager.get_selected_account(), Some(&account(b'X')));
    assert_eq!(manager.num_accounts(), 2);
}

#[test]
fn removing_out_of_range_changes_nothing() {
    let mut manager = xyz(Some(1));
    assert_eq!(manager.remove_account(3), None);
    assert_eq!(manager.remove_account(usize::MAX), None);
    assert_eq!(manager.num_accounts(), 3);
    assert_eq!(manager.get_selected_account_index(), Some(1));
}

#[test]
fn removing_without_selection() {
    let mut manager = xyz(None);
    assert_eq!(manager.remove_account(1), Some(account(b'Y')));
    assert_eq!(manager.get_selected_account_index(), None);
    assert_eq!(manager.num_accounts(), 2);
}

#[test]
fn removing_every_account_in_turn() {
    let mut manager = xyz(Some(2));
    assert_eq!(manager.remove_account(0), Some(account(b'X')));
    assert_eq!(manager.remove_account(0), Some(account(b'Y')));
    assert_eq!(manager.get_selected_account(), Some(&account(b'Z')));
    assert_eq!(manager.get_selected_account_index(), Some(0));
    assert_eq!(manager.remove_account(0), Some(account(b'Z')));
    assert_eq!(manager.get_selected_account_index(), None);
    assert_eq!(manager.num_accounts(), 0);
    assert_eq!(manager.remove_account(0), None);
}

#[test]
fn selection_is_not_checked_when_made() {
    let manager = xyz(Some(7));
    assert_eq!(manager.get_selected_account_index(), Some(7));
    assert_eq!(manager.get_selected_account(), None);
}

#[test]
fn select_account_takes_valid_places_only() {
    let mut manager = xyz(None);
    manager.select_account(3);
    assert_eq!(manager.get_selected_account_index(), None);
    manager.select_account(2);
    assert_eq!(manager.get_selected_account_index(), Some(2));
    manager.select_account(5);
    assert_eq!(manager.get_selected_account_index(), Some(2));
    manager.select_account(0);
    assert_eq!(manager.get_selected_account(), Some(&account(b'X')));
    manager.clear_selected_account();
    assert_eq!(manager.get_selected_account_index(), None);
    assert_eq!(manager.get_selected_account(), None);
}

#[test]
fn add_account_appends() {
    let mut manager = AccountManager::new(None, Vec::new());
    assert_eq!(manager.num_accounts(), 0);
    manager.select_account(0);
    assert_eq!(manager.get_selected_account_index(), None);
    manager.add_account(account(1));
    manager.add_account(account(2));
    assert_eq!(manager.num_accounts(), 2);
    manager.select_account(1);
    manager.add_account(account(3));
    assert_eq!(manager.get_selected_account(), Some(&account(2)));
    assert_eq!(manager.get_account(0), Some(&account(1)));
    assert_eq!(manager.get_account(2), Some(&account(3)));
    assert_eq!(manager.get_account(3), None);
}

#[test]
fn find_account_gives_the_first_match() {
    let signing = Keypair::new(Pubkey::new([5u8; 32]), Some(SecretKey::new([6u8; 32])));
    let manager = AccountManager::new(
        None,
        vec![account(4), signing, account(5), account(7)],
    );
    assert_eq!(manager.find_account(&[5u8; 32]), Some(&signing));
    assert_eq!(manager.find_account(&[7u8; 32]), Some(&account(7)));
    assert_eq!(manager.find_account(&[4u8; 32]), Some(&account(4)));
    assert_eq!(manager.find_account(&[8u8; 32]), None);
    let mut near = [5u8; 32];
    near[0] = 0;
    assert_eq!(manager.find_account(&near), None);
}

#[test]
fn keys_compare_by_bytes() {
    let mut a = [0u8; 32];
    let mut b = [0u8; 32];
    assert!(bytes_eq(&a, &b));
    b[31] = 1;
    assert!(!bytes_eq(&a, &b));
    a[31] = 1;
    assert!(bytes_eq(&a, &b));
    a[0] = 9;
    assert!(!bytes_eq(&a, &b));
    assert_eq!(Pubkey::new(b), Pubkey::new(b));
    assert_ne!(Pubkey::new(a), Pubkey::new(b));
    assert_eq!(*Pubkey::new(a).bytes(), a);
    assert_eq!(*SecretKey::new(a).bytes(), a);
    assert_ne!(SecretKey::new(a), SecretKey::new(b));
    let pk = Pubkey::new(a);
    assert_ne!(Keypair::only_pubkey(pk), Keypair::new(pk, Some(SecretKey::new(a))));
    assert_ne!(
        Keypair::new(pk, Some(SecretKey::new(b))),
        Keypair::new(pk, Some(SecretKey::new(a)))
    );
    assert_eq!(
        Keypair::new(pk, Some(SecretKey::new(a))),
        Keypair::new(pk, Some(SecretKey::new(a)))
    );
    assert!(Keypair::only_pubkey(pk).secret_key.is_none());
}
