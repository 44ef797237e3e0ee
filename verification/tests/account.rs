use sea_nn::sea_nn::close_given_account as close_entry;
use sea_nn::{close_given_account, close_given_account_handler, CloseGivenAccount, Pubkey};

fn key(fill: u8) -> Pubkey {
    Pubkey::new_from_array([fill; 32])
}

fn accounts(signer_lamports: u64, given_account_lamports: u64) -> CloseGivenAccount {
    CloseGivenAccount { signer: key(1), signer_lamports, given_account: key(2), given_account_lamports }
}

#[test]
fn closure_moves_the_whole_balance_to_the_signer() {
    let mut ctx = accounts(1_000, 250);
    assert_eq!(close_entry(&mut ctx), Ok(()));
    assert_eq!(ctx.signer_lamports, 1_250);
    assert_eq!(ctx.given_account_lamports, 0);
    assert_eq!(ctx.signer, key(1));
    assert_eq!(ctx.given_account, key(2));
}

#[test]
fn closure_of_an_empty_account_changes_nothing() {
    let mut ctx = accounts(1_000, 0);
    let before = ctx;
    assert_eq!(close_entry(&mut ctx), Ok(()));
    assert_eq!(ctx, before);
}

#[test]
fn closure_conserves_the_total() {
    let mut ctx = accounts(u64::MAX - 5, 5);
    assert_eq!(close_entry(&mut ctx), Ok(()));
    assert_eq!(ctx.signer_lamports, u64::MAX);
    assert_eq!(ctx.given_account_lamports, 0);
}

#[test]
fn closure_twice_moves_nothing_more() {
    let mut ctx = accounts(10, 20);
    assert_eq!(close_entry(&mut ctx), Ok(()));
    assert_eq!(close_entry(&mut ctx), Ok(()));
    assert_eq!(ctx.signer_lamports, 30);
    assert_eq!(ctx.given_account_lamports, 0);
}

#[test]
fn account_closed_into_itself_keeps_its_balance() {
    let mut ctx = CloseGivenAccount {
        signer: key(1),
        signer_lamports: 77,
        given_account: key(1),
        given_account_lamports: 77,
    };
    assert_eq!(close_entry(&mut ctx), Ok(()));
    assert_eq!(ctx.signer_lamports, 77);
    assert_eq!(ctx.given_account_lamports, 77);
}

#[test]
fn transfer_alone_moves_the_balance() {
    let mut ctx = accounts(3, 4);
    ctx.transfer_balance();
    assert_eq!(ctx.signer_lamports, 7);
    assert_eq!(ctx.given_account_lamports, 0);
}

#[test]
fn closure_handlers_accept_and_change_nothing() {
    let mut ctx = accounts(3, 4);
    let before = ctx;
    assert_eq!(close_given_account_handler(&mut ctx), Ok(()));
    assert_eq!(ctx, before);
    assert_eq!(close_given_account(&mut ctx), Ok(()));
    assert_eq!(ctx, before);
}
