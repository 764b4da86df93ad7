//! What a member sees of the accounts they linked.

use lr_engine::accounts::mask;

#[test]
fn masks_everything_but_the_shape() {
    assert_eq!(mask("juan.delacruz@gmail.com"), "j•••@gmail.com");
    assert_eq!(mask("a@b.ph"), "a•••@b.ph");
    assert_eq!(mask("not-an-email"), "•••");
}

#[test]
fn account_masks_everything_but_the_shape() {
    assert_eq!(mask("juan.delacruz@gmail.com"), "j•••@gmail.com");
    assert_eq!(mask("a@b.ph"), "a•••@b.ph");
    assert_eq!(mask("not-an-email"), "•••");
}
