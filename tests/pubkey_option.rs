use openbook_v2::pubkey::{NonZeroPubkeyOption, Pubkey};

fn program_id() -> Pubkey {
    let mut bytes = [0u8; 32];
    for (i, b) in bytes.iter_mut().enumerate() {
        *b = (i as u8).wrapping_mul(7).wrapping_add(3);
    }
    Pubkey::new_from_array(bytes)
}

#[test]
fn test_some() {
    let foo = NonZeroPubkeyOption::from_option(Some(program_id()));
    assert!(foo.is_some());
    assert_eq!(foo.to_option(), Some(program_id()));
}

#[test]
fn test_none() {
    let foo = NonZeroPubkeyOption::from_option(None);
    assert!(foo.is_none());
    assert_eq!(foo.to_option(), None);

    // the all-zero key also counts as none
    assert_eq!(Pubkey::new_from_array([0u8; 32]), Pubkey::zeroed());
    let foo = NonZeroPubkeyOption::from_option(Some(Pubkey::zeroed()));
    assert!(foo.is_none());
    assert_eq!(foo.to_option(), None);
}

#[test]
fn test_partial_eq() {
    let foo = NonZeroPubkeyOption::from_option(Some(program_id()));
    let bar = NonZeroPubkeyOption::from_option(None);
    assert!(foo.eq_key(&program_id()));
    assert!(!bar.eq_key(&Pubkey::zeroed()));
}

#[test]
fn option_equality_compares_keys() {
    let a = NonZeroPubkeyOption::from_option(Some(program_id()));
    let b = NonZeroPubkeyOption::from_option(Some(program_id()));
    let c = NonZeroPubkeyOption::none();
    assert!(a == b);
    assert!(a != c);
    assert!(!a.eq_key(&Pubkey::new_from_array([9u8; 32])));
}
