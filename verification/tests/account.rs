use substrate_primitives::account::IbcAccount;

#[test]
fn signer_of_64_hex_digits_names_an_account() {
    let signer = "0x000102030405060708090a0b0c0d0e0f101112131415161718191a1b1c1d1e1f";
    let mut expected = [0u8; 32];
    for (i, byte) in expected.iter_mut().enumerate() {
        *byte = i as u8;
    }
    assert_eq!(IbcAccount::try_from(signer).map(IbcAccount::into_account), Ok(expected));
}

#[test]
fn signer_may_mix_the_case_of_its_digits() {
    let lower = "0xd43593c715fdd31c61141abd04a99fd6822c8558854ccde39a5684e7a56da27d";
    let upper = "0xD43593C715FDD31C61141ABD04A99FD6822C8558854CCDE39A5684E7A56DA27D";
    let mixed = "0xd43593C715fdd31c61141ABD04a99fd6822c8558854ccde39a5684e7a56DA27d";
    let account = IbcAccount::try_from(lower).unwrap();
    assert_eq!(IbcAccount::try_from(upper), Ok(account));
    assert_eq!(IbcAccount::try_from(mixed), Ok(account));
    let id = account.into_account();
    assert_eq!(id[0], 0xd4);
    assert_eq!(id[1], 0x35);
    assert_eq!(id[30], 0xa2);
    assert_eq!(id[31], 0x7d);
}

#[test]
fn signer_without_the_prefix_is_no_address() {
    let message = Err("invalid ibc address or substrate address");
    assert_eq!(IbcAccount::try_from(""), message);
    assert_eq!(IbcAccount::try_from("0"), message);
    assert_eq!(IbcAccount::try_from("x0"), message);
    assert_eq!(IbcAccount::try_from("0X00"), message);
    assert_eq!(IbcAccount::try_from("5GrwvaEF5zXb26Fz9rcQpDWS57CtERHpNehXCPcNoHGKutQY"), message);
    assert_eq!(
        IbcAccount::try_from("d43593c715fdd31c61141abd04a99fd6822c8558854ccde39a5684e7a56da27d"),
        message
    );
}

#[test]
fn signer_with_other_than_hex_digits_does_not_decode() {
    let message = Err("Error decoding invalid hex string");
    assert_eq!(IbcAccount::try_from("0x0"), message);
    assert_eq!(IbcAccount::try_from("0x123"), message);
    assert_eq!(IbcAccount::try_from("0xzz"), message);
    assert_eq!(IbcAccount::try_from("0x0g"), message);
    assert_eq!(IbcAccount::try_from("0x 1"), message);
    assert_eq!(IbcAccount::try_from("0xé"), message);
    assert_eq!(
        IbcAccount::try_from("0xd43593c715fdd31c61141abd04a99fd6822c8558854ccde39a5684e7a56da27"),
        message
    );
    assert_eq!(
        IbcAccount::try_from("0xd43593c715fdd31c61141abd04a99fd6822c8558854ccde39a5684e7a56da2/d"),
        message
    );
}

#[test]
fn signer_of_another_length_is_no_account_id() {
    let message = Err("Invalid account id hex string");
    assert_eq!(IbcAccount::try_from("0x"), message);
    assert_eq!(IbcAccount::try_from("0x00"), message);
    assert_eq!(
        IbcAccount::try_from("0xd43593c715fdd31c61141abd04a99fd6822c8558854ccde39a5684e7a56da2"),
        message
    );
    assert_eq!(
        IbcAccount::try_from("0xd43593c715fdd31c61141abd04a99fd6822c8558854ccde39a5684e7a56da27d00"),
        message
    );
}
