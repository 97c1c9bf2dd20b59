use emailcontract::{EmailContract, EmailError, Identity};

#[test]
fn count_and_order_follow_appends() {
    let owner = Identity { id: 1 };
    let other = Identity { id: 2 };
    let mut sc = EmailContract::init(owner);
    assert_eq!(sc.get_email_count(), 0);

    let id0 = sc.store_email(owner, other, b"first".to_vec(), b"a".to_vec(), 10);
    assert_eq!(id0, 0);
    assert_eq!(sc.get_email_count(), 1);

    let id1 = sc.store_email(other, owner, b"second".to_vec(), b"b".to_vec(), 11);
    assert_eq!(id1, 1);
    assert_eq!(sc.get_email_count(), 2);

    let id2 = sc.store_email(owner, owner, b"third".to_vec(), b"c".to_vec(), 12);
    assert_eq!(id2, 2);
    assert_eq!(sc.get_email_count(), 3);

    let m0 = sc.get_email(0, owner).unwrap();
    assert_eq!(m0.subject.as_slice(), b"first");
    assert_eq!(m0.timestamp, 10);
    let m1 = sc.get_email(1, owner).unwrap();
    assert_eq!(m1.subject.as_slice(), b"second");
    assert_eq!(m1.from, other);
    let m2 = sc.get_email(2, owner).unwrap();
    assert_eq!(m2.subject.as_slice(), b"third");
    assert_eq!(m2.timestamp, 12);
}

#[test]
fn get_email_rejects_out_of_range_indices() {
    let owner = Identity { id: 1 };
    let mut sc = EmailContract::init(owner);

    assert_eq!(sc.get_email(0, owner).unwrap_err(), EmailError::OutOfRange);
    assert_eq!(
        sc.get_email(u64::MAX, owner).unwrap_err(),
        EmailError::OutOfRange
    );

    sc.store_email(owner, owner, b"s".to_vec(), b"b".to_vec(), 0);
    assert!(sc.get_email(0, owner).is_ok());
    assert_eq!(sc.get_email(1, owner).unwrap_err(), EmailError::OutOfRange);
    assert_eq!(sc.get_email(1, owner).unwrap_err().reason(), "Email ID inválido");
}

#[test]
fn recipient_query_returns_exact_matches_in_order() {
    let owner = Identity { id: 1 };
    let b = Identity { id: 2 };
    let c = Identity { id: 3 };
    let mut sc = EmailContract::init(owner);

    sc.store_email(owner, b, b"to b 1".to_vec(), b"x".to_vec(), 0);
    sc.store_email(owner, c, b"to c".to_vec(), b"y".to_vec(), 1);
    sc.store_email(owner, b, b"to b 2".to_vec(), b"z".to_vec(), 2);

    let for_b = sc.get_emails_by_recipient(b, owner).unwrap();
    assert_eq!(for_b.len(), 2);
    assert_eq!(for_b[0].subject.as_slice(), b"to b 1");
    assert_eq!(for_b[1].subject.as_slice(), b"to b 2");

    let nobody = Identity { id: 9 };
    let empty = sc.get_emails_by_recipient(nobody, owner).unwrap();
    assert!(empty.is_empty());
}

#[test]
fn privileged_reads_reject_strangers_without_effect() {
    let owner = Identity { id: 1 };
    let b = Identity { id: 2 };
    let stranger = Identity { id: 7 };
    let mut sc = EmailContract::init(owner);
    sc.store_email(owner, b, b"s".to_vec(), b"t".to_vec(), 0);

    assert_eq!(sc.get_email(0, stranger).unwrap_err(), EmailError::Unauthorized);
    assert_eq!(sc.get_all_emails(stranger).unwrap_err(), EmailError::Unauthorized);
    assert_eq!(
        sc.get_emails_by_recipient(b, stranger).unwrap_err(),
        EmailError::Unauthorized
    );

    assert_eq!(sc.get_email_count(), 1);
    assert!(sc.get_email(0, owner).is_ok());
}

#[test]
fn owner_reads_everything_in_append_order() {
    let owner = Identity { id: 1 };
    let b = Identity { id: 2 };
    let mut sc = EmailContract::init(owner);
    assert_eq!(sc.owner(), owner);

    assert!(sc.get_all_emails(owner).unwrap().is_empty());

    sc.store_email(owner, b, b"one".to_vec(), b"1".to_vec(), 0);
    sc.store_email(b, owner, b"two".to_vec(), b"2".to_vec(), 1);

    let all = sc.get_all_emails(owner).unwrap();
    assert_eq!(all.len(), 2);
    assert_eq!(all[0].subject.as_slice(), b"one");
    assert_eq!(all[1].subject.as_slice(), b"two");
}

#[test]
fn registered_alias_resolves_to_registrant() {
    let owner = Identity { id: 1 };
    let bob = Identity { id: 2 };
    let mut sc = EmailContract::init(owner);

    sc.register(b"bob".to_vec(), bob);
    let id = sc
        .store_email_by_alias(owner, b"bob".to_vec(), b"hi".to_vec(), b"!".to_vec(), 5)
        .unwrap();
    assert_eq!(id, 0);

    let stored = sc.get_email(0, owner).unwrap();
    assert_eq!(stored.to, bob);
    assert_eq!(stored.from, owner);
}

#[test]
fn unknown_alias_is_rejected_and_appends_nothing() {
    let owner = Identity { id: 1 };
    let mut sc = EmailContract::init(owner);

    let err = sc
        .store_email_by_alias(owner, b"nobody".to_vec(), b"s".to_vec(), b"b".to_vec(), 0)
        .unwrap_err();
    assert_eq!(err, EmailError::UnknownAlias);
    assert_eq!(err.reason(), "Usuário não encontrado");
    assert_eq!(sc.get_email_count(), 0);
    assert!(sc.users(&b"nobody".to_vec()).is_none());
}

#[test]
fn alias_bound_to_zero_identity_never_resolves() {
    let owner = Identity { id: 1 };
    let mut sc = EmailContract::init(owner);

    sc.register(b"ghost".to_vec(), Identity { id: 0 });
    let err = sc
        .store_email_by_alias(owner, b"ghost".to_vec(), b"s".to_vec(), b"b".to_vec(), 0)
        .unwrap_err();
    assert_eq!(err, EmailError::UnknownAlias);
    assert_eq!(sc.get_email_count(), 0);
}

#[test]
fn reregistration_rebinds_to_newest_registrant() {
    let owner = Identity { id: 1 };
    let first = Identity { id: 2 };
    let second = Identity { id: 3 };
    let mut sc = EmailContract::init(owner);

    sc.register(b"shared".to_vec(), first);
    sc.register(b"shared".to_vec(), second);

    let user = sc.users(&b"shared".to_vec()).unwrap();
    assert_eq!(user.address, second);

    sc.store_email_by_alias(owner, b"shared".to_vec(), b"s".to_vec(), b"b".to_vec(), 0)
        .unwrap();
    let stored = sc.get_email(0, owner).unwrap();
    assert_eq!(stored.to, second);
    assert_ne!(stored.to, first);
}

#[test]
fn three_message_scenario_for_recipient_queries() {
    let a = Identity { id: 1 };
    let b = Identity { id: 2 };
    let c = Identity { id: 3 };
    let mut sc = EmailContract::init(a);

    sc.store_email(a, b, b"m1".to_vec(), b"x".to_vec(), 0);
    sc.store_email(a, a, b"m2".to_vec(), b"y".to_vec(), 1);
    sc.store_email(a, b, b"m3".to_vec(), b"z".to_vec(), 2);

    let by_a = sc.get_emails_by_recipient(b, a).unwrap();
    assert_eq!(by_a.len(), 2);
    assert_eq!(by_a[0].subject.as_slice(), b"m1");
    assert_eq!(by_a[1].subject.as_slice(), b"m3");

    let by_b = sc.get_emails_by_recipient(b, b).unwrap();
    assert_eq!(by_b.len(), 2);
    assert_eq!(by_b[0].subject.as_slice(), b"m1");
    assert_eq!(by_b[1].subject.as_slice(), b"m3");

    assert_eq!(
        sc.get_emails_by_recipient(b, c).unwrap_err(),
        EmailError::Unauthorized
    );
}

#[test]
fn alias_lookup_reports_the_current_binding() {
    let owner = Identity { id: 1 };
    let bob = Identity { id: 2 };
    let mut sc = EmailContract::init(owner);

    assert!(sc.users(&b"bob".to_vec()).is_none());
    sc.register(b"bob".to_vec(), bob);

    let user = sc.users(&b"bob".to_vec()).unwrap();
    assert_eq!(user.alias.as_slice(), b"bob");
    assert_eq!(user.address, bob);

    assert!(sc.users(&b"alice".to_vec()).is_none());
    assert_eq!(sc.get_address(&b"bob".to_vec()).unwrap(), bob);
    assert_eq!(
        sc.get_address(&b"alice".to_vec()).unwrap_err(),
        EmailError::UnknownAlias
    );
}

#[test]
fn zero_identity_helper_matches_the_sentinel() {
    assert_eq!(Identity::zero(), Identity { id: 0 });
}
