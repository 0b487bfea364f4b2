use core_nft::access::{
    check_permission, get_user_permissions, grant_permission, has_permission, revoke_permission,
    GetUserPermissionsError, GuardManagement, ManagementGuards, Permission, Permissions,
};

#[test]
fn granted_permissions_are_held_until_revoked() {
    let mut p = Permissions::new();
    let alice = vec![1u8, 2];
    assert!(!has_permission(&p, &alice, Permission::Minting).unwrap());
    assert!(matches!(get_user_permissions(&p, &alice), Err(GetUserPermissionsError::UserNotFound)));
    grant_permission(&mut p, alice.clone(), Permission::UpdateUploads).unwrap();
    grant_permission(&mut p, alice.clone(), Permission::Minting).unwrap();
    grant_permission(&mut p, alice.clone(), Permission::Minting).unwrap();
    assert!(has_permission(&p, &alice, Permission::Minting).unwrap());
    assert_eq!(get_user_permissions(&p, &alice).unwrap(), vec![Permission::Minting, Permission::UpdateUploads]);
    revoke_permission(&mut p, &alice, Permission::Minting).unwrap();
    assert!(!has_permission(&p, &alice, Permission::Minting).unwrap());
    assert_eq!(get_user_permissions(&p, &alice).unwrap(), vec![Permission::UpdateUploads]);
    revoke_permission(&mut p, &vec![9], Permission::Minting).unwrap();
    assert!(matches!(get_user_permissions(&p, &vec![9]), Err(GetUserPermissionsError::UserNotFound)));
}

#[test]
fn permission_checks_name_the_missing_permission() {
    let mut p = Permissions::new();
    let bob = vec![3u8];
    assert_eq!(check_permission(&p, &bob, Permission::Minting).unwrap_err(), "Caller does not have minting permission");
    assert_eq!(
        check_permission(&p, &bob, Permission::UpdateCollectionMetadata).unwrap_err(),
        "Caller does not have update collection metadata permission"
    );
    p.grant_permission(bob.clone(), Permission::ReadUploads);
    assert!(check_permission(&p, &bob, Permission::ReadUploads).is_ok());
    assert_eq!(check_permission(&p, &bob, Permission::UpdateUploads).unwrap_err(), "Caller does not have update uploads permission");
}

#[test]
fn one_management_call_at_a_time() {
    let mut guards = ManagementGuards::new();
    let first = GuardManagement::new(&mut guards, vec![1]).unwrap();
    assert_eq!(guards.count(), 1);
    assert_eq!(
        GuardManagement::new(&mut guards, vec![2]).err().unwrap(),
        "Service is already running a management query, try again shortly"
    );
    assert!(GuardManagement::new(&mut guards, vec![1]).is_err());
    first.release(&mut guards);
    assert_eq!(guards.count(), 0);
    let second = GuardManagement::new(&mut guards, vec![2]).unwrap();
    assert_eq!(second.principal, vec![2]);
}
