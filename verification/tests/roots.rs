use windows_registry_search::{Root, SelectedRoots};

#[test]
fn numbers_name_the_roots_in_order() {
    assert_eq!(Root::from_u8(0), Some(Root::HkeyClassesRoot));
    assert_eq!(Root::from_u8(1), Some(Root::HkeyCurrentUser));
    assert_eq!(Root::from_u8(2), Some(Root::HkeyLocalMachine));
    assert_eq!(Root::from_u8(3), Some(Root::HkeyUsers));
    assert_eq!(Root::from_u8(4), Some(Root::HkeyCurrentConfig));
}

#[test]
fn numbers_beyond_the_list_name_no_root() {
    assert_eq!(Root::from_u8(5), None);
    assert_eq!(Root::from_u8(255), None);
}

#[test]
fn each_root_is_found_by_its_number() {
    let roots = Root::all();
    assert_eq!(roots.len(), 5);
    for (place, root) in roots.iter().enumerate() {
        assert_eq!(root.to_u8() as usize, place);
        assert_eq!(Root::from_u8(root.to_u8()), Some(*root));
    }
}

#[test]
fn roots_are_named_as_in_the_registry() {
    let names: Vec<String> = Root::all().iter().map(|root| root.to_string()).collect();
    assert_eq!(
        names,
        vec![
            "HKEY_CLASSES_ROOT",
            "HKEY_CURRENT_USER",
            "HKEY_LOCAL_MACHINE",
            "HKEY_USERS",
            "HKEY_CURRENT_CONFIG",
        ]
    );
}

#[test]
fn local_machine_and_users_are_selected_to_begin_with() {
    let selected = SelectedRoots::default();
    assert!(!selected.is_enabled(&Root::HkeyClassesRoot));
    assert!(!selected.is_enabled(&Root::HkeyCurrentUser));
    assert!(selected.is_enabled(&Root::HkeyLocalMachine));
    assert!(selected.is_enabled(&Root::HkeyUsers));
    assert!(!selected.is_enabled(&Root::HkeyCurrentConfig));
    assert_eq!(
        selected.export_roots(),
        vec![Root::HkeyLocalMachine, Root::HkeyUsers]
    );
}

#[test]
fn toggling_changes_one_root_and_twice_nothing() {
    for root in Root::all() {
        let mut selected = SelectedRoots::default();
        let before = selected.export_roots();
        selected.toggle(&root);
        for other in Root::all() {
            let was = before.contains(&other);
            assert_eq!(selected.is_enabled(&other), was != (other == root));
        }
        selected.toggle(&root);
        assert_eq!(selected.export_roots(), before);
    }
}

#[test]
fn exported_roots_keep_the_order_of_the_list() {
    let mut selected = SelectedRoots::default();
    selected.toggle(&Root::HkeyCurrentConfig);
    selected.toggle(&Root::HkeyClassesRoot);
    selected.toggle(&Root::HkeyUsers);
    assert_eq!(
        selected.export_roots(),
        vec![
            Root::HkeyClassesRoot,
            Root::HkeyLocalMachine,
            Root::HkeyCurrentConfig,
        ]
    );
}
