use anchor_accounts::mirror::{client_account_paths, client_path, mirror_path, same_path};

fn path(segs: &[&str]) -> Vec<String> {
    segs.iter().map(|s| s.to_string()).collect()
}

#[test]
fn client_path_snake_cases_last_segment() {
    let p = client_path(&path(&["instructions", "InitializeVault"]));
    assert_eq!(p, path(&["instructions", "__client_accounts_initialize_vault"]));
}

#[test]
fn mirror_path_uses_given_name() {
    let p = mirror_path(&path(&["a", "Whatever"]), "given");
    assert_eq!(p, path(&["a", "__client_accounts_given"]));
}

#[test]
fn mirror_of_empty_path_is_empty() {
    assert!(client_path(&Vec::new()).is_empty());
}

#[test]
fn same_path_compares_segments() {
    assert!(same_path(&path(&["a", "b"]), &path(&["a", "b"])));
    assert!(!same_path(&path(&["a", "b"]), &path(&["a", "c"])));
    assert!(!same_path(&path(&["a"]), &path(&["a", "b"])));
}

#[test]
fn client_account_paths_dedup_by_full_path() {
    let ix = vec![
        path(&["Initialize"]),
        path(&["hehe", "Initialize2"]),
        path(&["Initialize"]),
        path(&["other", "Initialize"]),
    ];
    let out = client_account_paths(&ix);
    assert_eq!(
        out,
        vec![
            path(&["__client_accounts_initialize"]),
            path(&["hehe", "__client_accounts_initialize2"]),
            path(&["other", "__client_accounts_initialize"]),
        ]
    );
}
