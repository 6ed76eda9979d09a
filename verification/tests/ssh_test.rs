use curlish::ssh::{choose_ssh_key, ssh_command};

fn names(list: &[&str]) -> Vec<String> {
    list.iter().map(|s| s.to_string()).collect()
}

#[test]
fn preferred_key_wins_over_listing_order() {
    let files = names(&["id_rsa", "config", "id_ecdsa", "id_ecdsa.pub"]);
    assert_eq!(choose_ssh_key(&files), Some(String::from("id_ecdsa")));
}

#[test]
fn other_id_file_that_is_not_public_is_taken() {
    let files = names(&["known_hosts", "id_work.pub", "id_work", "id_home"]);
    assert_eq!(choose_ssh_key(&files), Some(String::from("id_work")));
}

#[test]
fn no_key_gives_none() {
    let files = names(&["config", "known_hosts", "id_x.pub", "id"]);
    assert_eq!(choose_ssh_key(&files), None);
}

#[test]
fn ssh_command_uses_forward_slashes() {
    assert_eq!(
        ssh_command("C:\\Users\\me\\.ssh\\id_ed25519"),
        "ssh -i \"C:/Users/me/.ssh/id_ed25519\" -o IdentitiesOnly=yes -o StrictHostKeyChecking=accept-new"
    );
}
