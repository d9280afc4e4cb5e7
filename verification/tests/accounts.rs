use redox_users::{AllGroups, AllUsers, User};
use std::str::FromStr;

const MIN_UID: usize = 1000;
const MAX_UID: usize = 6000;
const MIN_GID: usize = 1000;
const MAX_GID: usize = 6000;

const PASSWD: &str = "root;$argon2i$m=4096,t=10,p=1$Tnc4UVV0N00$ML9LIOujd3nmAfkAwEcSTMPqakWUF0OUiLWrIy0nGLk;0;0;root;file:/root;file:/bin/ion\nuser;;1000;1000;user;file:/home/user;file:/bin/ion\n";
const GROUP: &str = "root;0;root\nuser;1000;user\nwheel;1;user,root\n";

fn get_test_all_users() -> AllUsers {
    AllUsers::new(PASSWD)
}

fn get_test_all_groups() -> AllGroups {
    AllGroups::new(GROUP)
}

#[test]
fn get_user() {
    let users = get_test_all_users();
    let root = users.get_by_id(0).unwrap();
    assert_eq!(root.user, "root".to_string());
    assert_eq!(
        root.hash(),
        "$argon2i$m=4096,t=10,p=1$Tnc4UVV0N00$ML9LIOujd3nmAfkAwEcSTMPqakWUF0OUiLWrIy0nGLk".to_string()
    );
    assert_eq!(root.uid, 0);
    assert_eq!(root.gid, 0);
    assert_eq!(root.name, "root".to_string());
    assert_eq!(root.home, "file:/root".to_string());
    assert_eq!(root.shell, "file:/bin/ion".to_string());
    match root.is_encoded() {
        true => (),
        false => panic!("Expected encoded argon hash!"),
    }

    let user = users.get_by_name("user").unwrap();
    assert_eq!(user.user, "user".to_string());
    assert_eq!(user.hash(), "".to_string());
    assert_eq!(user.uid, 1000);
    assert_eq!(user.gid, 1000);
    assert_eq!(user.name, "user".to_string());
    assert_eq!(user.home, "file:/home/user".to_string());
    assert_eq!(user.shell, "file:/bin/ion".to_string());
    match user.is_encoded() {
        true => panic!("Should not be an argon hash!"),
        false => (),
    }
}

#[test]
fn get_group() {
    let groups = get_test_all_groups();
    let user = groups.get_by_name("user").unwrap();
    assert_eq!(user.group, "user");
    assert_eq!(user.gid, 1000);
    assert_eq!(user.users, vec!["user"]);

    let wheel = groups.get_by_id(1).unwrap();
    assert_eq!(wheel.group, "wheel");
    assert_eq!(wheel.gid, 1);
    assert_eq!(wheel.users, vec!["user", "root"]);
}

#[test]
fn get_unused_ids() {
    let users = get_test_all_users();
    let id = users.get_unique_id().unwrap();
    if id < MIN_UID || id > MAX_UID {
        panic!("User ID is not between allowed margins")
    } else if let Some(_) = users.get_by_id(id) {
        panic!("User ID is used!");
    }

    let groups = get_test_all_groups();
    let id = groups.get_unique_id().unwrap();
    if id < MIN_GID || id > MAX_GID {
        panic!("Group ID is not between allowed margins")
    } else if let Some(_) = groups.get_by_id(id) {
        panic!("Group ID is used!");
    }
}

#[test]
fn manip_user() {
    let mut users = get_test_all_users();
    // NOT testing `get_unique_id`
    let id = 7099;
    users.add_user("fb", id, id, "FooBar", "/home/foob", "/bin/zsh").unwrap();
    //                                             weirdo ^^^^^^^^^ :P
    let file_content = users.save();
    assert_eq!(file_content, "root;$argon2i$m=4096,t=10,p=1$Tnc4UVV0N00$ML9LIOujd3nmAfkAwEcSTMPqakWUF0OUiLWrIy0nGLk;0;0;root;file:/root;file:/bin/ion\n".to_string()
        + "user;;1000;1000;user;file:/home/user;file:/bin/ion\n"
        + "fb;!;7099;7099;FooBar;/home/foob;/bin/zsh\n");

    {
        let fb = users.get_mut_by_name("fb").unwrap();
        fb.shell = "/bin/fish".to_string(); // That's better
    }
    let file_content = users.save();
    assert_eq!(file_content, "root;$argon2i$m=4096,t=10,p=1$Tnc4UVV0N00$ML9LIOujd3nmAfkAwEcSTMPqakWUF0OUiLWrIy0nGLk;0;0;root;file:/root;file:/bin/ion\n".to_string()
        + "user;;1000;1000;user;file:/home/user;file:/bin/ion\n"
        + "fb;!;7099;7099;FooBar;/home/foob;/bin/fish\n");

    {
        users.remove_by_id(id).unwrap();
    }
    let file_content = users.save();
    assert_eq!(file_content, "root;$argon2i$m=4096,t=10,p=1$Tnc4UVV0N00$ML9LIOujd3nmAfkAwEcSTMPqakWUF0OUiLWrIy0nGLk;0;0;root;file:/root;file:/bin/ion\n".to_string()
        + "user;;1000;1000;user;file:/home/user;file:/bin/ion\n");
}

#[test]
fn manip_group() {
    let mut groups = get_test_all_groups();
    // NOT testing `get_unique_id`
    let id = 7099;

    groups.add_group("fb", id, &["fb"]).unwrap();
    let file_content = groups.save();
    assert_eq!(
        file_content,
        "root;0;root\n".to_string() + "user;1000;user\n" + "wheel;1;user,root\n" + "fb;7099;fb\n"
    );

    {
        let fb = groups.get_mut_by_name("fb").unwrap();
        fb.users.push("user".to_string());
    }
    let file_content = groups.save();
    assert_eq!(
        file_content,
        "root;0;root\n".to_string() + "user;1000;user\n" + "wheel;1;user,root\n" + "fb;7099;fb,user\n"
    );

    groups.remove_by_id(id).unwrap();
    let file_content = groups.save();
    assert_eq!(
        file_content,
        "root;0;root\n".to_string() + "user;1000;user\n" + "wheel;1;user,root\n"
    );
}

// This does not use the test files
fn create_all_users() -> AllUsers {
    let mut root = User::from_str("root;;0;0;root;/root;/bin/ion").unwrap();
    let mut user = User::from_str("user;;0;0;user;/home/user;/bin/ion").unwrap();

    root.set_passwd("password").unwrap();
    user.set_passwd("").unwrap();

    let users = vec![root, user];

    AllUsers::from_iter(users)
}

#[test]
fn get_by_name_works() {
    let mut expected_user = User::from_str("root;;0;0;root;/root;/bin/ion").unwrap();

    expected_user.set_passwd("password").unwrap();
    let all_users = create_all_users();

    assert_eq!(expected_user.gid, all_users.get_by_name("root").unwrap().gid);
}
