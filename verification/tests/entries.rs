use redox_users::error::{os_error, parse_error};
use redox_users::ids::{id_of_reply, SyscallError};
use redox_users::number::{parse_number, to_decimal, to_hex_upper, IntError};
use redox_users::text::{join_strs, split_lines, split_str, trim_str};
use redox_users::{get_egid, get_euid, get_gid, get_uid};
use redox_users::{AllGroups, AllUsers, Error, Group, User, UsersError};
use std::str::FromStr;

fn parsing(reason: &str) -> Error {
    Error::Users(UsersError::Parsing { reason: reason.to_string() })
}

#[test]
fn user_entry_errors() {
    let err = |s: &str| User::from_str(s).unwrap_err();
    assert_eq!(err(""), parsing("expected hash"));
    assert_eq!(err("u"), parsing("expected hash"));
    assert_eq!(err("u;"), parsing("expected uid"));
    assert_eq!(err("u;;1"), parsing("expected uid"));
    assert_eq!(err("u;;x"), Error::Int(IntError::InvalidDigit));
    assert_eq!(err("u;;"), Error::Int(IntError::Empty));
    assert_eq!(err("u;;1;"), Error::Int(IntError::Empty));
    assert_eq!(err("u;;1;99999999999999999999"), Error::Int(IntError::PosOverflow));
    assert_eq!(err("u;;1;2"), parsing("expected real name"));
    assert_eq!(err("u;;1;2;n"), parsing("expected home dir path"));
    assert_eq!(err("u;;1;2;n;h"), parsing("expected shell path"));
    assert!(User::from_str("u;;1;2;n;h;s").is_ok());
}

#[test]
fn user_entry_with_more_fields() {
    let user = User::from_str("u;!;+1;002;n;h;s;more;and more").unwrap();
    assert_eq!(user.uid, 1);
    assert_eq!(user.gid, 2);
    assert_eq!(user.shell, "s");
    assert_eq!(user.to_string(), "u;!;1;2;n;h;s");
}

#[test]
fn user_entry_with_empty_fields() {
    let user = User::from_str(";;0;0;;;").unwrap();
    assert_eq!(user.user, "");
    assert_eq!(user.shell, "");
    assert_eq!(user.to_string(), ";;0;0;;;");
}

#[test]
fn group_entry_errors() {
    let err = |s: &str| Group::from_str(s).unwrap_err();
    assert_eq!(err(""), parsing("expected gid"));
    assert_eq!(err("g"), parsing("expected gid"));
    assert_eq!(err("g;"), Error::Int(IntError::Empty));
    assert_eq!(err("g;-1;a"), Error::Int(IntError::InvalidDigit));
}

#[test]
fn group_entry_members() {
    let users = |s: &str| Group::from_str(s).unwrap().users;
    assert_eq!(users("g;1"), vec![" "]);
    assert_eq!(users("g;1;"), vec![""]);
    assert_eq!(users("g;1;a"), vec!["a"]);
    assert_eq!(users("g;1;a,b,,c"), vec!["a", "b", "", "c"]);
    assert_eq!(users("g;1;a;b"), vec!["a"]);
}

#[test]
fn group_entry_drops_outer_commas() {
    let group = |users: Vec<&str>| Group {
        group: "g".to_string(),
        gid: 7,
        users: users.iter().map(|u| u.to_string()).collect(),
    };
    assert_eq!(group(vec![]).to_string(), "g;7;");
    assert_eq!(group(vec![""]).to_string(), "g;7;");
    assert_eq!(group(vec!["", "a", "", "b", ""]).to_string(), "g;7;a,,b");
    assert_eq!(group(vec!["", "", ""]).to_string(), "g;7;");
    assert_eq!(group(vec!["a", "b"]).to_string(), "g;7;a,b");
}

#[test]
fn bad_lines_are_passed_over() {
    let users = AllUsers::new("broken\na;;1;1;A;/a;/s\n\nb;;x;2;B;/b;/s\nc;;3;3;C;/c;/s");
    assert_eq!(users.save(), "a;;1;1;A;/a;/s\nc;;3;3;C;/c;/s\n");
    let groups = AllGroups::new("broken\na;1;x\n\nb;y;z\nc;3;u,v");
    assert_eq!(groups.save(), "a;1;x\nc;3;u,v\n");
}

#[test]
fn lines_end_with_or_without_carriage_return() {
    let texts = ["", "\n", "a", "a\n", "a\r\nb\n", "a\r", "a\r\r\nb\r", "\r\n\r\n", "x\ny\r\n\nz\r"];
    for text in texts {
        let expected: Vec<String> = text.lines().map(|l| l.to_string()).collect();
        assert_eq!(split_lines(text), expected);
    }
}

#[test]
fn saved_users_are_read_back() {
    let text = "root;!;0;0;root;/root;/sh\nu\u{e9};*;18446744073709551615;5;\u{20ac};;\n";
    let users = AllUsers::new(text);
    assert_eq!(users.save(), text);
    assert_eq!(AllUsers::new(&users.save()).save(), text);
}

#[test]
fn saved_groups_are_read_back() {
    let text = "root;0;root\nempty;5;\nmany;6;a,,b\nblank;7; \n";
    let groups = AllGroups::new(text);
    assert_eq!(groups.save(), text);
    let again = AllGroups::new(&groups.save());
    assert_eq!(again.get_by_name("many").unwrap().users, vec!["a", "", "b"]);
}

#[test]
fn first_of_several_is_found_and_removed() {
    let mut users = AllUsers::new("a;;1;1;first;/;/\nb;;1;1;second;/;/\na;;2;2;third;/;/\n");
    assert_eq!(users.get_by_name("a").unwrap().name, "first");
    assert_eq!(users.get_by_id(1).unwrap().name, "first");
    assert_eq!(users.remove_by_name("a".to_string()), Ok(()));
    assert_eq!(users.get_by_name("a").unwrap().name, "third");
    assert_eq!(users.get_by_id(1).unwrap().name, "second");
    assert_eq!(users.remove_by_id(1), Ok(()));
    assert!(users.get_by_id(1).is_none());
    assert_eq!(users.remove_by_id(1), Err(UsersError::NotFound));
    assert_eq!(users.remove_by_name("b".to_string()), Err(UsersError::NotFound));
    assert_eq!(users.save(), "a;;2;2;third;/;/\n");
}

#[test]
fn first_group_of_several_is_found_and_removed() {
    let mut groups = AllGroups::new("a;1;x\nb;1;y\na;2;z\n");
    assert_eq!(groups.get_by_name("a").unwrap().users, vec!["x"]);
    assert_eq!(groups.get_by_id(1).unwrap().users, vec!["x"]);
    assert_eq!(groups.remove_by_name("a".to_string()), Ok(()));
    assert_eq!(groups.get_by_name("a").unwrap().users, vec!["z"]);
    assert_eq!(groups.remove_by_id(9), Err(UsersError::NotFound));
    assert_eq!(groups.remove_by_name("q".to_string()), Err(UsersError::NotFound));
    assert_eq!(groups.save(), "b;1;y\na;2;z\n");
}

#[test]
fn a_name_or_an_id_is_given_once() {
    let mut users = AllUsers::new("a;;1;1;A;/a;/s\n");
    assert_eq!(users.add_user("a", 2, 2, "", "", ""), Err(UsersError::AlreadyExists));
    assert_eq!(users.add_user("b", 1, 2, "", "", ""), Err(UsersError::AlreadyExists));
    assert_eq!(users.save(), "a;;1;1;A;/a;/s\n");
    assert_eq!(users.add_user("b", 2, 1, "", "", ""), Ok(()));
    assert_eq!(users.save(), "a;;1;1;A;/a;/s\nb;!;2;1;;;\n");

    let mut groups = AllGroups::new("a;1;\n");
    assert_eq!(groups.add_group("a", 2, &[]), Err(UsersError::AlreadyExists));
    assert_eq!(groups.add_group("b", 1, &[]), Err(UsersError::AlreadyExists));
    assert_eq!(groups.add_group("b", 2, &["x", "y"]), Ok(()));
    assert_eq!(groups.save(), "a;1;\nb;2;x,y\n");
}

#[test]
fn adding_and_removing_gives_the_users_back() {
    let text = "a;;1;1;A;/a;/s\nb;!;2;2;B;/b;/s\n";
    let mut users = AllUsers::new(text);
    let id = users.get_unique_id().unwrap();
    assert_eq!(id, 1000);
    users.add_user("c", id, id, "C", "/c", "/s").unwrap();
    assert_eq!(users.get_by_name("c").unwrap().uid, id);
    assert_eq!(users.get_by_id(id).unwrap().user, "c");
    users.remove_by_name("c".to_string()).unwrap();
    assert!(users.get_by_name("c").is_none());
    assert_eq!(users.save(), text);

    let text = "a;1;x\nb;2;y\n";
    let mut groups = AllGroups::new(text);
    groups.add_group("c", 3, &["z"]).unwrap();
    assert_eq!(groups.get_by_id(3).unwrap().group, "c");
    groups.remove_by_id(3).unwrap();
    assert_eq!(groups.save(), text);
}

#[test]
fn unique_ids_are_the_lowest_and_run_out() {
    let users = AllUsers::new("a;;1000;1;;;\nb;;1001;1;;;\nc;;1003;1;;;\n");
    assert_eq!(users.get_unique_id(), Some(1002));
    let groups = AllGroups::new("a;1000;\nb;1002;\n");
    assert_eq!(groups.get_unique_id(), Some(1001));

    let mut text = String::new();
    let mut group_text = String::new();
    for id in 1000..6000 {
        text.push_str(&format!("u{};!;{};1;;;\n", id, id));
        group_text.push_str(&format!("g{};{};\n", id, id));
    }
    assert_eq!(AllUsers::new(&text).get_unique_id(), None);
    assert_eq!(AllGroups::new(&group_text).get_unique_id(), None);
}

#[test]
fn users_and_groups_can_be_walked() {
    let mut users = AllUsers::new("a;;1;1;A;/a;/s\nb;;2;2;B;/b;/s\n");
    let names: Vec<&str> = users.iter().map(|u| u.user.as_str()).collect();
    assert_eq!(names, vec!["a", "b"]);
    for user in users.iter_mut() {
        user.gid = 9;
    }
    if let Some(user) = users.get_mut_by_id(2) {
        user.name = "Bee".to_string();
    }
    assert!(users.get_mut_by_id(3).is_none());
    assert!(users.get_mut_by_name("c").is_none());
    let mut count = 0;
    for user in &users {
        assert_eq!(user.gid, 9);
        count += 1;
    }
    assert_eq!(count, 2);
    let owned: Vec<User> = users.into_iter().collect();
    assert_eq!(owned[1].name, "Bee");
    assert_eq!(AllUsers::from_iter(owned).save(), "a;;1;9;A;/a;/s\nb;;2;9;Bee;/b;/s\n");

    let mut groups = AllGroups::new("a;1;\nb;2;\n");
    for group in groups.iter_mut() {
        group.users.clear();
    }
    groups.get_mut_by_id(2).unwrap().users.push("u".to_string());
    assert_eq!((&groups).into_iter().count(), 2);
    assert_eq!(groups.iter().count(), 2);
    let owned: Vec<Group> = groups.into_iter().collect();
    assert_eq!(owned[1].users, vec!["u"]);
}

#[test]
fn login_command() {
    let user = User::from_str("fb;!;4294967295;7;Foo;/home/foob;/bin/zsh").unwrap();
    let cmd = user.shell_cmd().unwrap();
    assert_eq!(cmd.program, "/bin/zsh");
    assert_eq!(cmd.uid, 4294967295);
    assert_eq!(cmd.gid, 7);
    assert_eq!(cmd.current_dir, "/home/foob");
    let pair = |k: &str, v: &str| (k.to_string(), v.to_string());
    assert_eq!(
        cmd.env,
        vec![
            pair("USER", "fb"),
            pair("UID", "4294967295"),
            pair("GROUPS", "7"),
            pair("HOME", "/home/foob"),
            pair("SHELL", "/bin/zsh"),
        ]
    );
    let init = user.login_cmd("/bin/orbital").unwrap();
    assert_eq!(init.program, "/bin/orbital");
    assert_eq!((init.uid, init.gid), (4294967295, 7));
    assert_eq!(init.current_dir, "/home/foob");
    assert_eq!(init.env, cmd.env);
}

#[test]
fn no_login_command_under_another_id() {
    for ids in ["4294967296;7", "4294967297;7", "7;4294967296", "4294967297;4294967297"] {
        let entry = format!("fb;!;{};Foo;/home/foob;/bin/zsh", ids);
        let user = User::from_str(&entry).unwrap();
        assert!(user.shell_cmd().is_none());
        assert!(user.login_cmd("/bin/orbital").is_none());
        assert_eq!(user.to_string(), entry);
    }
}

#[test]
fn numbers_are_read_as_std_reads_them() {
    let texts = [
        "", "0", "7", "007", "+", "-", "+5", "-5", "++5", "5+", " 5", "5 ", "1a", "\u{663}",
        "18446744073709551615", "18446744073709551616", "+18446744073709551615",
        "99999999999999999999x", "x99999999999999999999", "1844674407370955161x",
    ];
    for text in texts {
        let expected = match text.parse::<usize>() {
            Ok(n) => Ok(n),
            Err(e) => Err(match e.kind() {
                std::num::IntErrorKind::Empty => IntError::Empty,
                std::num::IntErrorKind::InvalidDigit => IntError::InvalidDigit,
                std::num::IntErrorKind::PosOverflow => IntError::PosOverflow,
                _ => panic!("no such error"),
            }),
        };
        assert_eq!(parse_number(text), expected);
    }
}

#[test]
fn numbers_are_written_as_std_writes_them() {
    for n in [0, 1, 9, 10, 15, 16, 255, 4096, 0x1000_0000, 0xDEAD_BEEF, u64::MAX] {
        assert_eq!(to_decimal(n as usize), format!("{}", n));
        assert_eq!(to_hex_upper(n), format!("{:X}", n));
        assert_eq!(parse_number(&to_decimal(n as usize)), Ok(n as usize));
    }
}

#[test]
fn texts_are_split_joined_and_trimmed_as_std_does() {
    for text in ["", ";", "a", ";a;;b;", "\u{e9};\u{20ac}"] {
        let pieces = split_str(text, ';');
        let expected: Vec<String> = text.split(';').map(|p| p.to_string()).collect();
        assert_eq!(pieces, expected);
        assert_eq!(join_strs(&pieces, ';'), text);
        assert_eq!(trim_str(text, ';'), text.trim_matches(';'));
    }
    assert_eq!(join_strs(&vec![], ','), "");
}

#[test]
fn errors_have_messages() {
    assert_eq!(os_error("why").to_string(), "os error: code why");
    assert_eq!(parse_error("why").to_string(), "parse error: why");
    assert_eq!(UsersError::NotFound.to_string(), "user/group not found");
    assert_eq!(UsersError::AlreadyExists.to_string(), "user/group already exists");
}

#[test]
fn replies_of_system_calls() {
    assert_eq!(id_of_reply(Ok(5)), Ok(5));
    assert_eq!(
        id_of_reply(Err(SyscallError { errno: 1 })),
        Err(UsersError::Os { reason: "Operation not permitted".to_string() })
    );
    assert_eq!(
        UsersError::from(SyscallError { errno: 2 }),
        UsersError::Os { reason: "No such file or directory".to_string() }
    );
}

#[test]
fn ids_of_the_process() {
    // away from Redox there are no such system calls
    let refused = Err(UsersError::Os { reason: "Function not implemented".to_string() });
    assert_eq!(get_euid(), refused);
    assert_eq!(get_uid(), refused);
    assert_eq!(get_egid(), refused);
    assert_eq!(get_gid(), refused);
}
