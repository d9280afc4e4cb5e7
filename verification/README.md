# redox_users

Users and groups of a Redox system, verified with Verus.

- `src/` is the library. It reads and writes the content of the files of users and groups
  (`all_users.rs`, `all_groups.rs`, with one entry each in `user.rs` and `group.rs`), sets
  and verifies passwords (`passwd.rs`, on top of Argon2 in `argon.rs`), and asks for the ids
  of the running process (`ids.rs`). `text.rs`, `number.rs` and `list.rs` hold what these
  share. The proof functions whose names start with `law_` state what holds of the library
  as a whole: what is saved is what is read, a password that was set opens the account, no
  password opens an account whose password is unset.
- `app/` opens the files, waits after a wrong password and starts the login commands.
- `tests/` runs the library.

An account whose hash field is empty is opened with the empty password. One whose hash
field is a serialized Argon2 session is opened with the password of the session. Any other
hash field, such as `!`, keeps everyone out.
