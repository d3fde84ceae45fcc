use std::cell::RefCell;

use arcrelay_transfer::infrastructure::destination::{
    check_receive_directory, create_safe_directories, destination_name, finalize_staged, free_name,
    pass_directory, staging_file_name, unique_destination, EntryKind, LinkOutcome,
};
use arcrelay_transfer::infrastructure::filesystem::{
    file_kind, fold_case, media_type, path_file_name, portable_path_key, sanitize_relative_path,
    windows_reserved_name,
};
use arcrelay_transfer::{FileKind, TransferError};

#[test]
fn path_sanitizer_blocks_traversal_and_platform_paths() {
    for unsafe_path in ["", "../secret", "/tmp/file", "a/./b", "a//b", "C:\\secret"] {
        assert!(
            sanitize_relative_path(unsafe_path).is_err(),
            "{unsafe_path}"
        );
    }
    assert_eq!(
        sanitize_relative_path("folder/file.txt").unwrap().text(),
        "folder/file.txt"
    );
}

#[test]
fn media_type_uses_real_extension_case_insensitively() {
    assert_eq!(media_type("photo.png"), "image/png");
    assert_eq!(media_type("photo.JPG"), "image/jpeg");
    assert_eq!(media_type("报告.PDF"), "application/pdf");
    assert_eq!(media_type("没有扩展名"), "application/octet-stream");
}

#[test]
fn every_known_extension_has_its_media_type_and_kind() {
    for (path, kind, media) in [
        ("a.png", FileKind::Image, "image/png"),
        ("a.jpg", FileKind::Image, "image/jpeg"),
        ("a.jpeg", FileKind::Image, "image/jpeg"),
        ("a.gif", FileKind::Image, "image/gif"),
        ("a.webp", FileKind::Image, "image/webp"),
        ("a.bmp", FileKind::Image, "application/octet-stream"),
        ("a.heic", FileKind::Image, "application/octet-stream"),
        ("a.avif", FileKind::Image, "application/octet-stream"),
        ("a.pdf", FileKind::Pdf, "application/pdf"),
        ("a.zip", FileKind::Archive, "application/zip"),
        ("a.7z", FileKind::Archive, "application/octet-stream"),
        ("a.rar", FileKind::Archive, "application/octet-stream"),
        ("a.tar", FileKind::Archive, "application/octet-stream"),
        ("a.gz", FileKind::Archive, "application/octet-stream"),
        ("a.bz2", FileKind::Archive, "application/octet-stream"),
        ("a.xz", FileKind::Archive, "application/octet-stream"),
        ("a.txt", FileKind::File, "text/plain"),
        ("a.md", FileKind::File, "text/plain"),
        ("a.mp4", FileKind::File, "video/mp4"),
        ("a.mov", FileKind::File, "video/quicktime"),
        (".png", FileKind::File, "application/octet-stream"),
        ("dir.png/file", FileKind::File, "application/octet-stream"),
    ] {
        assert_eq!(file_kind(path), kind, "{path}");
        assert_eq!(media_type(path), media, "{path}");
    }
}

#[test]
fn sanitizer_says_why() {
    let text = TransferError::Invalid("unsafe relative path".into());
    let component = TransferError::Invalid("unsafe path component".into());
    assert_eq!(sanitize_relative_path("").err().unwrap(), text);
    assert_eq!(sanitize_relative_path("a\0b").err().unwrap(), text);
    assert_eq!(sanitize_relative_path("a\\b").err().unwrap(), text);
    assert_eq!(
        sanitize_relative_path(&"a/".repeat(2049)).err().unwrap(),
        text
    );
    for path in [
        "/a", "a/", "a/..", ".", "name.", "name ", "a:b", "what?", "a*b", "tab\there", "CON",
        "con.txt", "Lpt9", "x/COM1.tar.gz",
    ] {
        assert_eq!(
            sanitize_relative_path(path).err().unwrap(),
            component,
            "{path}"
        );
    }
    assert_eq!(
        sanitize_relative_path(&"a".repeat(256)).err().unwrap(),
        component
    );
    assert!(sanitize_relative_path(&"a".repeat(255)).is_ok());
    let path = sanitize_relative_path("a b/.hidden/COM0").ok().unwrap();
    assert_eq!(path.len(), 3);
    assert_eq!(path.component(1), ".hidden");
    assert_eq!(path.name(), "COM0");
}

#[test]
fn device_names_are_told_by_their_stem() {
    for name in ["nul", "AUX.h", "prn .txt", "com1", "LPT9.log"] {
        assert!(windows_reserved_name(name), "{name}");
    }
    for name in ["null", "com", "com10", "lpt0", "console"] {
        assert!(!windows_reserved_name(name), "{name}");
    }
}

#[test]
fn path_keys_fold_case_and_composition() {
    assert_eq!(portable_path_key("Caf\u{65}\u{301}.TXT"), "caf\u{e9}.txt");
    assert_eq!(portable_path_key("CAF\u{c9}.txt"), "caf\u{e9}.txt");
    assert_eq!(portable_path_key("plain"), "plain");
    assert_eq!(fold_case("\u{130}x"), "i\u{307}x");
}

#[test]
fn file_name_is_the_last_component() {
    assert_eq!(path_file_name("a/b.txt").as_deref(), Some("b.txt"));
    assert_eq!(path_file_name("a/b/").as_deref(), Some("b"));
    assert_eq!(path_file_name("a/b/.").as_deref(), Some("b"));
    assert_eq!(path_file_name(".."), None);
    assert_eq!(path_file_name("a/.."), None);
    assert_eq!(path_file_name("/"), None);
    assert_eq!(path_file_name(""), None);
}

#[test]
fn taken_names_get_a_number_before_the_extension() {
    assert_eq!(destination_name("hello.txt", 0), "hello.txt");
    assert_eq!(destination_name("hello.txt", 1), "hello (1).txt");
    assert_eq!(destination_name("archive.tar.gz", 12), "archive.tar (12).gz");
    assert_eq!(destination_name("README", 3), "README (3)");
    assert_eq!(destination_name(".profile", 2), ".profile (2)");
}

#[test]
fn unique_destination_takes_the_first_free_name() {
    let taken = ["a.txt", "a (1).txt", "a (3).txt"];
    assert_eq!(
        free_name("a.txt", |name| taken.contains(&name)).unwrap(),
        "a (2).txt"
    );
    assert_eq!(free_name("b.txt", |_| false).unwrap(), "b.txt");
    assert_eq!(
        free_name("a.txt", |_| true),
        Err(TransferError::Invalid(
            "cannot choose unique destination".into()
        ))
    );
    let path = sanitize_relative_path("folder/a.txt").ok().unwrap();
    assert_eq!(
        unique_destination(
            &path,
            |_, _| Ok(EntryKind::Directory),
            |_| panic!("the directory is there"),
            |name| taken.contains(&name),
        )
        .unwrap(),
        "a (2).txt"
    );
}

#[test]
fn unique_destination_makes_what_is_missing_and_nothing_behind_a_link() {
    let path = sanitize_relative_path("escape/new/file.txt").ok().unwrap();
    let made = RefCell::new(Vec::new());
    let chosen = unique_destination(
        &path,
        |depth, again| {
            assert_eq!(again, made.borrow().contains(&depth));
            if depth == 0 || again {
                Ok(EntryKind::Directory)
            } else {
                Ok(EntryKind::Missing("not found".into()))
            }
        },
        |depth| {
            made.borrow_mut().push(depth);
            Ok(())
        },
        |_| false,
    );
    assert_eq!(chosen.unwrap(), "file.txt");
    assert_eq!(*made.borrow(), vec![1, 2]);

    let seen = RefCell::new(Vec::new());
    let linked = unique_destination(
        &path,
        |depth, _| {
            seen.borrow_mut().push(depth);
            if depth == 0 {
                Ok(EntryKind::Directory)
            } else {
                Ok(EntryKind::Other)
            }
        },
        |_| panic!("nothing is made behind a link"),
        |_| panic!("nothing is looked for behind a link"),
    );
    assert!(linked.is_err());
    assert_eq!(*seen.borrow(), vec![0, 1]);
}

#[test]
fn directories_that_vanish_or_change_are_refused() {
    let path = sanitize_relative_path("new/file.txt").ok().unwrap();
    let missing = |depth| {
        if depth == 0 {
            Ok(EntryKind::Directory)
        } else {
            Ok(EntryKind::Missing("not found".into()))
        }
    };
    assert_eq!(
        create_safe_directories(&path, |depth, _| missing(depth), |_| Ok(())),
        Err(TransferError::Io("not found".into()))
    );
    assert_eq!(
        create_safe_directories(
            &path,
            |depth, again| {
                if again {
                    Ok(EntryKind::Other)
                } else {
                    missing(depth)
                }
            },
            |_| Ok(()),
        ),
        Err(TransferError::Invalid(
            "destination directory changed while receiving".into()
        ))
    );
}

#[test]
fn directories_are_made_but_never_through_links() {
    let path = sanitize_relative_path("escape/new/file.txt").ok().unwrap();
    let linked = create_safe_directories(
        &path,
        |depth, _| {
            if depth == 0 {
                Ok(EntryKind::Directory)
            } else {
                Ok(EntryKind::Other)
            }
        },
        |_| panic!("nothing is made behind a link"),
    );
    assert_eq!(
        linked,
        Err(TransferError::Invalid(
            "destination contains a symlink or non-directory".into()
        ))
    );
    let root = create_safe_directories(&path, |_, _| Ok(EntryKind::Other), |_| Ok(()));
    assert_eq!(
        root,
        Err(TransferError::Invalid(
            "receive directory must be a normal directory".into()
        ))
    );
    assert!(create_safe_directories(&path, |_, _| Ok(EntryKind::Directory), |_| Ok(())).is_ok());
    let failed = create_safe_directories(
        &path,
        |depth, _| {
            if depth == 0 {
                Ok(EntryKind::Directory)
            } else {
                Ok(EntryKind::Missing("not found".into()))
            }
        },
        |_| Err(TransferError::Io("denied".into())),
    );
    assert_eq!(failed, Err(TransferError::Io("denied".into())));
}

#[test]
fn each_directory_is_there_or_made_or_the_reason_is_told() {
    let there = || Ok(EntryKind::Directory);
    let nothing = |text: &str| Ok(EntryKind::Missing(text.into()));
    let broken = |text: &str| TransferError::Io(text.into());
    let invalid = |text: &str| Err(TransferError::Invalid(text.into()));
    assert_eq!(pass_directory(true, there(), Err(broken("a")), Err(broken("b"))), Ok(()));
    assert_eq!(pass_directory(false, there(), Err(broken("a")), Err(broken("b"))), Ok(()));
    assert_eq!(
        pass_directory(true, nothing("first"), Ok(()), there()),
        Err(broken("first"))
    );
    assert_eq!(pass_directory(false, nothing("first"), Ok(()), there()), Ok(()));
    assert_eq!(
        pass_directory(false, nothing("first"), Err(broken("made")), there()),
        Err(broken("made"))
    );
    assert_eq!(
        pass_directory(false, nothing("first"), Ok(()), nothing("second")),
        Err(broken("second"))
    );
    assert_eq!(
        pass_directory(false, nothing("first"), Ok(()), Err(broken("second"))),
        Err(broken("second"))
    );
    assert_eq!(
        pass_directory(false, nothing("first"), Ok(()), Ok(EntryKind::Other)),
        invalid("destination directory changed while receiving")
    );
    assert_eq!(
        pass_directory(true, Ok(EntryKind::Other), Ok(()), there()),
        invalid("receive directory must be a normal directory")
    );
    assert_eq!(
        pass_directory(false, Ok(EntryKind::Other), Ok(()), there()),
        invalid("destination contains a symlink or non-directory")
    );
    assert_eq!(
        pass_directory(false, Err(broken("look")), Ok(()), there()),
        Err(broken("look"))
    );
}

#[test]
fn staged_files_are_linked_or_the_failure_is_told() {
    let path = sanitize_relative_path("a.txt").ok().unwrap();
    let there = |_, _, _| Ok(EntryKind::Directory);
    let make = |_, _| panic!("the directory is there");
    assert_eq!(
        finalize_staged(&path, there, make, |_, _| false, |_, _| LinkOutcome::Linked).unwrap(),
        "a.txt"
    );
    assert_eq!(
        finalize_staged(&path, there, make, |_, _| false, |_, _| {
            LinkOutcome::Failed(TransferError::Io("disk".into()))
        }),
        Err(TransferError::Io("disk".into()))
    );
    assert_eq!(
        finalize_staged(&path, there, make, |_, _| true, |_, _| panic!("no name is free")),
        Err(TransferError::Invalid(
            "cannot choose unique destination".into()
        ))
    );
    assert_eq!(
        finalize_staged(
            &path,
            |attempt, _, _| {
                if attempt == 2 {
                    Ok(EntryKind::Other)
                } else {
                    Ok(EntryKind::Directory)
                }
            },
            make,
            |_, _| false,
            |_, _| LinkOutcome::Occupied
        ),
        Err(TransferError::Invalid(
            "receive directory must be a normal directory".into()
        ))
    );
    let attempts = RefCell::new(0);
    assert_eq!(
        finalize_staged(&path, there, make, |_, _| false, |attempt, _| {
            assert_eq!(attempt, *attempts.borrow());
            *attempts.borrow_mut() += 1;
            LinkOutcome::Occupied
        }),
        Err(TransferError::Invalid(
            "cannot atomically finalize received file".into()
        ))
    );
    assert_eq!(*attempts.borrow(), 10_000);
}

#[test]
fn a_name_that_was_taken_in_between_is_chosen_anew() {
    let path = sanitize_relative_path("new/a.txt").ok().unwrap();
    let entries = RefCell::new(vec!["a.txt".to_string()]);
    let made = RefCell::new(Vec::new());
    let chosen = finalize_staged(
        &path,
        |_, depth, _| {
            if depth == 0 || made.borrow().contains(&depth) {
                Ok(EntryKind::Directory)
            } else {
                Ok(EntryKind::Missing("not found".into()))
            }
        },
        |attempt, depth| {
            assert_eq!((attempt, depth), (0, 1));
            made.borrow_mut().push(depth);
            Ok(())
        },
        |_, name| entries.borrow().iter().any(|entry| entry == name),
        |attempt, name| {
            entries.borrow_mut().push(name.clone());
            if attempt < 2 {
                LinkOutcome::Occupied
            } else {
                LinkOutcome::Linked
            }
        },
    );
    assert_eq!(chosen.unwrap(), "a (3).txt");
    assert_eq!(*made.borrow(), vec![1]);
    assert_eq!(
        *entries.borrow(),
        vec!["a.txt", "a (1).txt", "a (2).txt", "a (3).txt"]
    );
}

#[test]
fn staging_names_tell_attempts_apart() {
    assert_eq!(staging_file_name(7, 1, "abc"), "7-1-abc.part");
}

#[test]
fn receive_directory_is_a_directory() {
    assert!(check_receive_directory(&EntryKind::Directory).is_ok());
    assert_eq!(
        check_receive_directory(&EntryKind::Other),
        Err(TransferError::Invalid(
            "receive directory must be a regular directory".into()
        ))
    );
}
