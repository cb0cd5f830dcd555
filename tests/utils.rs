use bimgo::anchor::{anchor_offset, Anchor};
use bimgo::paths::{escape_path, expand_tilde, expand_tilde_with, join_path, push_decimal};
use bimgo::utils::{check_is_existing_directory, check_is_existing_file, command_arguments, human_readable_size, PathKind};

#[test]
fn human_readable_size_bytes() {
    assert_eq!(human_readable_size(0), "0.0");
    assert_eq!(human_readable_size(5), "0.5");
    assert_eq!(human_readable_size(500), "50");
    assert_eq!(human_readable_size(1024), "102");
}

#[test]
fn human_readable_size_units() {
    assert_eq!(human_readable_size(1025), "1.1K");
    assert_eq!(human_readable_size(1536), "1.5K");
    assert_eq!(human_readable_size(20 * 1024), "20K");
    assert_eq!(human_readable_size(10 * 1024 * 1024), "10M");
    assert_eq!(human_readable_size(1024 * 1024 * 1024 + 1), "1.1G");
    assert_eq!(human_readable_size(u64::MAX), "17179869184G");
}

#[test]
fn command_arguments_substitutes_tokens() {
    let v = command_arguments("cp %i %o", "/a/in.png", "/tmp/out.png");
    assert_eq!(v, vec!["cp", "/a/in.png", "/tmp/out.png"]);
}

#[test]
fn command_arguments_splits_on_each_space() {
    let v = command_arguments("magick %i -quality 80  %o", "i", "o");
    assert_eq!(v, vec!["magick", "i", "-quality", "80", "", "o"]);
    let w = command_arguments("%i %i %i%o", "x", "y");
    assert_eq!(w, vec!["%i", "x", "%i%o"]);
    let e = command_arguments("", "x", "y");
    assert_eq!(e, vec![""]);
}

#[test]
fn join_path_adds_one_separator() {
    assert_eq!(join_path("/tmp", "a"), "/tmp/a");
    assert_eq!(join_path("/tmp/", "a"), "/tmp/a");
    assert_eq!(join_path("", "a"), "a");
}

#[test]
fn push_decimal_writes_digits() {
    let mut s = String::from("n=");
    push_decimal(&mut s, 0);
    push_decimal(&mut s, 1907);
    assert_eq!(s, "n=01907");
}

#[test]
fn escape_path_flattens_separators() {
    assert_eq!(escape_path("/home/u/a%b.jpg"), "%home%u%a%%b.jpg");
    assert_eq!(escape_path("plain"), "plain");
}

#[test]
fn expand_tilde_with_home() {
    let h = Some(String::from("/home/u"));
    assert_eq!(expand_tilde_with("~/x/y", h.clone()).unwrap(), "/home/u/x/y");
    assert_eq!(expand_tilde_with("~", h.clone()).unwrap(), "/home/u");
    assert_eq!(expand_tilde_with("~//x", h.clone()).unwrap(), "/home/u/x");
    assert_eq!(expand_tilde_with("~x", h.clone()).unwrap(), "~x");
    assert_eq!(expand_tilde_with("/abs", None).unwrap(), "/abs");
    assert_eq!(expand_tilde_with("~/x", Some(String::from("/"))).unwrap(), "x");
    assert!(expand_tilde_with("~/x", None).is_err());
}

#[test]
fn expand_tilde_leaves_plain_paths() {
    assert_eq!(expand_tilde("/etc/hosts").unwrap(), "/etc/hosts");
    if let Ok(p) = expand_tilde("~/pics") {
        assert!(p.ends_with("pics"));
        assert!(!p.starts_with('~'));
    }
}

#[test]
fn check_paths_report_kind() {
    assert!(check_is_existing_file("/f", PathKind::File).is_ok());
    assert_eq!(check_is_existing_file("/f", PathKind::Missing).unwrap_err(), "File /f does not exist");
    assert_eq!(check_is_existing_file("/d", PathKind::Directory).unwrap_err(), "/d is not a file");
    assert!(check_is_existing_directory("/d", PathKind::Directory).is_ok());
    assert_eq!(
        check_is_existing_directory("/d", PathKind::Missing).unwrap_err(),
        "Directory /d does not exist"
    );
    assert_eq!(check_is_existing_directory("/f", PathKind::File).unwrap_err(), "/f is not a directory");
}

#[test]
fn anchor_offsets() {
    assert_eq!(anchor_offset(Anchor::TopLeft, 10, 20), (0, 0));
    assert_eq!(anchor_offset(Anchor::Center, 10, 20), (5, 10));
    assert_eq!(anchor_offset(Anchor::BottomRight, 10, 20), (10, 20));
    assert_eq!(anchor_offset(Anchor::Top, 11, 20), (5, 0));
    assert_eq!(anchor_offset(Anchor::BottomLeft, 11, 20), (0, 20));
}
