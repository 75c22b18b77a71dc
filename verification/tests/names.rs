use virsh_usb::names::sanitize_device_name;

#[test]
fn valid_names_stay() {
    for name in ["MyDrive", "my-drive", "my_drive_2", "a", "Größe", "日本語"] {
        assert_eq!(sanitize_device_name(name), name);
    }
}

#[test]
fn other_characters_become_hyphens() {
    assert_eq!(sanitize_device_name("My Drive"), "My-Drive");
    assert_eq!(sanitize_device_name("a/b.c"), "a-b-c");
    assert_eq!(sanitize_device_name("Größe 1"), "Größe-1");
    assert_eq!(sanitize_device_name("½\u{20ac}x"), "½-x");
}

#[test]
fn hyphens_in_a_row_become_one() {
    assert_eq!(sanitize_device_name("a--b"), "a-b");
    assert_eq!(sanitize_device_name("a - b"), "a-b");
    assert_eq!(sanitize_device_name("a !?- b"), "a-b");
}

#[test]
fn hyphens_at_the_ends_go() {
    assert_eq!(sanitize_device_name("-a-"), "a");
    assert_eq!(sanitize_device_name("  spaced out  "), "spaced-out");
    assert_eq!(sanitize_device_name("_-_"), "_-_");
}

#[test]
fn nothing_may_be_left() {
    assert_eq!(sanitize_device_name(""), "");
    assert_eq!(sanitize_device_name("---"), "");
    assert_eq!(sanitize_device_name(" .!"), "");
}

#[test]
fn sanitizing_twice_is_sanitizing_once() {
    for name in ["", "My Drive", "--x--y--", "\u{0}\u{1}", "a..b__c"] {
        let once = sanitize_device_name(name);
        assert_eq!(sanitize_device_name(&once), once);
    }
}

#[test]
fn letters_keep_their_order() {
    let kept: String = sanitize_device_name("a b?c--d_1").chars().filter(|c| *c != '-').collect();
    assert_eq!(kept, "abcd_1");
}
