use command_surface::{greet, CommandError};

#[test]
fn greet_wraps_the_name_in_the_template() {
    assert_eq!(greet("World"), "Hello, World! You've been greeted from Rust!");
}

#[test]
fn greet_accepts_the_empty_name() {
    assert_eq!(greet(""), "Hello, ! You've been greeted from Rust!");
}

#[test]
fn greet_keeps_the_name_as_given() {
    let names = ["Ada", " spaced out ", "{}", "Zoë", "名前", "a/b/c", "line\nbreak", "!"];
    for name in names {
        let out = greet(name);
        assert!(out.contains(name));
        assert!(out.starts_with("Hello, "));
        assert!(out.ends_with("! You've been greeted from Rust!"));
        assert_eq!(out.len(), name.len() + 39);
        assert_eq!(&out[7..7 + name.len()], name);
    }
}

#[test]
fn greet_is_repeatable() {
    let name = String::from("Grace");
    let copy = name.clone();
    assert_eq!(greet(&name), greet(&copy));
    assert_eq!(greet(&name), greet(&name));
    assert_ne!(greet("Grace"), greet("grace"));
}

#[test]
fn error_messages_name_the_failure() {
    assert_eq!(
        CommandError::NoFileName.message(),
        "operation undefined for input: the path has no file name"
    );
    assert_eq!(
        CommandError::NoParent.message(),
        "operation undefined for input: the path has no parent"
    );
    assert_ne!(CommandError::NoFileName, CommandError::NoParent);
}
