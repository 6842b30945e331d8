use class_list::traits::{ClassList, ClassToggle};
use class_list::utils::{join_class_list, normalize_class_list_string, toggled_class};

#[test]
fn normalize() {
    assert_eq!(
        normalize_class_list_string("class list".into()),
        "class list".to_string()
    );
    assert_eq!(
        normalize_class_list_string("    class list".into()),
        "class list".to_string()
    );
    assert_eq!(
        normalize_class_list_string("class list    ".into()),
        "class list".to_string()
    );
    assert_eq!(
        normalize_class_list_string("    class list    ".into()),
        "class list".to_string()
    );
    assert_eq!(
        normalize_class_list_string("    class    list    ".into()),
        "class list".to_string()
    );
    assert_eq!(
        normalize_class_list_string(" 1 2 3 4  5  6 7 8 9 ".into()),
        "1 2 3 4 5 6 7 8 9".to_string()
    );
}

#[test]
fn to_class_list() {
    assert_eq!("  class    list  ".to_class_list(true), "class list".to_string());
    assert_eq!(
        "  class    list  ".to_string().to_class_list(true),
        "class list".to_string()
    );
}

// The tests below run the code that the compiler emits for an invocation,
// written out by hand.

#[test]
fn test_reactive() {
    let computation = {
        move || {
            join_class_list(Vec::from([
                toggled_class(&("class"), &(true)),
                toggled_class(&("hidden"), &(false)),
                toggled_class(&("list"), &(true)),
            ]))
        }
    };
    assert_eq!(computation(), "class list".to_string());
}

#[test]
fn test_raw() {
    let raw_result = {
        join_class_list(Vec::from([
            toggled_class(&("class"), &(true)),
            toggled_class(&("hidden"), &(false)),
            toggled_class(&("list"), &(true)),
        ]))
    };
    assert_eq!(raw_result, "class list".to_string());
    let raw_true_result = {
        join_class_list(Vec::from([
            toggled_class(&("class"), &(true)),
            toggled_class(&("hidden"), &(false)),
            toggled_class(&("list"), &(true)),
        ]))
    };
    assert_eq!(raw_true_result, "class list".to_string());
    let deferred = {
        move || {
            join_class_list(Vec::from([
                toggled_class(&("class"), &(true)),
                toggled_class(&("hidden"), &(false)),
                toggled_class(&("list"), &(true)),
            ]))
        }
    };
    assert_eq!(deferred(), "class list".to_string());
}

#[test]
fn test_clone() {
    let class = "class";
    let hidden = "hidden";
    let list = "list";
    let deferred = {
        #[allow(clippy::clone_on_copy)]
        let class = class.clone();
        #[allow(clippy::clone_on_copy)]
        let list = list.clone();
        move || {
            join_class_list(Vec::from([
                (class).to_class_list(false),
                toggled_class(&(hidden), &(false)),
                (list).to_class_list(false),
            ]))
        }
    };
    assert_eq!(deferred(), "class list".to_string());
    let raw_result = {
        #[allow(clippy::clone_on_copy)]
        let class = class.clone();
        #[allow(clippy::clone_on_copy)]
        let list = list.clone();
        join_class_list(Vec::from([
            (class).to_class_list(false),
            toggled_class(&(hidden), &(false)),
            (list).to_class_list(false),
        ]))
    };
    assert_eq!(raw_result, "class list".to_string());
}

#[test]
fn test_new_impl() {
    struct Bool(bool);

    impl ClassList for Bool {
        fn to_class_list(&self, _: bool) -> String {
            if self.0 {
                "true".into()
            } else {
                "false".into()
            }
        }
    }
    impl ClassToggle for Bool {
        fn to_class_toggle(&self) -> bool {
            self.0
        }
    }

    let deferred = {
        move || {
            join_class_list(Vec::from([
                (move || Bool(false)).to_class_list(false),
                (Bool(true)).to_class_list(false),
                ("class").to_class_list(false),
                toggled_class(&("hidden"), &(move || Bool(false))),
                ("list").to_class_list(false),
            ]))
        }
    };
    assert_eq!(deferred(), "false true class list".to_string());
}
