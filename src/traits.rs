//! The capabilities that a rendered class list asks of its values: a
//! truthiness for toggles and a string form for class names.
use crate::utils::{normalize, normalize_class_list_string};
use vstd::prelude::*;
use vstd::string::StringExecFns;

verus! {

/// A toggle type: something that reports whether a class is switched on.
///
/// `bool`, `Option`, `Result` and zero-argument callables returning a toggle
/// are supported; `None`, `Err` and `false` are falsy.
pub trait ClassToggle {
    /// `to_class_toggle` may be called on this value; by default, always.
    open spec fn can_toggle(&self) -> bool {
        true
    }

    /// `r` is a truthiness that `to_class_toggle` may report for this value;
    /// by default, either.
    open spec fn toggles_to(&self, r: bool) -> bool {
        true
    }

    /// Converts the value into its truthiness.
    fn to_class_toggle(&self) -> (r: bool)
        requires
            self.can_toggle(),
        ensures
            self.toggles_to(r),
    ;
}

impl<T, F> ClassToggle for F where F: Fn() -> T, T: ClassToggle {
    open spec fn can_toggle(&self) -> bool {
        &&& self.requires(())
        &&& forall|t: T| #[trigger] self.ensures((), t) ==> t.can_toggle()
    }

    open spec fn toggles_to(&self, r: bool) -> bool {
        exists|t: T| #[trigger] self.ensures((), t) && t.toggles_to(r)
    }

    fn to_class_toggle(&self) -> (r: bool) {
        let t = self();
        let r = t.to_class_toggle();
        assert(self.ensures((), t) && t.toggles_to(r));
        r
    }
}

impl<T, E> ClassToggle for Result<T, E> where T: ClassToggle {
    open spec fn can_toggle(&self) -> bool {
        match self {
            Ok(v) => v.can_toggle(),
            Err(_) => true,
        }
    }

    open spec fn toggles_to(&self, r: bool) -> bool {
        match self {
            Ok(v) => v.toggles_to(r),
            Err(_) => !r,
        }
    }

    fn to_class_toggle(&self) -> (r: bool) {
        if let Ok(value) = self {
            value.to_class_toggle()
        } else {
            false
        }
    }
}

impl<T> ClassToggle for Option<T> where T: ClassToggle {
    open spec fn can_toggle(&self) -> bool {
        match self {
            Some(v) => v.can_toggle(),
            None => true,
        }
    }

    open spec fn toggles_to(&self, r: bool) -> bool {
        match self {
            Some(v) => v.toggles_to(r),
            None => !r,
        }
    }

    fn to_class_toggle(&self) -> (r: bool) {
        if let Some(value) = self {
            value.to_class_toggle()
        } else {
            false
        }
    }
}

impl ClassToggle for bool {
    open spec fn can_toggle(&self) -> bool {
        true
    }

    open spec fn toggles_to(&self, r: bool) -> bool {
        r == *self
    }

    fn to_class_toggle(&self) -> (r: bool) {
        *self
    }
}

/// The text of a class list: `text` itself, or its normalized form when
/// `normalize_it` is set.
pub open spec fn rendered(text: Seq<char>, normalize_it: bool) -> Seq<char> {
    if normalize_it {
        normalize(text)
    } else {
        text
    }
}

/// A type that can be turned into a class-list string.
///
/// `str`, `String`, `Option`, `Result` and zero-argument callables returning
/// such a type are supported; `None` and `Err` give the empty string. An
/// implementation is expected to give a trimmed string whose class names are
/// separated by single spaces.
pub trait ClassList {
    /// `to_class_list` may be called on this value; by default, always.
    open spec fn can_render(&self) -> bool {
        true
    }

    /// `r` is a text that `to_class_list(normalize)` may give for this value;
    /// by default, any.
    open spec fn renders_to(&self, normalize: bool, r: Seq<char>) -> bool {
        true
    }

    /// Converts the value into a class-list string; with `normalize` set,
    /// runs of spaces are collapsed and the ends trimmed.
    fn to_class_list(&self, normalize: bool) -> (r: String)
        requires
            self.can_render(),
        ensures
            self.renders_to(normalize, r@),
    ;
}

impl<T, F> ClassList for F where F: Fn() -> T, T: ClassList {
    open spec fn can_render(&self) -> bool {
        &&& self.requires(())
        &&& forall|t: T| #[trigger] self.ensures((), t) ==> t.can_render()
    }

    open spec fn renders_to(&self, normalize: bool, r: Seq<char>) -> bool {
        exists|t: T| #[trigger] self.ensures((), t) && t.renders_to(normalize, r)
    }

    fn to_class_list(&self, normalize: bool) -> (r: String) {
        let t = self();
        let r = t.to_class_list(normalize);
        assert(self.ensures((), t) && t.renders_to(normalize, r@));
        r
    }
}

impl<T, E> ClassList for Result<T, E> where T: ClassList {
    open spec fn can_render(&self) -> bool {
        match self {
            Ok(v) => v.can_render(),
            Err(_) => true,
        }
    }

    open spec fn renders_to(&self, normalize: bool, r: Seq<char>) -> bool {
        match self {
            Ok(v) => v.renders_to(normalize, r),
            Err(_) => r.len() == 0,
        }
    }

    fn to_class_list(&self, normalize: bool) -> (r: String) {
        if let Ok(value) = self {
            value.to_class_list(normalize)
        } else {
            String::new()
        }
    }
}

impl<T> ClassList for Option<T> where T: ClassList {
    open spec fn can_render(&self) -> bool {
        match self {
            Some(v) => v.can_render(),
            None => true,
        }
    }

    open spec fn renders_to(&self, normalize: bool, r: Seq<char>) -> bool {
        match self {
            Some(v) => v.renders_to(normalize, r),
            None => r.len() == 0,
        }
    }

    fn to_class_list(&self, normalize: bool) -> (r: String) {
        if let Some(value) = self {
            value.to_class_list(normalize)
        } else {
            String::new()
        }
    }
}

impl ClassList for String {
    open spec fn can_render(&self) -> bool {
        true
    }

    open spec fn renders_to(&self, normalize: bool, r: Seq<char>) -> bool {
        r == rendered(self@, normalize)
    }

    fn to_class_list(&self, normalize: bool) -> (r: String) {
        if normalize {
            normalize_class_list_string(self.clone())
        } else {
            self.clone()
        }
    }
}

impl ClassList for &str {
    open spec fn can_render(&self) -> bool {
        true
    }

    open spec fn renders_to(&self, normalize: bool, r: Seq<char>) -> bool {
        r == rendered(self@, normalize)
    }

    fn to_class_list(&self, normalize: bool) -> (r: String) {
        if normalize {
            normalize_class_list_string(String::from_str(self))
        } else {
            String::from_str(self)
        }
    }
}

impl ClassList for str {
    open spec fn can_render(&self) -> bool {
        true
    }

    open spec fn renders_to(&self, normalize: bool, r: Seq<char>) -> bool {
        r == rendered(self@, normalize)
    }

    fn to_class_list(&self, normalize: bool) -> (r: String) {
        if normalize {
            normalize_class_list_string(String::from_str(self))
        } else {
            String::from_str(self)
        }
    }
}

} // verus!
