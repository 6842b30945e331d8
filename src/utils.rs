//! Space normalization of class-list strings.
use vstd::prelude::*;
use crate::traits::{ClassList, ClassToggle};
use vstd::std_specs::iter::IteratorSpec;
use vstd::string::StringExecFns;

verus! {

/// Folds a string left to right into the normalized text seen so far, and
/// whether a run of spaces followed some kept character and is still open.
///
/// Leading spaces are dropped; a run of spaces after a kept character is kept
/// as one space only once a non-space character follows it.
pub open spec fn norm_state(s: Seq<char>) -> (Seq<char>, bool)
    decreases s.len(),
{
    if s.len() == 0 {
        (Seq::empty(), false)
    } else {
        let (o, pending) = norm_state(s.drop_last());
        let c = s.last();
        if c == ' ' {
            (o, o.len() > 0)
        } else if pending {
            (o.push(' ').push(c), false)
        } else {
            (o.push(c), false)
        }
    }
}

/// The normalized form of `s`: every run of spaces collapsed to one space,
/// and leading and trailing spaces removed. Other characters are kept as
/// they are.
pub open spec fn normalize(s: Seq<char>) -> Seq<char> {
    norm_state(s).0
}

/// `t` starts and ends with no space and holds no two spaces in a row.
pub open spec fn is_normalized(t: Seq<char>) -> bool {
    &&& t.len() > 0 ==> t[0] != ' ' && t.last() != ' '
    &&& forall|i: int| 0 <= i < t.len() - 1 ==> !(#[trigger] t[i] == ' ' && t[i + 1] == ' ')
}

proof fn lemma_norm_state_shape(s: Seq<char>)
    ensures
        is_normalized(norm_state(s).0),
        norm_state(s).1 ==> norm_state(s).0.len() > 0,
    decreases s.len(),
{
    if s.len() > 0 {
        lemma_norm_state_shape(s.drop_last());
        let (o, pending) = norm_state(s.drop_last());
        let c = s.last();
        if c != ' ' {
            let t = norm_state(s).0;
            assert forall|i: int| 0 <= i < t.len() - 1 implies !(#[trigger] t[i] == ' ' && t[i + 1]
                == ' ') by {
                if i < o.len() - 1 {
                    assert(t[i] == o[i] && t[i + 1] == o[i + 1]);
                }
            }
        }
    }
}

/// On a string with no leading space and no two spaces in a row, the fold
/// keeps everything but a trailing space, which it holds as pending.
proof fn lemma_norm_state_of_normal_prefix(t: Seq<char>)
    requires
        t.len() > 0 ==> t[0] != ' ',
        forall|i: int| 0 <= i < t.len() - 1 ==> !(#[trigger] t[i] == ' ' && t[i + 1] == ' '),
    ensures
        t.len() > 0 && t.last() == ' ' ==> norm_state(t) == (t.drop_last(), true),
        t.len() == 0 || t.last() != ' ' ==> norm_state(t) == (t, false),
    decreases t.len(),
{
    if t.len() > 0 {
        let p = t.drop_last();
        assert forall|i: int| 0 <= i < p.len() - 1 implies !(#[trigger] p[i] == ' ' && p[i + 1]
            == ' ') by {
            assert(t[i] == p[i] && t[i + 1] == p[i + 1]);
        }
        lemma_norm_state_of_normal_prefix(p);
        if t.last() == ' ' && p.len() > 0 {
            assert(t[p.len() - 1] == p.last());
        }
        if p.len() > 0 && p.last() == ' ' {
            assert(t[p.len() - 1] == p.last());
            assert(p.drop_last().push(' ').push(t.last()) =~= t);
        } else {
            assert(p.push(t.last()) =~= t);
        }
    }
}

/// The result of normalization is normalized.
pub proof fn lemma_normalize_is_normalized(s: Seq<char>)
    ensures
        is_normalized(normalize(s)),
{
    lemma_norm_state_shape(s);
}

/// A normalized string is left unchanged by normalization.
pub proof fn lemma_normalize_fixes_normalized(t: Seq<char>)
    requires
        is_normalized(t),
    ensures
        normalize(t) == t,
{
    lemma_norm_state_of_normal_prefix(t);
}

/// Normalizing twice gives the same string as normalizing once.
pub proof fn lemma_normalize_idempotent(s: Seq<char>)
    ensures
        normalize(normalize(s)) == normalize(s),
{
    lemma_normalize_is_normalized(s);
    lemma_normalize_fixes_normalized(normalize(s));
}

/// Relies on `String::push`: appends one character at the end.
#[verifier::external_body]
pub(crate) fn push_char(s: &mut String, c: char)
    ensures
        final(s)@ == old(s)@.push(c),
{
    s.push(c)
}

/// Normalizes the spaces of `class_string` in one pass over its characters.
///
/// `" class   list "` becomes `"class list"`. Only the space character
/// U+0020 is collapsed and trimmed; tabs and newlines are kept.
pub fn normalize_class_list_string(class_string: String) -> (r: String)
    ensures
        r@ == normalize(class_string@),
{
    broadcast use vstd::string::group_string_axioms;

    let ghost s = class_string@;
    let mut result = String::new();
    let mut pending = false;
    let mut started = false;
    let mut chars = class_string.as_str().chars();
    let ghost mut i: int = 0;
    loop
        invariant
            0 <= i <= s.len(),
            chars.obeys_prophetic_iter_laws(),
            chars.remaining() == s.subrange(i, s.len() as int),
            (result@, pending) == norm_state(s.subrange(0, i)),
            started == (result@.len() > 0),
        ensures
            result@ == normalize(s),
        decreases s.len() - i,
    {
        let next = chars.next();
        match next {
            None => {
                assert(s.subrange(0, i) =~= s);
                break;
            },
            Some(c) => {
                proof {
                    assert(s.subrange(0, i + 1).drop_last() =~= s.subrange(0, i));
                    assert(s.subrange(i + 1, s.len() as int) =~= s.subrange(
                        i,
                        s.len() as int,
                    ).drop_first());
                }
                if c == ' ' {
                    pending = started;
                } else {
                    if pending {
                        push_char(&mut result, ' ');
                    }
                    push_char(&mut result, c);
                    pending = false;
                    started = true;
                }
                proof {
                    i = i + 1;
                }
            },
        }
    }
    result
}

/// The parts joined in order, with one space between each two.
pub open spec fn join_spaced(parts: Seq<Seq<char>>) -> Seq<char>
    decreases parts.len(),
{
    if parts.len() == 0 {
        Seq::empty()
    } else if parts.len() == 1 {
        parts[0]
    } else {
        join_spaced(parts.drop_last()) + seq![' '] + parts.last()
    }
}

/// The class list that the contributions of a list of entries make: joined
/// with spaces, in order, then normalized once.
pub open spec fn class_list_text(parts: Seq<Seq<char>>) -> Seq<char> {
    normalize(join_spaced(parts))
}

/// What one entry adds to the class list: its rendered value when its toggle
/// is on, else nothing.
pub open spec fn contribution(value: Seq<char>, on: bool) -> Seq<char> {
    if on {
        value
    } else {
        Seq::empty()
    }
}

/// Joins the contributions of the entries with single spaces, in order, and
/// normalizes the result once.
pub fn join_class_list(parts: Vec<String>) -> (r: String)
    ensures
        r@ == class_list_text(parts@.map_values(|p: String| p@)),
{
    let ghost views = parts@.map_values(|p: String| p@);
    let mut joined = String::new();
    let mut i: usize = 0;
    while i < parts.len()
        invariant
            i <= parts@.len(),
            views == parts@.map_values(|p: String| p@),
            joined@ == join_spaced(views.subrange(0, i as int)),
        decreases parts@.len() - i,
    {
        assert(views.subrange(0, i + 1).drop_last() =~= views.subrange(0, i as int));
        if i > 0 {
            joined.append(" ");
            proof {
                reveal_strlit(" ");
            }
        }
        joined.append(parts[i].as_str());
        i = i + 1;
    }
    assert(views.subrange(0, i as int) =~= views);
    normalize_class_list_string(joined)
}

/// Renders `value` without normalizing it when `toggle` is truthy, and gives
/// the empty string when it is not.
pub fn toggled_class<V: ClassList + ?Sized, G: ClassToggle + ?Sized>(value: &V, toggle: &G) -> (r:
    String)
    requires
        value.can_render(),
        toggle.can_toggle(),
    ensures
        exists|on: bool|
            #[trigger] toggle.toggles_to(on) && if on {
                value.renders_to(false, r@)
            } else {
                r@ == Seq::<char>::empty()
            },
{
    let on = toggle.to_class_toggle();
    if on {
        value.to_class_list(false)
    } else {
        String::new()
    }
}

/// Entries come out in the order they were given: three contributions give
/// the first, a space, the second, a space and the third, normalized.
pub proof fn lemma_entry_order(a: Seq<char>, b: Seq<char>, c: Seq<char>)
    ensures
        class_list_text(seq![a, b, c]) == normalize(a + seq![' '] + b + seq![' '] + c),
{
    assert(seq![a].push(b) =~= seq![a, b]);
    assert(seq![a, b].push(c) =~= seq![a, b, c]);
    lemma_join_push(seq![a], b);
    lemma_join_push(seq![a, b], c);
    assert(join_spaced(seq![a]) == a);
}

/// Appending one contribution to a non-empty list adds a space and that
/// contribution at the end of the joined text.
pub proof fn lemma_join_push(parts: Seq<Seq<char>>, p: Seq<char>)
    requires
        parts.len() > 0,
    ensures
        join_spaced(parts.push(p)) == join_spaced(parts) + seq![' '] + p,
{
    assert(parts.push(p).drop_last() =~= parts);
}

/// An entry whose toggle is falsy contributes nothing, whatever its value
/// renders to.
pub proof fn lemma_falsy_toggle_contributes_nothing(value: Seq<char>)
    ensures
        contribution(value, false) == Seq::<char>::empty(),
{
}

} // verus!
