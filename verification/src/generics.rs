use vstd::prelude::*;
use crate::text::{chars_of, contains_char, find_char, find_in, rfind_char, rfind_in, string_of, sub_chars, trim, trim_chars};

verus! {

/// Whether `peel` can take the name apart: where both brackets occur, the
/// last `>` does not stand before the first `<` by more than one place.
pub open spec fn peelable(name: Seq<char>) -> bool {
    match (find_char(name, '<'), rfind_char(name, '>')) {
        (Some(i), Some(j)) => i <= j + 1,
        _ => true,
    }
}

/// The name and the generic arguments of a type name: the text before the
/// first `<`, trimmed, and the text from there to the last `>`; the whole
/// name and nothing where it has no such brackets.
pub open spec fn peel_spec(name: Seq<char>) -> (Seq<char>, Seq<char>) {
    match (find_char(name, '<'), rfind_char(name, '>')) {
        (Some(i), Some(j)) => (trim(name.take(i)), name.subrange(i, j + 1)),
        _ => (name, Seq::empty()),
    }
}

/// Peels the name off generic arguments.
///
/// ## Examples
///
/// `peel("Point<T>")` is `("Point", "<T>")`, and `peel("ConcreteType")` is
/// `("ConcreteType", "")`.
pub fn peel(name: &str) -> (res: (String, String))
    requires
        peelable(name@),
    ensures
        (res.0@, res.1@) == peel_spec(name@),
{
    let v = chars_of(name);
    match (find_in(&v, '<'), rfind_in(&v, '>')) {
        (Some(i), Some(j)) => {
            let head = sub_chars(&v, 0, i);
            let trimmed = trim_chars(&head);
            assert(head@ =~= name@.take(i as int));
            let args = sub_chars(&v, i, j + 1);
            (string_of(&trimmed), string_of(&args))
        },
        _ => (name.to_owned(), String::new()),
    }
}

/// Whether a type name has generic arguments.
pub fn contains_generic_arg(name: &str) -> (res: bool)
    ensures
        res == name@.contains('<'),
{
    contains_char(name, '<')
}

/// Whether `extract_args_str` can take the arguments out of the name: it has
/// a `<`, a `>`, and the last `>` does not stand before the first `<`.
pub open spec fn has_generic_brackets(name: Seq<char>) -> bool {
    match (find_char(name, '<'), rfind_char(name, '>')) {
        (Some(i), Some(j)) => i < j + 1 && i + 1 <= j,
        _ => false,
    }
}

/// The text between the first `<` and the last `>` of a type name.
pub open spec fn args_str_spec(name: Seq<char>) -> Seq<char> {
    name.subrange(find_char(name, '<').unwrap() + 1, rfind_char(name, '>').unwrap())
}

/// The generic arguments of a type name, without their brackets.
pub fn extract_args_str(name: &str) -> (res: String)
    requires
        has_generic_brackets(name@),
    ensures
        res@ == args_str_spec(name@),
{
    let v = chars_of(name);
    let i = find_in(&v, '<').unwrap();
    let j = rfind_in(&v, '>').unwrap();
    let inner = sub_chars(&v, i + 1, j);
    string_of(&inner)
}

} // verus!
