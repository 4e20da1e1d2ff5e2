//! Which parts of an extra guide document are merged into the published one.

use vstd::prelude::*;

verus! {

/// The elements that are copied from an extra guide document.
pub open spec fn kept_element(name: Seq<char>) -> bool {
    name == "channel"@ || name == "display-name"@ || name == "desc"@ || name == "title"@
        || name == "sub-title"@ || name == "programme"@
}

/// Whether an element of the extra document is copied: it is one of the
/// kept elements, and if it is a `title`, it has no `lang` attribute other
/// than `chi`.
pub open spec fn kept_start(name: Seq<char>, attrs: Seq<(Seq<char>, Seq<char>)>) -> bool {
    kept_element(name) && (name != "title"@ || forall|i: int|
        0 <= i < attrs.len() ==> !((#[trigger] attrs[i]).0 == "lang"@ && attrs[i].1 != "chi"@))
}

/// Whether a closing tag named `name` is copied.
pub fn xmltv_keeps_element(name: &str) -> (r: bool)
    ensures
        r == kept_element(name@),
{
    let n = name.to_owned();
    n == "channel".to_owned() || n == "display-name".to_owned() || n == "desc".to_owned()
        || n == "title".to_owned() || n == "sub-title".to_owned() || n == "programme".to_owned()
}

/// Whether an opening tag named `name` with the attributes `attrs` is copied.
pub fn xmltv_keeps_start(name: &str, attrs: &Vec<(String, String)>) -> (r: bool)
    ensures
        r == kept_start(name@, attrs@.map_values(|a: (String, String)| (a.0@, a.1@))),
{
    let ghost av = attrs@.map_values(|a: (String, String)| (a.0@, a.1@));
    if !xmltv_keeps_element(name) {
        return false;
    }
    if !(name.to_owned() == "title".to_owned()) {
        return true;
    }
    let lang = "lang".to_owned();
    let chi = "chi".to_owned();
    let mut i: usize = 0;
    while i < attrs.len()
        invariant
            i <= attrs.len(),
            av == attrs@.map_values(|a: (String, String)| (a.0@, a.1@)),
            lang@ == "lang"@,
            name@ == "title"@,
            kept_element(name@),
            chi@ == "chi"@,
            forall|j: int| 0 <= j < i ==> !((#[trigger] av[j]).0 == "lang"@ && av[j].1 != "chi"@),
        decreases attrs.len() - i,
    {
        assert(av[i as int] == (attrs@[i as int].0@, attrs@[i as int].1@));
        if attrs[i].0 == lang && !(attrs[i].1 == chi) {
            assert(av[i as int].0 == "lang"@ && av[i as int].1 != "chi"@);
            return false;
        }
        i += 1;
    }
    true
}

} // verus!
