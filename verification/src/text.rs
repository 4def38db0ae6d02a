//! Lists of strings, seen as sequences of texts.
use vstd::prelude::*;

verus! {

broadcast use vstd::string::group_string_axioms;

/// The texts of a sequence of strings.
pub open spec fn texts(s: Seq<String>) -> Seq<Seq<char>> {
    s.map_values(|t: String| t@)
}

/// The texts of a sequence of string slices.
pub open spec fn slice_texts(s: Seq<&str>) -> Seq<Seq<char>> {
    s.map_values(|t: &str| t@)
}

/// The texts of a sequence of pairs of strings.
pub open spec fn pair_texts(s: Seq<(String, String)>) -> Seq<(Seq<char>, Seq<char>)> {
    s.map_values(|p: (String, String)| (p.0@, p.1@))
}

/// Copies string slices into owned strings, one for one.
pub fn owned(items: &[&str]) -> (out: Vec<String>)
    ensures
        texts(out@) == slice_texts(items@),
{
    let mut out: Vec<String> = Vec::new();
    let mut i: usize = 0;
    while i < items.len()
        invariant
            i <= items.len(),
            out.len() == i,
            forall|k: int| 0 <= k < i ==> (#[trigger] out@[k])@ == items@[k]@,
        decreases items.len() - i,
    {
        out.push(items[i].to_string());
        i += 1;
    }
    assert(texts(out@) =~= slice_texts(items@));
    out
}

/// The first place in `list` of a string with the text of `item`.
pub fn position(list: &Vec<String>, item: &String) -> (at: Option<usize>)
    ensures
        match at {
            Some(i) => i < list.len() && list@[i as int]@ == item@ && forall|k: int|
                0 <= k < i ==> texts(list@)[k] != item@,
            None => !texts(list@).contains(item@),
        },
{
    let mut i: usize = 0;
    while i < list.len()
        invariant
            i <= list.len(),
            forall|k: int| 0 <= k < i ==> texts(list@)[k] != item@,
        decreases list.len() - i,
    {
        if list[i] == *item {
            return Some(i);
        }
        assert(texts(list@)[i as int] == list@[i as int]@);
        i += 1;
    }
    None
}

/// Whether `list` holds a string with the text of `item`.
pub fn holds(list: &Vec<String>, item: &String) -> (found: bool)
    ensures
        found == texts(list@).contains(item@),
{
    match position(list, item) {
        Some(i) => {
            assert(texts(list@)[i as int] == item@);
            true
        },
        None => false,
    }
}

} // verus!
