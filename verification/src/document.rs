//! Parsed HTML documents, and what is read out of them.
//!
//! Parsing and selecting are the `scraper` crate's. A document is carried
//! through the library as it is; the library reads of it the values of one
//! attribute on the elements that a selector picks.
use crate::text::texts;
use vstd::prelude::*;

verus! {

broadcast use vstd::string::group_string_axioms;

#[verifier::external_type_specification]
#[verifier::external_body]
pub struct ExHtml(scraper::Html);

/// What selecting in a document gives: for each element that the selector
/// picks, in the order in which `scraper::Html::select` hands them out, the
/// value of the attribute, where the element has it. Nothing where the text is
/// no selector.
pub uninterp spec fn selected_attr(
    html: scraper::Html,
    selector: Seq<char>,
    attr: Seq<char>,
) -> Option<Seq<Option<Seq<char>>>>;

/// The texts of a sequence of strings that may be missing.
pub open spec fn optional_texts(s: Seq<Option<String>>) -> Seq<Option<Seq<char>>> {
    s.map_values(
        |t: Option<String>|
            match t {
                Some(v) => Some(v@),
                None => None,
            },
    )
}

/// The items that are there, in their order.
pub open spec fn present(s: Seq<Option<Seq<char>>>) -> Seq<Seq<char>>
    decreases s.len(),
{
    if s.len() == 0 {
        Seq::empty()
    } else {
        match s.last() {
            Some(v) => present(s.drop_last()).push(v),
            None => present(s.drop_last()),
        }
    }
}

/// The values of an attribute on the elements that a selector picks, in the
/// order of the elements. Elements without the attribute give nothing, and
/// neither does a text that is no selector.
pub open spec fn attribute_values_of(html: scraper::Html, selector: Seq<char>, attr: Seq<char>) -> Seq<
    Seq<char>,
> {
    match selected_attr(html, selector, attr) {
        Some(found) => present(found),
        None => Seq::empty(),
    }
}

/// The document that `scraper::Html::parse_document` makes of a text.
pub uninterp spec fn parsed_document(text: Seq<char>) -> scraper::Html;

/// Calls `scraper::Html::parse_document`.
///
/// Trusted: the document is a function of the text alone, named
/// `parsed_document`. Nothing is claimed of what it holds.
#[verifier::external_body]
pub(crate) fn parse_document(text: &str) -> (html: scraper::Html)
    ensures
        html == parsed_document(text@),
{
    scraper::Html::parse_document(text)
}

/// Calls `scraper::Selector::parse` and `scraper::Html::select`, and reads the
/// attribute of each element with `scraper::node::Element::attr`.
///
/// Trusted: the answer is a function of the document and the two texts
/// alone, named `selected_attr`.
#[verifier::external_body]
fn select_attr(html: &scraper::Html, selector: &str, attr: &str) -> (found: Option<
    Vec<Option<String>>,
>)
    ensures
        match found {
            Some(list) => selected_attr(*html, selector@, attr@) == Some(optional_texts(list@)),
            None => selected_attr(*html, selector@, attr@) is None,
        },
{
    match scraper::Selector::parse(selector) {
        Ok(s) => Some(html.select(&s).map(|e| e.value().attr(attr).map(|v| v.to_string())).collect()),
        Err(_) => None,
    }
}

/// Reads the values of an attribute on the elements that a selector picks.
pub fn attribute_values(html: &scraper::Html, selector: &str, attr: &str) -> (values: Vec<String>)
    ensures
        texts(values@) == attribute_values_of(*html, selector@, attr@),
{
    let mut values: Vec<String> = Vec::new();
    match select_attr(html, selector, attr) {
        None => {
            assert(texts(values@) =~= Seq::<Seq<char>>::empty());
        },
        Some(list) => {
            let ghost all = optional_texts(list@);
            let mut i: usize = 0;
            assert(all.take(0) =~= Seq::<Option<Seq<char>>>::empty());
            assert(texts(values@) =~= Seq::<Seq<char>>::empty());
            while i < list.len()
                invariant
                    i <= list.len(),
                    all == optional_texts(list@),
                    texts(values@) == present(all.take(i as int)),
                decreases list.len() - i,
            {
                let ghost before = texts(values@);
                assert(all.take(i as int + 1).drop_last() =~= all.take(i as int));
                assert(all.take(i as int + 1).last() == all[i as int]);
                match &list[i] {
                    Some(v) => {
                        values.push(v.clone());
                        assert(texts(values@) =~= before.push(v@));
                    },
                    None => {},
                }
                i += 1;
            }
            assert(all.take(list.len() as int) =~= all);
        },
    }
    values
}

} // verus!
