//! What a page shows: elements picked by CSS selectors, their attributes and their text.
//!
//! An element is known by its place among the nodes of the document, in the order in which the
//! parser made them.
use crate::error::{Error, ErrorView};
use crate::text::{join, joined, lemma_push_step, view_opt, views};
use scraper::{ElementRef, Html, Selector};
use vstd::prelude::*;

verus! {

// ---------------------------------------------------------------------------
// The parser and the selectors of `scraper`
// ---------------------------------------------------------------------------

/// A parsed document.
#[verifier::external_type_specification]
#[verifier::external_body]
pub struct ExHtml(scraper::Html);

/// The nodes of a document in the order in which the parser made them. Of each: whether it is an
/// element, and a description of all that it holds and of its place in the tree; that of the root
/// includes the quirks mode.
pub uninterp spec fn nodes_of(doc: scraper::Html) -> Seq<(bool, Seq<char>)>;

/// The nodes that `scraper::Html::parse_document` makes of a text.
pub uninterp spec fn parsed_nodes(body: Seq<char>) -> Seq<(bool, Seq<char>)>;

/// Whether `scraper::Selector::parse` accepts a text.
pub uninterp spec fn is_selector(selector: Seq<char>) -> bool;

/// The elements of a document that match a selector, as `scraper::Html::select` finds them.
pub uninterp spec fn selected(nodes: Seq<(bool, Seq<char>)>, selector: Seq<char>) -> Seq<usize>;

/// The elements inside an element that match a selector, as `scraper::ElementRef::select` finds
/// them.
pub uninterp spec fn selected_in(
    nodes: Seq<(bool, Seq<char>)>,
    node: usize,
    selector: Seq<char>,
) -> Seq<usize>;

/// The markup inside an element, as `scraper::ElementRef::inner_html` writes it.
pub uninterp spec fn markup(nodes: Seq<(bool, Seq<char>)>, node: usize) -> Seq<char>;

/// The pieces of text inside an element, as `scraper::ElementRef::text` finds them.
pub uninterp spec fn pieces(nodes: Seq<(bool, Seq<char>)>, node: usize) -> Seq<Seq<char>>;

/// The value of an attribute of an element, as `scraper::node::Element::attr` finds it.
pub uninterp spec fn attribute(
    nodes: Seq<(bool, Seq<char>)>,
    node: usize,
    name: Seq<char>,
) -> Option<Seq<char>>;

/// The text of the last child of an element, if that child is a text, as `ego_tree` and `scraper`
/// give it by `last_child` and `as_text`.
pub uninterp spec fn closing_text(nodes: Seq<(bool, Seq<char>)>, node: usize) -> Option<Seq<char>>;

/// Whether there is an element at this place.
pub open spec fn is_element(nodes: Seq<(bool, Seq<char>)>, node: usize) -> bool {
    node < nodes.len() && nodes[node as int].0
}

/// Whether there is an element at each of these places.
pub open spec fn are_elements(nodes: Seq<(bool, Seq<char>)>, list: Seq<usize>) -> bool {
    forall|i: int| 0 <= i < list.len() ==> is_element(nodes, #[trigger] list[i])
}

/// The most bytes of a page that are parsed. The parser's buffers double in size as they grow, up to
/// two to the power of 31 bytes, and one byte of a page can become three in them. Some larger pages
/// would fit too; none is tried.
pub const LARGEST_PAGE: usize = 0x2AAA_AAAA;

/// `scraper::Html::parse_document`. The nodes of the document depend on the text alone. It accepts
/// every text; the limit on its length keeps the parser's buffers from overflowing.
#[verifier::external_body]
pub(crate) fn parse_document(body: &str) -> (doc: Html)
    requires
        body.len() <= LARGEST_PAGE,
    ensures
        nodes_of(doc) == parsed_nodes(body@),
{
    Html::parse_document(body)
}

/// What reading a page of so many bytes gives, where reading one that is not too large gives
/// `result`.
pub open spec fn if_it_fits<T>(length: usize, result: Result<T, ErrorView>) -> Result<
    T,
    ErrorView,
> {
    if length <= LARGEST_PAGE {
        result
    } else {
        Err(ErrorView::PageTooLarge(length))
    }
}

/// `scraper::Selector::parse`: whether it accepts the text. That depends on the text alone.
#[verifier::external_body]
pub(crate) fn accepts_selector(selector: &str) -> (accepted: bool)
    ensures
        accepted == is_selector(selector@),
{
    Selector::parse(selector).is_ok()
}

/// `scraper::Html::select`, with the places of the elements that it finds. They depend on the
/// nodes and on the selector alone, and there are elements at them.
#[verifier::external_body]
pub(crate) fn select_all(doc: &Html, selector: &str) -> (found: Vec<usize>)
    requires
        is_selector(selector@),
    ensures
        found@ == selected(nodes_of(*doc), selector@),
        are_elements(nodes_of(*doc), found@),
{
    let selector = Selector::parse(selector).unwrap();
    let place = |element: ElementRef| {
        doc.tree.nodes().position(|node| node.id() == element.id()).unwrap()
    };
    doc.select(&selector).map(place).collect()
}

/// `scraper::ElementRef::select`, with the places of the elements that it finds. They depend on
/// the nodes, the element and the selector alone, and there are elements at them.
#[verifier::external_body]
pub(crate) fn select_in(doc: &Html, node: usize, selector: &str) -> (found: Vec<usize>)
    requires
        is_element(nodes_of(*doc), node),
        is_selector(selector@),
    ensures
        found@ == selected_in(nodes_of(*doc), node, selector@),
        are_elements(nodes_of(*doc), found@),
{
    let selector = Selector::parse(selector).unwrap();
    let element = ElementRef::wrap(doc.tree.nodes().nth(node).unwrap()).unwrap();
    let place = |element: ElementRef| {
        doc.tree.nodes().position(|node| node.id() == element.id()).unwrap()
    };
    element.select(&selector).map(place).collect()
}

/// `scraper::ElementRef::inner_html`. The markup depends on the nodes and on the element alone.
#[verifier::external_body]
pub(crate) fn inner_html(doc: &Html, node: usize) -> (html: String)
    requires
        is_element(nodes_of(*doc), node),
    ensures
        html@ == markup(nodes_of(*doc), node),
{
    let element = ElementRef::wrap(doc.tree.nodes().nth(node).unwrap()).unwrap();
    element.inner_html()
}

/// `scraper::ElementRef::text`. The pieces depend on the nodes and on the element alone.
#[verifier::external_body]
pub(crate) fn text(doc: &Html, node: usize) -> (list: Vec<String>)
    requires
        is_element(nodes_of(*doc), node),
    ensures
        views(list@) == pieces(nodes_of(*doc), node),
{
    let element = ElementRef::wrap(doc.tree.nodes().nth(node).unwrap()).unwrap();
    element.text().map(|piece| piece.to_string()).collect()
}

/// `scraper::node::Element::attr`. The value depends on the nodes, the element and the name alone.
#[verifier::external_body]
pub(crate) fn attr(doc: &Html, node: usize, name: &str) -> (value: Option<String>)
    requires
        is_element(nodes_of(*doc), node),
    ensures
        view_opt(value) == attribute(nodes_of(*doc), node, name@),
{
    let element = ElementRef::wrap(doc.tree.nodes().nth(node).unwrap()).unwrap();
    element.value().attr(name).map(|value| value.to_string())
}

/// `ego_tree::NodeRef::last_child` and `scraper::Node::as_text`. The text depends on the nodes and
/// on the element alone.
#[verifier::external_body]
pub(crate) fn last_child_text(doc: &Html, node: usize) -> (text: Option<String>)
    requires
        is_element(nodes_of(*doc), node),
    ensures
        view_opt(text) == closing_text(nodes_of(*doc), node),
{
    let element = ElementRef::wrap(doc.tree.nodes().nth(node).unwrap()).unwrap();
    let child = element.last_child()?;
    child.value().as_text().map(|text| text.to_string())
}

// ---------------------------------------------------------------------------
// What the readers of pages ask for
// ---------------------------------------------------------------------------

/// The first of some texts that is no selector.
pub open spec fn bad_selector(selectors: Seq<Seq<char>>) -> Option<Seq<char>>
    decreases selectors.len(),
{
    if selectors.len() == 0 {
        None
    } else if !is_selector(selectors[0]) {
        Some(selectors[0])
    } else {
        bad_selector(selectors.subrange(1, selectors.len() as int))
    }
}

/// What holds where no text of some is no selector.
pub proof fn lemma_all_selectors(selectors: Seq<Seq<char>>)
    requires
        bad_selector(selectors) is None,
    ensures
        forall|i: int| 0 <= i < selectors.len() ==> is_selector(#[trigger] selectors[i]),
    decreases selectors.len(),
{
    if selectors.len() > 0 {
        let rest = selectors.subrange(1, selectors.len() as int);
        lemma_all_selectors(rest);
        assert forall|i: int| 0 <= i < selectors.len() implies is_selector(
            #[trigger] selectors[i],
        ) by {
            if i > 0 {
                assert(rest[i - 1] == selectors[i]);
            }
        }
    }
}

/// Passes if all the texts are selectors, and else fails with the first that is none.
pub fn check_selectors(selectors: &[&str]) -> (result: Result<(), Error>)
    ensures
        match bad_selector(views(selectors@)) {
            None => result is Ok,
            Some(bad) => result is Err && result->Err_0@ == ErrorView::Selector(bad),
        },
{
    let mut i: usize = 0;
    assert(views(selectors@).subrange(0, selectors@.len() as int) =~= views(selectors@));
    while i < selectors.len()
        invariant
            i <= selectors@.len(),
            bad_selector(views(selectors@)) == bad_selector(
                views(selectors@).subrange(i as int, selectors@.len() as int),
            ),
        decreases selectors@.len() - i,
    {
        let ghost rest = views(selectors@).subrange(i as int, selectors@.len() as int);
        assert(rest[0] == selectors@[i as int]@);
        assert(rest.subrange(1, rest.len() as int) =~= views(selectors@).subrange(
            i + 1,
            selectors@.len() as int,
        ));
        if !accepts_selector(selectors[i]) {
            return Err(Error::Selector(selectors[i].to_owned()));
        }
        i += 1;
    }
    Ok(())
}

/// The elements that match a selector, in the whole document or inside one element.
pub open spec fn found(
    nodes: Seq<(bool, Seq<char>)>,
    scope: Option<usize>,
    selector: Seq<char>,
) -> Seq<usize> {
    match scope {
        None => selected(nodes, selector),
        Some(node) => selected_in(nodes, node, selector),
    }
}

/// Whether elements can be looked for there: in the whole document, or inside an element.
pub open spec fn is_scope(nodes: Seq<(bool, Seq<char>)>, scope: Option<usize>) -> bool {
    match scope {
        None => true,
        Some(node) => is_element(nodes, node),
    }
}

/// Finds the elements that match a selector.
pub(crate) fn select(doc: &Html, scope: Option<usize>, selector: &str) -> (list: Vec<usize>)
    requires
        is_scope(nodes_of(*doc), scope),
        is_selector(selector@),
    ensures
        list@ == found(nodes_of(*doc), scope, selector@),
        are_elements(nodes_of(*doc), list@),
{
    match scope {
        None => select_all(doc, selector),
        Some(node) => select_in(doc, node, selector),
    }
}

/// The markup inside each of some elements.
pub open spec fn markups(nodes: Seq<(bool, Seq<char>)>, list: Seq<usize>) -> Seq<Seq<char>> {
    list.map_values(|node: usize| markup(nodes, node))
}

/// Reads the markup inside each element that matches a selector.
pub(crate) fn inner_htmls(doc: &Html, scope: Option<usize>, selector: &str) -> (list: Vec<String>)
    requires
        is_scope(nodes_of(*doc), scope),
        is_selector(selector@),
    ensures
        views(list@) == markups(nodes_of(*doc), found(nodes_of(*doc), scope, selector@)),
{
    let matching = select(doc, scope, selector);
    let ghost all = markups(nodes_of(*doc), matching@);
    let mut list: Vec<String> = Vec::new();
    let mut i: usize = 0;
    assert(views(list@) =~= all.take(0));
    while i < matching.len()
        invariant
            i <= matching@.len(),
            are_elements(nodes_of(*doc), matching@),
            all == markups(nodes_of(*doc), matching@),
            views(list@) == all.take(i as int),
        decreases matching@.len() - i,
    {
        assert(is_element(nodes_of(*doc), matching@[i as int]));
        let html = inner_html(doc, matching[i]);
        proof {
            lemma_push_step(list@, html, all, i as int);
        }
        list.push(html);
        i += 1;
    }
    assert(all.take(i as int) =~= all);
    list
}

/// The first of some elements.
pub open spec fn first(list: Seq<usize>) -> Option<usize> {
    if list.len() == 0 {
        None
    } else {
        Some(list[0])
    }
}

/// The markup inside the first of some elements.
pub open spec fn first_markup(nodes: Seq<(bool, Seq<char>)>, list: Seq<usize>) -> Option<Seq<char>> {
    match first(list) {
        None => None,
        Some(node) => Some(markup(nodes, node)),
    }
}

/// Reads the markup inside the first element that matches a selector.
pub(crate) fn first_inner_html(doc: &Html, scope: Option<usize>, selector: &str) -> (html: Option<
    String,
>)
    requires
        is_scope(nodes_of(*doc), scope),
        is_selector(selector@),
    ensures
        view_opt(html) == first_markup(
            nodes_of(*doc),
            found(nodes_of(*doc), scope, selector@),
        ),
{
    let matching = select(doc, scope, selector);
    if matching.len() == 0 {
        return None;
    }
    assert(is_element(nodes_of(*doc), matching@[0]));
    Some(inner_html(doc, matching[0]))
}

/// An attribute of the first of some elements.
pub open spec fn first_attribute(
    nodes: Seq<(bool, Seq<char>)>,
    list: Seq<usize>,
    name: Seq<char>,
) -> Option<Seq<char>> {
    match first(list) {
        None => None,
        Some(node) => attribute(nodes, node, name),
    }
}

/// Reads an attribute of the first element that matches a selector.
pub(crate) fn first_attr(doc: &Html, scope: Option<usize>, selector: &str, name: &str) -> (value:
    Option<String>)
    requires
        is_scope(nodes_of(*doc), scope),
        is_selector(selector@),
    ensures
        view_opt(value) == first_attribute(
            nodes_of(*doc),
            found(nodes_of(*doc), scope, selector@),
            name@,
        ),
{
    let matching = select(doc, scope, selector);
    if matching.len() == 0 {
        return None;
    }
    assert(is_element(nodes_of(*doc), matching@[0]));
    attr(doc, matching[0], name)
}

/// An attribute of each of some elements.
pub open spec fn attributes(
    nodes: Seq<(bool, Seq<char>)>,
    list: Seq<usize>,
    name: Seq<char>,
) -> Seq<Option<Seq<char>>> {
    list.map_values(|node: usize| attribute(nodes, node, name))
}

/// A list of optional values with the texts as sequences of characters.
pub open spec fn option_views(list: Seq<Option<String>>) -> Seq<Option<Seq<char>>> {
    list.map_values(|value: Option<String>| view_opt(value))
}

/// Reads an attribute of each element that matches a selector.
pub(crate) fn attrs(doc: &Html, scope: Option<usize>, selector: &str, name: &str) -> (list: Vec<
    Option<String>,
>)
    requires
        is_scope(nodes_of(*doc), scope),
        is_selector(selector@),
    ensures
        option_views(list@) == attributes(
            nodes_of(*doc),
            found(nodes_of(*doc), scope, selector@),
            name@,
        ),
{
    let matching = select(doc, scope, selector);
    let mut list: Vec<Option<String>> = Vec::new();
    let mut i: usize = 0;
    while i < matching.len()
        invariant
            i <= matching@.len(),
            are_elements(nodes_of(*doc), matching@),
            option_views(list@) == attributes(nodes_of(*doc), matching@.take(i as int), name@),
        decreases matching@.len() - i,
    {
        assert(is_element(nodes_of(*doc), matching@[i as int]));
        let ghost before = attributes(nodes_of(*doc), matching@.take(i as int), name@);
        let ghost next = attribute(nodes_of(*doc), matching@[i as int], name@);
        let value = attr(doc, matching[i], name);
        list.push(value);
        i += 1;
        assert(option_views(list@) =~= before.push(next));
        assert(attributes(nodes_of(*doc), matching@.take(i as int), name@) =~= before.push(next));
    }
    assert(matching@.take(i as int) =~= matching@);
    list
}

/// The pieces of text inside some elements, one element after the other.
pub open spec fn all_pieces(nodes: Seq<(bool, Seq<char>)>, list: Seq<usize>) -> Seq<Seq<char>>
    decreases list.len(),
{
    if list.len() == 0 {
        Seq::empty()
    } else {
        all_pieces(nodes, list.drop_last()) + pieces(nodes, list.last())
    }
}

/// Reads the pieces of text inside the elements that match a selector.
pub(crate) fn texts(doc: &Html, scope: Option<usize>, selector: &str) -> (list: Vec<String>)
    requires
        is_scope(nodes_of(*doc), scope),
        is_selector(selector@),
    ensures
        views(list@) == all_pieces(nodes_of(*doc), found(nodes_of(*doc), scope, selector@)),
{
    let matching = select(doc, scope, selector);
    let mut list: Vec<String> = Vec::new();
    let mut i: usize = 0;
    while i < matching.len()
        invariant
            i <= matching@.len(),
            are_elements(nodes_of(*doc), matching@),
            views(list@) == all_pieces(nodes_of(*doc), matching@.take(i as int)),
        decreases matching@.len() - i,
    {
        assert(is_element(nodes_of(*doc), matching@[i as int]));
        let ghost before = list@;
        let mut more = text(doc, matching[i]);
        let ghost added = more@;
        list.append(&mut more);
        i += 1;
        assert(views(list@) =~= views(before) + views(added));
        assert(matching@.take(i as int).drop_last() =~= matching@.take(i - 1));
    }
    assert(matching@.take(i as int) =~= matching@);
    list
}

/// All the text inside some elements.
pub open spec fn whole_text(nodes: Seq<(bool, Seq<char>)>, list: Seq<usize>) -> Seq<char> {
    joined(all_pieces(nodes, list), ""@)
}

/// Reads all the text inside the elements that match a selector.
pub(crate) fn whole_texts(doc: &Html, scope: Option<usize>, selector: &str) -> (text: String)
    requires
        is_scope(nodes_of(*doc), scope),
        is_selector(selector@),
    ensures
        text@ == whole_text(nodes_of(*doc), found(nodes_of(*doc), scope, selector@)),
{
    let list = texts(doc, scope, selector);
    join(&list, "")
}

/// All the text inside the first of some elements.
pub open spec fn first_text(nodes: Seq<(bool, Seq<char>)>, list: Seq<usize>) -> Option<Seq<char>> {
    match first(list) {
        None => None,
        Some(node) => Some(joined(pieces(nodes, node), ""@)),
    }
}

/// Reads all the text inside the first element that matches a selector.
pub(crate) fn first_whole_text(doc: &Html, scope: Option<usize>, selector: &str) -> (text: Option<
    String,
>)
    requires
        is_scope(nodes_of(*doc), scope),
        is_selector(selector@),
    ensures
        view_opt(text) == first_text(nodes_of(*doc), found(nodes_of(*doc), scope, selector@)),
{
    let matching = select(doc, scope, selector);
    if matching.len() == 0 {
        return None;
    }
    assert(is_element(nodes_of(*doc), matching@[0]));
    let list = text(doc, matching[0]);
    Some(join(&list, ""))
}

/// The selector that is reported is the first that cannot be parsed; none is where all can.
pub proof fn law_bad_selector(selectors: Seq<Seq<char>>)
    ensures
        match bad_selector(selectors) {
            Some(bad) => exists|i: int|
                {
                    &&& 0 <= i < selectors.len()
                    &&& #[trigger] selectors[i] == bad
                    &&& !is_selector(bad)
                    &&& forall|j: int| 0 <= j < i ==> is_selector(#[trigger] selectors[j])
                },
            None => forall|i: int|
                0 <= i < selectors.len() ==> is_selector(#[trigger] selectors[i]),
        },
    decreases selectors.len(),
{
    if selectors.len() > 0 && is_selector(selectors[0]) {
        let rest = selectors.subrange(1, selectors.len() as int);
        law_bad_selector(rest);
        match bad_selector(rest) {
            Some(bad) => {
                let k = choose|k: int|
                    {
                        &&& 0 <= k < rest.len()
                        &&& #[trigger] rest[k] == bad
                        &&& !is_selector(bad)
                        &&& forall|j: int| 0 <= j < k ==> is_selector(#[trigger] rest[j])
                    };
                assert(selectors[k + 1] == bad);
                assert forall|j: int| 0 <= j < k + 1 implies is_selector(#[trigger] selectors[j]) by {
                    if j > 0 {
                        assert(rest[j - 1] == selectors[j]);
                    }
                }
            },
            None => {
                assert forall|i: int| 0 <= i < selectors.len() implies is_selector(
                    #[trigger] selectors[i],
                ) by {
                    if i > 0 {
                        assert(rest[i - 1] == selectors[i]);
                    }
                }
            },
        }
    } else if selectors.len() > 0 {
        assert(selectors[0] == bad_selector(selectors)->0);
    }
}

/// A page is read unless it has more than 715827882 bytes; then the error names how many it has.
pub proof fn law_if_it_fits<T>(length: usize, result: Result<T, ErrorView>)
    ensures
        length <= 715827882 ==> if_it_fits(length, result) == result,
        length > 715827882 ==> if_it_fits(length, result) == Err::<T, ErrorView>(
            ErrorView::PageTooLarge(length),
        ),
{
}

/// What is looked for in the whole document is looked for in it all, and what is looked for in an
/// element inside that element.
pub proof fn law_found(nodes: Seq<(bool, Seq<char>)>, node: usize, selector: Seq<char>)
    ensures
        found(nodes, None, selector) == selected(nodes, selector),
        found(nodes, Some(node), selector) == selected_in(nodes, node, selector),
{
}

/// What is read of the first of some elements is that of the first, and nothing where there is none.
pub proof fn law_first(nodes: Seq<(bool, Seq<char>)>, list: Seq<usize>, name: Seq<char>)
    ensures
        list.len() == 0 ==> first(list) is None && first_markup(nodes, list) is None
            && first_attribute(nodes, list, name) is None && first_text(nodes, list) is None,
        list.len() > 0 ==> {
            &&& first(list) == Some(list[0])
            &&& first_markup(nodes, list) == Some(markup(nodes, list[0]))
            &&& first_attribute(nodes, list, name) == attribute(nodes, list[0], name)
            &&& first_text(nodes, list) == Some(joined(pieces(nodes, list[0]), Seq::empty()))
        },
{
    reveal_strlit("");
    assert(""@ =~= Seq::<char>::empty());
}

/// What is read of each of some elements is read one by one, in order.
pub proof fn law_one_by_one(
    nodes: Seq<(bool, Seq<char>)>,
    list: Seq<usize>,
    name: Seq<char>,
    values: Seq<Option<String>>,
)
    ensures
        markups(nodes, list).len() == list.len(),
        forall|i: int|
            0 <= i < list.len() ==> #[trigger] markups(nodes, list)[i] == markup(nodes, list[i]),
        attributes(nodes, list, name).len() == list.len(),
        forall|i: int|
            0 <= i < list.len() ==> #[trigger] attributes(nodes, list, name)[i] == attribute(
                nodes,
                list[i],
                name,
            ),
        option_views(values).len() == values.len(),
        forall|i: int|
            0 <= i < values.len() ==> #[trigger] option_views(values)[i] == view_opt(values[i]),
{
}

/// The pieces of text of two runs of elements are those of the one, and then those of the other; of
/// one element they are its own. Put together they are the whole text.
pub proof fn law_pieces(
    nodes: Seq<(bool, Seq<char>)>,
    a: Seq<usize>,
    b: Seq<usize>,
    node: usize,
)
    ensures
        all_pieces(nodes, a + b) == all_pieces(nodes, a) + all_pieces(nodes, b),
        all_pieces(nodes, seq![node]) == pieces(nodes, node),
        all_pieces(nodes, Seq::empty()) == Seq::<Seq<char>>::empty(),
        whole_text(nodes, a) == joined(all_pieces(nodes, a), Seq::empty()),
    decreases b.len(),
{
    reveal_strlit("");
    assert(""@ =~= Seq::<char>::empty());
    let one = seq![node];
    assert(one.drop_last() =~= Seq::empty());
    assert(all_pieces(nodes, one.drop_last()) =~= Seq::empty());
    assert(one.last() == node);
    assert(all_pieces(nodes, one) =~= pieces(nodes, node));
    if b.len() > 0 {
        law_pieces(nodes, a, b.drop_last(), node);
        assert((a + b).drop_last() =~= a + b.drop_last());
        assert((a + b).last() == b.last());
        assert(all_pieces(nodes, a + b) =~= all_pieces(nodes, a) + all_pieces(nodes, b));
    } else {
        assert(a + b =~= a);
        assert(all_pieces(nodes, a + b) =~= all_pieces(nodes, a) + all_pieces(nodes, b));
    }
}

} // verus!
