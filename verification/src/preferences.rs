//! The preferences of a source, and how a user's choices replace them.
use crate::text::same_text;
use vstd::prelude::*;

verus! {

/// What sort of input a preference is.
#[derive(Debug, Clone, Copy, PartialEq, Eq, Structural)]
pub enum InputKind {
    Text,
    Checkbox,
    Select,
    Group,
    Sort,
    State,
}

/// By what two inputs are the same preference: their kind and their name, whatever their state.
#[derive(Debug, Clone)]
pub struct InputKey {
    pub kind: InputKind,
    pub name: String,
}

/// An [`InputKey`] with its text as a sequence of characters.
pub struct InputKeyView {
    pub kind: InputKind,
    pub name: Seq<char>,
}

impl View for InputKey {
    type V = InputKeyView;

    open spec fn view(&self) -> InputKeyView {
        InputKeyView { kind: self.kind, name: self.name@ }
    }
}

/// The place of the last input that is the same preference as `key`.
pub open spec fn last_choice(key: InputKeyView, incoming: Seq<InputKey>) -> Option<usize>
    decreases incoming.len(),
{
    if incoming.len() == 0 {
        None
    } else if incoming.last()@ == key {
        Some((incoming.len() - 1) as usize)
    } else {
        last_choice(key, incoming.drop_last())
    }
}

/// Whether two inputs are the same preference.
pub fn same_key(a: &InputKey, b: &InputKey) -> (same: bool)
    ensures
        same == (a@ == b@),
{
    a.kind == b.kind && same_text(a.name.as_str(), b.name.as_str())
}

/// Finds the last input that is the same preference as `key`.
pub fn find_choice(key: &InputKey, incoming: &Vec<InputKey>) -> (choice: Option<usize>)
    ensures
        choice == last_choice(key@, incoming@),
{
    let mut n: usize = incoming.len();
    assert(incoming@.take(n as int) =~= incoming@);
    while n > 0
        invariant
            n <= incoming@.len(),
            last_choice(key@, incoming@) == last_choice(key@, incoming@.take(n as int)),
        decreases n,
    {
        assert(incoming@.take(n as int).last() == incoming@[n - 1]);
        assert(incoming@.take(n as int).drop_last() =~= incoming@.take(n - 1));
        if same_key(&incoming[n - 1], key) {
            return Some(n - 1);
        }
        n -= 1;
    }
    None
}

/// Applies a user's choices: for each preference, in order, the place of the input that replaces
/// it. Of several inputs for one preference the last counts; `None` where a preference stays as it
/// is. Inputs for no preference have no effect.
pub fn set_preferences(current: &Vec<InputKey>, incoming: &Vec<InputKey>) -> (choices: Vec<
    Option<usize>,
>)
    ensures
        choices@ == current@.map_values(|key: InputKey| last_choice(key@, incoming@)),
{
    let mut choices: Vec<Option<usize>> = Vec::new();
    let mut i: usize = 0;
    while i < current.len()
        invariant
            i <= current@.len(),
            choices@ == current@.take(i as int).map_values(
                |key: InputKey| last_choice(key@, incoming@),
            ),
        decreases current@.len() - i,
    {
        let choice = find_choice(&current[i], incoming);
        choices.push(choice);
        i += 1;
        assert(choices@ =~= current@.take(i as int).map_values(
            |key: InputKey| last_choice(key@, incoming@),
        ));
    }
    assert(current@.take(i as int) =~= current@);
    choices
}

/// A preference is replaced by an input that is the same preference, and by none that has a later
/// one beside it; so it keeps its kind and its name. It stays as it is only where no input is the
/// same preference.
pub proof fn law_last_choice_counts(key: InputKeyView, incoming: Seq<InputKey>)
    requires
        incoming.len() <= usize::MAX,
    ensures
        match last_choice(key, incoming) {
            Some(i) => {
                &&& i < incoming.len()
                &&& incoming[i as int]@ == key
                &&& forall|j: int| i < j < incoming.len() ==> #[trigger] incoming[j]@ != key
            },
            None => forall|j: int| 0 <= j < incoming.len() ==> #[trigger] incoming[j]@ != key,
        },
    decreases incoming.len(),
{
    if incoming.len() > 0 && incoming.last()@ != key {
        let front = incoming.drop_last();
        law_last_choice_counts(key, front);
        assert forall|j: int| 0 <= j < incoming.len() - 1 implies #[trigger] incoming[j]
            == front[j] by {}
    }
}

/// Choices that are made one after the other count as if they had been made at once.
pub proof fn law_choices_add_up(key: InputKeyView, first: Seq<InputKey>, second: Seq<InputKey>)
    requires
        first.len() + second.len() <= usize::MAX,
    ensures
        last_choice(key, first + second) == match last_choice(key, second) {
            Some(i) => Some((first.len() + i) as usize),
            None => last_choice(key, first),
        },
    decreases second.len(),
{
    if second.len() > 0 {
        assert((first + second).last() == second.last());
        if second.last()@ != key {
            law_choices_add_up(key, first, second.drop_last());
            assert((first + second).drop_last() =~= first + second.drop_last());
        }
    } else {
        assert(first + second =~= first);
    }
}

/// Two inputs are the same preference where their kinds and their names agree.
pub proof fn law_same_preference(a: InputKey, b: InputKey)
    ensures
        a@ == b@ <==> a.kind == b.kind && a.name@ == b.name@,
{
}

} // verus!
