use vstd::prelude::*;
use crate::text::chars_of;

verus! {

/// The two top-level states of the game.
#[derive(Clone, Copy, Debug, PartialEq, Eq, Structural, Hash)]
pub enum GameState {
    MainMenu,
    InGame,
}

impl Default for GameState {
    /// The game opens on the main menu.
    fn default() -> (res: Self)
        ensures
            res == GameState::MainMenu,
    {
        GameState::MainMenu
    }
}

/// The page that the main menu shows.
#[derive(Clone, Copy, Debug, PartialEq, Eq, Structural)]
pub enum MainMenuPage {
    Root,
    ChapterSelect,
}

impl Default for MainMenuPage {
    /// The main menu opens on its root page.
    fn default() -> (res: Self)
        ensures
            res == MainMenuPage::Root,
    {
        MainMenuPage::Root
    }
}

/// The action buttons of the main menu.
#[derive(Clone, Copy, Debug, PartialEq, Eq, Structural)]
pub enum MenuAction {
    StartGame,
    SelectChapter,
    ReturnToRoot,
    ExitGame,
}

/// What pressing a main-menu action button asks for.
#[derive(Clone, Copy, Debug, PartialEq, Eq, Structural)]
pub enum MainMenuCommand {
    /// Enter the game on the default map.
    StartDefaultMap,
    /// Show another page of the menu.
    ShowPage { page: MainMenuPage },
    /// Quit the application.
    Quit,
}

/// The command of an action button.
pub open spec fn command_for(action: MenuAction) -> MainMenuCommand {
    match action {
        MenuAction::StartGame => MainMenuCommand::StartDefaultMap,
        MenuAction::SelectChapter => MainMenuCommand::ShowPage { page: MainMenuPage::ChapterSelect },
        MenuAction::ReturnToRoot => MainMenuCommand::ShowPage { page: MainMenuPage::Root },
        MenuAction::ExitGame => MainMenuCommand::Quit,
    }
}

/// The command of an action button (see `command_for`).
pub fn main_menu_command(action: MenuAction) -> (res: MainMenuCommand)
    ensures
        res == command_for(action),
{
    match action {
        MenuAction::StartGame => MainMenuCommand::StartDefaultMap,
        MenuAction::SelectChapter => MainMenuCommand::ShowPage { page: MainMenuPage::ChapterSelect },
        MenuAction::ReturnToRoot => MainMenuCommand::ShowPage { page: MainMenuPage::Root },
        MenuAction::ExitGame => MainMenuCommand::Quit,
    }
}

/// `a` comes no later than `b` in the order of `String`'s comparison: by
/// code point, character after character, a prefix first.
pub open spec fn label_le(a: Seq<char>, b: Seq<char>) -> bool
    decreases a.len(),
{
    if a.len() == 0 {
        true
    } else if b.len() == 0 {
        false
    } else if a[0] != b[0] {
        a[0] < b[0]
    } else {
        label_le(a.drop_first(), b.drop_first())
    }
}

/// Every label comes no later than itself.
pub proof fn lemma_label_le_reflexive(a: Seq<char>)
    ensures
        label_le(a, a),
    decreases a.len(),
{
    if a.len() > 0 {
        lemma_label_le_reflexive(a.drop_first());
    }
}

/// Any two labels are ordered one way or the other.
pub proof fn lemma_label_le_total(a: Seq<char>, b: Seq<char>)
    ensures
        label_le(a, b) || label_le(b, a),
    decreases a.len(),
{
    if a.len() > 0 && b.len() > 0 && a[0] == b[0] {
        lemma_label_le_total(a.drop_first(), b.drop_first());
    }
}

/// The label order is transitive.
pub proof fn lemma_label_le_transitive(a: Seq<char>, b: Seq<char>, c: Seq<char>)
    requires
        label_le(a, b),
        label_le(b, c),
    ensures
        label_le(a, c),
    decreases a.len(),
{
    if a.len() > 0 && b.len() > 0 && c.len() > 0 && a[0] == b[0] && b[0] == c[0] {
        lemma_label_le_transitive(a.drop_first(), b.drop_first(), c.drop_first());
    }
}

/// Two labels that each come no later than the other are the same.
pub proof fn lemma_label_le_antisymmetric(a: Seq<char>, b: Seq<char>)
    requires
        label_le(a, b),
        label_le(b, a),
    ensures
        a == b,
    decreases a.len(),
{
    if a.len() > 0 && b.len() > 0 {
        lemma_label_le_antisymmetric(a.drop_first(), b.drop_first());
        assert(a =~= seq![a[0]] + a.drop_first());
        assert(b =~= seq![b[0]] + b.drop_first());
    }
}

/// Compares two labels in `String`'s order.
fn label_le_exec(a: &Vec<char>, b: &Vec<char>) -> (res: bool)
    ensures
        res == label_le(a@, b@),
{
    let mut i: usize = 0;
    assert(a@.subrange(0, a@.len() as int) =~= a@);
    assert(b@.subrange(0, b@.len() as int) =~= b@);
    while i < a.len() && i < b.len() && a[i] == b[i]
        invariant
            i <= a@.len(),
            i <= b@.len(),
            a@.subrange(0, i as int) == b@.subrange(0, i as int),
            label_le(a@, b@) == label_le(a@.subrange(i as int, a@.len() as int), b@.subrange(
                i as int,
                b@.len() as int,
            )),
        decreases a.len() - i,
    {
        proof {
            let sa = a@.subrange(i as int, a@.len() as int);
            let sb = b@.subrange(i as int, b@.len() as int);
            assert(sa.drop_first() =~= a@.subrange(i + 1, a@.len() as int));
            assert(sb.drop_first() =~= b@.subrange(i + 1, b@.len() as int));
        }
        i = i + 1;
    }
    if i == a.len() {
        true
    } else if i == b.len() {
        false
    } else {
        a[i] < b[i]
    }
}

/// The entries of `labels` listed in label order: `order` names each index
/// of `labels` once, the labels it names never decrease, and entries with
/// the same label keep their order.
pub open spec fn is_label_order(labels: Seq<Seq<char>>, order: Seq<usize>) -> bool {
    &&& order.len() == labels.len()
    &&& forall|i: int| 0 <= i < order.len() ==> #[trigger] order[i] < labels.len()
    &&& forall|i: int, j: int| 0 <= i < j < order.len() ==> order[i] != order[j]
    &&& forall|i: int, j: int|
        0 <= i < j < order.len() ==> label_le(labels[order[i] as int], labels[order[j] as int])
    &&& forall|i: int, j: int|
        0 <= i < j < order.len() && labels[order[i] as int] == labels[order[j] as int] ==> order[i]
            < order[j]
}

/// The labels of a list of strings.
pub open spec fn labels_of(labels: Seq<String>) -> Seq<Seq<char>> {
    labels.map_values(|s: String| s@)
}

/// The order in which the chapter select page lists chapters: the indices of
/// `labels`, sorted by label.
pub fn chapter_order(labels: &Vec<String>) -> (order: Vec<usize>)
    ensures
        is_label_order(labels_of(labels@), order@),
{
    let ghost ls = labels_of(labels@);
    let n = labels.len();
    let mut keys: Vec<Vec<char>> = Vec::new();
    let mut k: usize = 0;
    while k < n
        invariant
            n == labels@.len(),
            ls == labels_of(labels@),
            k <= n,
            keys@.len() == k,
            forall|j: int| 0 <= j < k ==> #[trigger] keys@[j]@ == ls[j],
        decreases n - k,
    {
        keys.push(chars_of(labels[k].as_str()));
        k = k + 1;
    }
    let mut order: Vec<usize> = Vec::new();
    let mut i: usize = 0;
    while i < n
        invariant
            n == labels@.len(),
            ls == labels_of(labels@),
            keys@.len() == n,
            forall|j: int| 0 <= j < n ==> #[trigger] keys@[j]@ == ls[j],
            i <= n,
            order@.len() == i,
            forall|a: int| 0 <= a < i ==> #[trigger] order@[a] < i,
            forall|a: int, b: int| 0 <= a < b < i ==> order@[a] != order@[b],
            forall|a: int, b: int|
                0 <= a < b < i ==> label_le(ls[order@[a] as int], ls[order@[b] as int]),
            forall|a: int, b: int|
                0 <= a < b < i && ls[order@[a] as int] == ls[order@[b] as int] ==> order@[a] < order@[b],
        decreases n - i,
    {
        // Insert index i after the last entry whose label is no later than its own.
        let mut pos: usize = i;
        while pos > 0 && !label_le_exec(&keys[order[pos - 1]], &keys[i])
            invariant
                n == labels@.len(),
                keys@.len() == n,
                forall|j: int| 0 <= j < n ==> #[trigger] keys@[j]@ == ls[j],
                i < n,
                order@.len() == i,
                pos <= i,
                forall|a: int| 0 <= a < i ==> #[trigger] order@[a] < i,
                forall|a: int| pos <= a < i ==> !label_le(ls[order@[a] as int], ls[i as int]),
            decreases pos,
        {
            pos = pos - 1;
        }
        proof {
            assert forall|a: int| pos <= a < i implies label_le(ls[i as int], ls[order@[a] as int]) by {
                lemma_label_le_total(ls[order@[a] as int], ls[i as int]);
            }
            if pos > 0 {
                assert forall|a: int| 0 <= a < pos implies label_le(ls[order@[a] as int], ls[i as int]) by {
                    if a < pos - 1 {
                        lemma_label_le_transitive(
                            ls[order@[a] as int],
                            ls[order@[pos - 1] as int],
                            ls[i as int],
                        );
                    }
                }
            }
        }
        let ghost before = order@;
        order.insert(pos, i);
        proof {
            assert(order@ =~= before.subrange(0, pos as int).push(i) + before.subrange(
                pos as int,
                i as int,
            ));
            assert forall|a: int| 0 <= a < i + 1 implies #[trigger] order@[a] < i + 1 by {}
            assert forall|a: int, b: int| 0 <= a < b < i + 1 implies order@[a] != order@[b] by {
                if a < pos && b > pos {
                    assert(order@[b] == before[b - 1]);
                } else if a > pos {
                    assert(order@[a] == before[a - 1]);
                    assert(order@[b] == before[b - 1]);
                }
            }
            assert forall|a: int, b: int|
                0 <= a < b < i + 1 && ls[order@[a] as int] == ls[order@[b] as int] implies order@[a]
                < order@[b] by {
                if b < pos {
                } else if b == pos {
                } else if a < pos {
                    assert(order@[b] == before[b - 1]);
                } else if a == pos {
                    assert(order@[b] == before[b - 1]);
                    lemma_label_le_reflexive(ls[i as int]);
                } else {
                    assert(order@[a] == before[a - 1]);
                    assert(order@[b] == before[b - 1]);
                }
            }
            assert forall|a: int, b: int| 0 <= a < b < i + 1 implies label_le(
                ls[order@[a] as int],
                ls[order@[b] as int],
            ) by {
                if b < pos {
                } else if b == pos {
                } else if a < pos {
                    assert(order@[b] == before[b - 1]);
                } else if a == pos {
                    assert(order@[b] == before[b - 1]);
                } else {
                    assert(order@[a] == before[a - 1]);
                    assert(order@[b] == before[b - 1]);
                }
            }
        }
        i = i + 1;
    }
    order
}

} // verus!
