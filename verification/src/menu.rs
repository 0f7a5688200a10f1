//! The program's menu: its choices and what each one does.

use vstd::prelude::*;
use crate::text::{owned, str_equal};

verus! {

/// What the user can ask for.
#[derive(Clone, Copy, Debug, PartialEq, Eq, Structural)]
pub enum MenuAction {
    ListCities,
    RangeCharts,
    BarCharts,
    LineCharts,
    DateTempCharts,
    Videos,
    Exit,
}

/// The menu's choices, in the order shown.
pub open spec fn spec_menu_choices() -> Seq<Seq<char>> {
    seq![
        "List all cities"@,
        "Generate Range Charts"@,
        "Generate BAR Charts by CITY"@,
        "Generate LINE Charts by CITY"@,
        "Generate Wide Date-Temp Charts by CITY"@,
        "Generate Videos from Charts"@,
        "Exit"@,
    ]
}

/// The action of the choice shown in place `i`.
pub open spec fn action_at(i: int) -> MenuAction {
    if i == 0 {
        MenuAction::ListCities
    } else if i == 1 {
        MenuAction::RangeCharts
    } else if i == 2 {
        MenuAction::BarCharts
    } else if i == 3 {
        MenuAction::LineCharts
    } else if i == 4 {
        MenuAction::DateTempCharts
    } else if i == 5 {
        MenuAction::Videos
    } else {
        MenuAction::Exit
    }
}

pub fn menu_choices() -> (r: Vec<String>)
    ensures
        r@.map_values(|s: String| s@) == spec_menu_choices(),
{
    let mut r: Vec<String> = Vec::new();
    r.push(owned("List all cities"));
    r.push(owned("Generate Range Charts"));
    r.push(owned("Generate BAR Charts by CITY"));
    r.push(owned("Generate LINE Charts by CITY"));
    r.push(owned("Generate Wide Date-Temp Charts by CITY"));
    r.push(owned("Generate Videos from Charts"));
    r.push(owned("Exit"));
    assert(r@.map_values(|s: String| s@) =~= spec_menu_choices());
    r
}

/// The action of the text the user picked; `None` for a text that is not a
/// choice of the menu, which the menu then ignores.
pub fn menu_action(choice: &str) -> (r: Option<MenuAction>)
    ensures
        forall|i: int|
            0 <= i < 7 && #[trigger] spec_menu_choices()[i] == choice@ ==> r == Some(action_at(i)),
        r is None <==> !spec_menu_choices().contains(choice@),
{
    let ghost c = spec_menu_choices();
    proof {
        lemma_choices_distinct();
    }
    let r = if str_equal(choice, "List all cities") {
        Some(MenuAction::ListCities)
    } else if str_equal(choice, "Generate Range Charts") {
        Some(MenuAction::RangeCharts)
    } else if str_equal(choice, "Generate BAR Charts by CITY") {
        Some(MenuAction::BarCharts)
    } else if str_equal(choice, "Generate LINE Charts by CITY") {
        Some(MenuAction::LineCharts)
    } else if str_equal(choice, "Generate Wide Date-Temp Charts by CITY") {
        Some(MenuAction::DateTempCharts)
    } else if str_equal(choice, "Generate Videos from Charts") {
        Some(MenuAction::Videos)
    } else if str_equal(choice, "Exit") {
        Some(MenuAction::Exit)
    } else {
        None
    };
    proof {
        if r is None {
            assert forall|i: int| 0 <= i < c.len() implies c[i] != choice@ by {
                assert(c[i] == c[i]);
            }
        } else {
            let i = if r == Some(MenuAction::ListCities) {
                0int
            } else if r == Some(MenuAction::RangeCharts) {
                1int
            } else if r == Some(MenuAction::BarCharts) {
                2int
            } else if r == Some(MenuAction::LineCharts) {
                3int
            } else if r == Some(MenuAction::DateTempCharts) {
                4int
            } else if r == Some(MenuAction::Videos) {
                5int
            } else {
                6int
            };
            assert(c[i] == choice@);
        }
    }
    r
}

proof fn lemma_choices_distinct()
    ensures
        forall|i: int, j: int|
            0 <= i < j < 7 ==> #[trigger] spec_menu_choices()[i] != #[trigger] spec_menu_choices()[j],
{
    reveal_strlit("List all cities");
    reveal_strlit("Generate Range Charts");
    reveal_strlit("Generate BAR Charts by CITY");
    reveal_strlit("Generate LINE Charts by CITY");
    reveal_strlit("Generate Wide Date-Temp Charts by CITY");
    reveal_strlit("Generate Videos from Charts");
    reveal_strlit("Exit");
    let c = spec_menu_choices();
    assert forall|i: int, j: int| 0 <= i < j < 7 implies #[trigger] c[i] != #[trigger] c[j] by {
        if c[i] == c[j] {
            assert(c[i].len() == c[j].len());
            assert(c[i][9] == c[j][9]);
            assert(c[i][10] == c[j][10]);
        }
    }
}

/// Every choice of the menu leads to its own action, and only the last one
/// ends the program.
pub proof fn law_each_choice_its_own_action()
    ensures
        forall|i: int, j: int|
            0 <= i < j < 7 ==> #[trigger] action_at(i) != #[trigger] action_at(j),
        forall|i: int| 0 <= i < 7 ==> (#[trigger] action_at(i) == MenuAction::Exit <==> i == 6),
        forall|i: int, j: int|
            0 <= i < j < 7 ==> #[trigger] spec_menu_choices()[i] != #[trigger] spec_menu_choices()[j],
{
    lemma_choices_distinct();
}

} // verus!
