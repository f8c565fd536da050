use gitools::cursor::{
    BarEvent, BarReply, EmptyResultAccess, Fuzzybar, ScrollRequest, ADVANCE_THRESHOLD,
    RETREAT_THRESHOLD,
};
use gitools::filter::{FuzzybarState, ListItem};
use gitools::git::{GitAction, GitState};
use gitools::keymap::Command;
use im::Vector;

fn names(list: &[&str]) -> Vector<String> {
    list.iter().map(|n| (*n).to_owned()).collect()
}

fn git_state(local: &[&str], remote: &[&str]) -> GitState {
    GitState::new(names(local), names(remote))
}

/// The bar as it stands when the program has started on a repository with
/// these local branches.
fn state_init(local: &[&str]) -> (FuzzybarState, GitState) {
    let git = git_state(local, &[]);
    let mut bar = FuzzybarState {
        is_hidden: true,
        cmd: Command::ShowMenu,
        query: "".to_owned(),
        source: git.all_branches.clone(),
        filtered: Vector::new(),
    };
    bar.filter();
    (bar, git)
}

fn numbered(n: usize) -> FuzzybarState {
    let mut bar = FuzzybarState {
        is_hidden: false,
        cmd: Command::BranchCheckout,
        query: "".to_owned(),
        source: (0..n).map(|i| format!("b{}", i)).collect(),
        filtered: Vector::new(),
    };
    bar.filter();
    bar
}

fn flags(bar: &FuzzybarState) -> Vec<bool> {
    bar.filtered.iter().map(|i| i.selected).collect()
}

fn only(n: usize, at: usize) -> Vec<bool> {
    (0..n).map(|i| i == at).collect()
}

#[test]
fn reset_selection_should_deselect_items_and_scroll() {
    let (mut data, _git) = state_init(&["master"]);

    let mut fuzzybar = Fuzzybar::new();
    let outcome = fuzzybar.reset_selection(&mut data);
    assert_eq!(outcome, Ok(()));
    assert_eq!(fuzzybar.selected_idx, 0);
    assert_eq!(fuzzybar.scrolled, false);
}

#[test]
fn execute_cmd_branch_checkout() {
    let (mut data, _git) = state_init(&["b1", "master"]);
    data.cmd = Command::BranchCheckout;

    let mut fuzzybar = Fuzzybar::new();
    fuzzybar.selected_idx = data.filtered.iter().position(|b| b.name == "b1").unwrap();
    let action = fuzzybar.execute_cmd(&mut data);

    let branch = match action {
        Ok(GitAction::CheckoutBranch(head)) => head,
        other => panic!("no checkout: {:?}", other),
    };
    assert_eq!(branch, "refs/heads/b1");
}

#[test]
fn move_selection_down_should_move_selected() {
    let (mut data, _git) = state_init(&["b1", "master"]);
    data.cmd = Command::BranchCheckout;

    let mut fuzzybar = Fuzzybar::new();
    fuzzybar.move_selection_down(&mut data);

    let selected = data.filtered.get_mut(fuzzybar.selected_idx).unwrap();
    assert_eq!(selected.selected, true);
    assert_eq!(fuzzybar.selected_idx, 1);
}

#[test]
fn move_selection_up_should_move_selected() {
    let (mut data, _git) = state_init(&["b1", "master"]);
    data.cmd = Command::BranchCheckout;

    let mut fuzzybar = Fuzzybar::new();
    fuzzybar.move_selection_down(&mut data);
    fuzzybar.move_selection_up(&mut data);

    let selected = data.filtered.get_mut(fuzzybar.selected_idx).unwrap();
    assert_eq!(selected.selected, true);
    assert_eq!(fuzzybar.selected_idx, 0);
}

#[test]
fn a_new_cursor_stands_on_the_first_item() {
    let cursor = Fuzzybar::new();
    assert_eq!(cursor, Fuzzybar { selected_idx: 0, scrolled: false });
}

#[test]
fn thresholds() {
    assert_eq!(ADVANCE_THRESHOLD, 8);
    assert_eq!(RETREAT_THRESHOLD, 12);
}

#[test]
fn move_down_deactivates_the_old_item_and_activates_the_next() {
    let mut data = numbered(3);
    let mut cursor = Fuzzybar::new();
    assert_eq!(flags(&data), vec![true, false, false]);
    assert_eq!(cursor.move_selection_down(&mut data), ScrollRequest::Stay);
    assert_eq!(flags(&data), vec![false, true, false]);
    assert_eq!(cursor.move_selection_down(&mut data), ScrollRequest::Stay);
    assert_eq!(flags(&data), vec![false, false, true]);
    assert_eq!(cursor.selected_idx, 2);
    let texts: Vec<&str> = data.filtered.iter().map(|i| i.name.as_str()).collect();
    assert_eq!(texts, vec!["b0", "b1", "b2"]);
}

#[test]
fn move_down_at_the_last_index_is_a_no_op() {
    let mut data = numbered(10);
    let mut cursor = Fuzzybar::new();
    for _ in 0..9 {
        cursor.move_selection_down(&mut data);
    }
    assert_eq!(cursor.selected_idx, 9);
    let before: Vec<ListItem> = data.filtered.iter().cloned().collect();
    let request = cursor.move_selection_down(&mut data);
    assert_eq!(request, ScrollRequest::Stay);
    assert_eq!(cursor.selected_idx, 9);
    assert_eq!(cursor.scrolled, false);
    let after: Vec<ListItem> = data.filtered.iter().cloned().collect();
    assert_eq!(before, after);
}

#[test]
fn move_up_at_index_zero_is_a_no_op() {
    let mut data = numbered(3);
    let mut cursor = Fuzzybar::new();
    let request = cursor.move_selection_up(&mut data);
    assert_eq!(request, ScrollRequest::Stay);
    assert_eq!(cursor, Fuzzybar { selected_idx: 0, scrolled: false });
    assert_eq!(flags(&data), vec![true, false, false]);
}

#[test]
fn moves_on_an_empty_list_are_no_ops() {
    let mut data = numbered(0);
    let mut cursor = Fuzzybar::new();
    assert_eq!(cursor.move_selection_down(&mut data), ScrollRequest::Stay);
    assert_eq!(cursor.move_selection_up(&mut data), ScrollRequest::Stay);
    assert_eq!(cursor, Fuzzybar::new());
    assert!(data.filtered.is_empty());
}

#[test]
fn moves_on_a_single_item_are_no_ops() {
    let mut data = numbered(1);
    let mut cursor = Fuzzybar::new();
    assert_eq!(cursor.move_selection_down(&mut data), ScrollRequest::Stay);
    assert_eq!(cursor.move_selection_up(&mut data), ScrollRequest::Stay);
    assert_eq!(cursor.selected_idx, 0);
    assert_eq!(flags(&data), vec![true]);
}

#[test]
fn moves_with_the_cursor_past_the_end_are_no_ops() {
    let mut data = numbered(3);
    let mut cursor = Fuzzybar { selected_idx: 7, scrolled: true };
    assert_eq!(cursor.move_selection_down(&mut data), ScrollRequest::Stay);
    assert_eq!(cursor.move_selection_up(&mut data), ScrollRequest::Stay);
    assert_eq!(cursor, Fuzzybar { selected_idx: 7, scrolled: true });
    assert_eq!(flags(&data), vec![true, false, false]);
    let mut cursor = Fuzzybar { selected_idx: usize::MAX, scrolled: false };
    assert_eq!(cursor.move_selection_down(&mut data), ScrollRequest::Stay);
    assert_eq!(cursor.selected_idx, usize::MAX);
}

#[test]
fn move_down_asks_for_a_scroll_from_the_advance_threshold_on() {
    let mut data = numbered(20);
    let mut cursor = Fuzzybar::new();
    let mut requests = Vec::new();
    for _ in 0..19 {
        requests.push(cursor.move_selection_down(&mut data));
    }
    let expected: Vec<ScrollRequest> = (1..20)
        .map(|arrived| if arrived >= 8 { ScrollRequest::Down } else { ScrollRequest::Stay })
        .collect();
    assert_eq!(requests, expected);
    assert_eq!(requests[6], ScrollRequest::Stay);
    assert_eq!(requests[7], ScrollRequest::Down);
    assert_eq!(flags(&data), only(20, 19));
}

#[test]
fn move_up_asks_for_a_scroll_up_to_the_retreat_threshold() {
    let mut data = numbered(20);
    let mut cursor = Fuzzybar::new();
    for _ in 0..19 {
        cursor.move_selection_down(&mut data);
    }
    let mut requests = Vec::new();
    for _ in 0..19 {
        requests.push(cursor.move_selection_up(&mut data));
    }
    let expected: Vec<ScrollRequest> = (0..19)
        .rev()
        .map(|arrived| if arrived <= 12 { ScrollRequest::Up } else { ScrollRequest::Stay })
        .collect();
    assert_eq!(requests, expected);
    assert_eq!(requests[5], ScrollRequest::Stay);
    assert_eq!(requests[6], ScrollRequest::Up);
    assert_eq!(cursor.selected_idx, 0);
    assert_eq!(flags(&data), only(20, 0));
}

#[test]
fn exactly_one_item_is_active_after_every_move() {
    let mut data = numbered(5);
    let mut cursor = Fuzzybar::new();
    let moves = [true, true, false, true, true, true, true, false, false, false, false, false];
    for down in moves.iter() {
        if *down {
            cursor.move_selection_down(&mut data);
        } else {
            cursor.move_selection_up(&mut data);
        }
        assert_eq!(flags(&data), only(5, cursor.selected_idx));
    }
}

#[test]
fn scroll_down_below_the_threshold_changes_nothing() {
    let mut cursor = Fuzzybar { selected_idx: 7, scrolled: false };
    cursor.scroll_down(true);
    assert_eq!(cursor, Fuzzybar { selected_idx: 7, scrolled: false });
}

#[test]
fn scroll_down_from_the_threshold_on_keeps_what_the_viewport_did() {
    let mut cursor = Fuzzybar { selected_idx: 8, scrolled: false };
    cursor.scroll_down(false);
    assert_eq!(cursor.scrolled, false);
    cursor.scroll_down(true);
    assert_eq!(cursor.scrolled, true);
    cursor.scroll_down(false);
    assert_eq!(cursor, Fuzzybar { selected_idx: 8, scrolled: true });
}

#[test]
fn scroll_up_above_the_threshold_changes_nothing() {
    let mut cursor = Fuzzybar { selected_idx: 13, scrolled: true };
    cursor.scroll_up(false);
    assert_eq!(cursor, Fuzzybar { selected_idx: 13, scrolled: true });
}

#[test]
fn scroll_up_to_the_threshold_takes_what_the_viewport_did() {
    let mut cursor = Fuzzybar { selected_idx: 12, scrolled: true };
    cursor.scroll_up(false);
    assert_eq!(cursor, Fuzzybar { selected_idx: 12, scrolled: false });
    cursor.scroll_up(true);
    assert_eq!(cursor, Fuzzybar { selected_idx: 12, scrolled: true });
}

#[test]
fn reset_selection_goes_back_to_the_first_item() {
    let mut data = numbered(4);
    let mut cursor = Fuzzybar::new();
    cursor.move_selection_down(&mut data);
    cursor.move_selection_down(&mut data);
    cursor.scrolled = true;
    assert_eq!(cursor.reset_selection(&mut data), Ok(()));
    assert_eq!(cursor, Fuzzybar { selected_idx: 0, scrolled: false });
    assert_eq!(flags(&data), vec![true, false, false, false]);
}

#[test]
fn reset_selection_on_an_empty_list_is_not_ready() {
    let mut data = numbered(0);
    let mut cursor = Fuzzybar { selected_idx: 0, scrolled: true };
    assert_eq!(cursor.reset_selection(&mut data), Err(EmptyResultAccess));
    assert_eq!(cursor, Fuzzybar { selected_idx: 0, scrolled: true });
    assert!(data.filtered.is_empty());
}

#[test]
fn reset_selection_with_the_cursor_past_the_end_selects_the_first_item() {
    let mut data = numbered(2);
    data.filtered.get_mut(0).unwrap().selected = false;
    let mut cursor = Fuzzybar { selected_idx: 9, scrolled: true };
    assert_eq!(cursor.reset_selection(&mut data), Ok(()));
    assert_eq!(cursor, Fuzzybar { selected_idx: 0, scrolled: false });
    assert_eq!(flags(&data), vec![true, false]);
}

#[test]
fn commit_returns_the_text_of_the_active_item() {
    let mut data = FuzzybarState {
        is_hidden: false,
        cmd: Command::BranchCheckout,
        query: "b1".to_owned(),
        source: names(&["master", "b1", "b2"]),
        filtered: Vector::new(),
    };
    data.filter();
    let cursor = Fuzzybar::new();
    assert_eq!(cursor.commit(&data), Ok("b1".to_owned()));
}

#[test]
fn commit_after_a_move_returns_the_item_moved_to() {
    let mut data = numbered(3);
    let mut cursor = Fuzzybar::new();
    cursor.move_selection_down(&mut data);
    assert_eq!(cursor.commit(&data), Ok("b1".to_owned()));
    assert_eq!(flags(&data), vec![false, true, false]);
    assert_eq!(cursor.selected_idx, 1);
}

#[test]
fn commit_on_an_empty_list_is_not_ready() {
    let data = numbered(0);
    let cursor = Fuzzybar::new();
    assert_eq!(cursor.commit(&data), Err(EmptyResultAccess));
}

#[test]
fn commit_with_the_cursor_past_the_end_is_not_ready() {
    let data = numbered(2);
    let cursor = Fuzzybar { selected_idx: 2, scrolled: false };
    assert_eq!(cursor.commit(&data), Err(EmptyResultAccess));
}

#[test]
fn execute_cmd_hides_the_bar_and_resets_the_selection() {
    let mut data = numbered(3);
    let mut cursor = Fuzzybar::new();
    cursor.move_selection_down(&mut data);
    cursor.scrolled = true;
    let action = cursor.execute_cmd(&mut data);
    assert_eq!(action, Ok(GitAction::CheckoutBranch("refs/heads/b1".to_owned())));
    assert_eq!(data.is_hidden, true);
    assert_eq!(cursor, Fuzzybar { selected_idx: 0, scrolled: false });
    assert_eq!(flags(&data), vec![true, false, false]);
    assert_eq!(data.cmd, Command::BranchCheckout);
}

#[test]
fn execute_cmd_of_another_command_asks_nothing_of_the_repository() {
    let mut data = numbered(2);
    data.cmd = Command::Commit;
    let mut cursor = Fuzzybar::new();
    assert_eq!(cursor.execute_cmd(&mut data), Ok(GitAction::Nothing));
    assert_eq!(data.is_hidden, true);
    let mut data = numbered(2);
    data.cmd = Command::ShowMenu;
    assert_eq!(cursor.execute_cmd(&mut data), Ok(GitAction::Nothing));
}

#[test]
fn execute_cmd_on_an_empty_list_is_not_ready_and_changes_nothing() {
    let mut data = numbered(0);
    let mut cursor = Fuzzybar { selected_idx: 0, scrolled: true };
    assert_eq!(cursor.execute_cmd(&mut data), Err(EmptyResultAccess));
    assert_eq!(data.is_hidden, false);
    assert_eq!(cursor, Fuzzybar { selected_idx: 0, scrolled: true });
}

#[test]
fn update_source_takes_the_branches_for_a_checkout() {
    let git = git_state(&["b1", "master"], &["origin/master"]);
    let mut data = numbered(0);
    data.query = "master".to_owned();
    let mut cursor = Fuzzybar { selected_idx: 3, scrolled: true };
    cursor.update_source(&mut data, &git);
    assert_eq!(data.source, names(&["b1", "master", "origin/master"]));
    let got: Vec<ListItem> = data.filtered.iter().cloned().collect();
    assert_eq!(
        got,
        vec![
            ListItem { name: "master".to_owned(), selected: true },
            ListItem { name: "origin/master".to_owned(), selected: false },
        ]
    );
    assert_eq!(cursor, Fuzzybar { selected_idx: 0, scrolled: true });
    assert_eq!(data.query, "master");
}

#[test]
fn update_source_has_no_candidates_for_other_commands() {
    let git = git_state(&["b1", "master"], &[]);
    for cmd in [Command::ShowMenu, Command::Commit] {
        let mut data = numbered(4);
        data.cmd = cmd;
        let mut cursor = Fuzzybar { selected_idx: 2, scrolled: false };
        cursor.update_source(&mut data, &git);
        assert!(data.source.is_empty());
        assert!(data.filtered.is_empty());
        assert_eq!(cursor.selected_idx, 0);
        assert_eq!(data.cmd, cmd);
    }
}

#[test]
fn open_shows_the_bar_with_the_candidates_of_the_command() {
    let git = git_state(&["b1", "master"], &[]);
    let (mut data, _) = state_init(&[]);
    let mut cursor = Fuzzybar { selected_idx: 5, scrolled: false };
    cursor.open(&mut data, &git, Command::BranchCheckout);
    assert_eq!(data.is_hidden, false);
    assert_eq!(data.cmd, Command::BranchCheckout);
    assert_eq!(data.source, names(&["b1", "master"]));
    assert_eq!(flags(&data), vec![true, false]);
    assert_eq!(cursor.selected_idx, 0);
}

fn quiet() -> BarReply {
    BarReply { action: GitAction::Nothing, scroll: ScrollRequest::Stay, release_focus: false }
}

#[test]
fn a_hidden_bar_takes_no_event() {
    let git = git_state(&["b1"], &[]);
    for event in
        [BarEvent::Cancel, BarEvent::Commit, BarEvent::MoveDown, BarEvent::MoveUp, BarEvent::QueryEdited]
    {
        let mut data = numbered(3);
        data.is_hidden = true;
        data.query = "zz".to_owned();
        let mut cursor = Fuzzybar { selected_idx: 1, scrolled: true };
        let reply = cursor.event(&mut data, &git, event);
        assert_eq!(reply, quiet());
        assert_eq!(cursor, Fuzzybar { selected_idx: 1, scrolled: true });
        assert_eq!(data.filtered.len(), 3);
        assert_eq!(data.is_hidden, true);
    }
}

#[test]
fn cancel_hides_the_bar_and_gives_the_focus_back() {
    let git = git_state(&[], &[]);
    let mut data = numbered(3);
    let mut cursor = Fuzzybar::new();
    cursor.move_selection_down(&mut data);
    let reply = cursor.event(&mut data, &git, BarEvent::Cancel);
    assert_eq!(reply, BarReply { release_focus: true, ..quiet() });
    assert_eq!(data.is_hidden, true);
    assert_eq!(cursor, Fuzzybar::new());
    assert_eq!(flags(&data), vec![true, false, false]);
}

#[test]
fn cancel_on_an_empty_list_hides_the_bar() {
    let git = git_state(&[], &[]);
    let mut data = numbered(0);
    let mut cursor = Fuzzybar { selected_idx: 0, scrolled: true };
    let reply = cursor.event(&mut data, &git, BarEvent::Cancel);
    assert_eq!(reply, BarReply { release_focus: true, ..quiet() });
    assert_eq!(data.is_hidden, true);
    assert_eq!(cursor, Fuzzybar { selected_idx: 0, scrolled: true });
}

#[test]
fn commit_event_asks_for_the_checkout_and_gives_the_focus_back() {
    let git = git_state(&[], &[]);
    let mut data = numbered(3);
    let mut cursor = Fuzzybar::new();
    cursor.event(&mut data, &git, BarEvent::MoveDown);
    cursor.event(&mut data, &git, BarEvent::MoveDown);
    let reply = cursor.event(&mut data, &git, BarEvent::Commit);
    assert_eq!(
        reply,
        BarReply {
            action: GitAction::CheckoutBranch("refs/heads/b2".to_owned()),
            scroll: ScrollRequest::Stay,
            release_focus: true,
        }
    );
    assert_eq!(data.is_hidden, true);
    assert_eq!(cursor, Fuzzybar::new());
    assert_eq!(flags(&data), vec![true, false, false]);
}

#[test]
fn commit_event_on_an_empty_list_asks_for_nothing() {
    let git = git_state(&[], &[]);
    let mut data = numbered(0);
    let mut cursor = Fuzzybar::new();
    let reply = cursor.event(&mut data, &git, BarEvent::Commit);
    assert_eq!(reply, quiet());
    assert_eq!(data.is_hidden, false);
}

#[test]
fn move_events_ask_for_their_scroll() {
    let git = git_state(&[], &[]);
    let mut data = numbered(12);
    let mut cursor = Fuzzybar::new();
    for arrived in 1..12 {
        let reply = cursor.event(&mut data, &git, BarEvent::MoveDown);
        let scroll = if arrived >= 8 { ScrollRequest::Down } else { ScrollRequest::Stay };
        assert_eq!(reply, BarReply { scroll, ..quiet() });
        assert_eq!(cursor.selected_idx, arrived);
    }
    assert_eq!(cursor.event(&mut data, &git, BarEvent::MoveDown), quiet());
    let reply = cursor.event(&mut data, &git, BarEvent::MoveUp);
    assert_eq!(reply, BarReply { scroll: ScrollRequest::Up, ..quiet() });
    assert_eq!(cursor.selected_idx, 10);
    assert_eq!(flags(&data), only(12, 10));
}

#[test]
fn query_edited_narrows_the_candidates_anew() {
    let git = git_state(&["b1", "b2", "master"], &[]);
    let mut data = numbered(0);
    let mut cursor = Fuzzybar::new();
    cursor.open(&mut data, &git, Command::BranchCheckout);
    cursor.event(&mut data, &git, BarEvent::MoveDown);
    data.query = "b".to_owned();
    let reply = cursor.event(&mut data, &git, BarEvent::QueryEdited);
    assert_eq!(reply, quiet());
    assert_eq!(cursor.selected_idx, 0);
    let got: Vec<ListItem> = data.filtered.iter().cloned().collect();
    assert_eq!(
        got,
        vec![
            ListItem { name: "b1".to_owned(), selected: true },
            ListItem { name: "b2".to_owned(), selected: false },
        ]
    );
}
