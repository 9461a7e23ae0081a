use serenity_additions::menu::{
    close_menu, display_page, next_page, previous_page, toggle_help, ActionContainer,
    ControlAction, Menu, MenuBuilder, MenuEffect, ReactionDecision, Rendering, TickDecision,
    CLOSE_MENU_EMOJI, DEFAULT_TIMEOUT_MS, HELP_EMOJI, NEXT_PAGE_EMOJI, PREVIOUS_PAGE_EMOJI,
};
use serenity_additions::events::retire_finished;
use serenity_additions::{Error, EventDrivenMessageContainer, MessageHandle};

const BOT: u64 = 1000;

fn paginator(pages: usize) -> MenuBuilder<String> {
    let mut b = MenuBuilder::new_paginator();
    for i in 0..pages {
        b = b.add_page(format!("page {}", i));
    }
    b
}

fn built(b: MenuBuilder<String>, reg: &mut EventDrivenMessageContainer) -> Menu<String> {
    b.build(reg, 0, MessageHandle::from_raw_ids(10, 20)).unwrap().0
}

fn react(menu: &mut Menu<String>, user: u64, symbol: &str) -> Option<MenuEffect> {
    match menu.on_reaction_add(Some(user), BOT, &symbol.to_string()).unwrap() {
        ReactionDecision::RemoveAndRun(control) => Some(control.run(menu)),
        _ => None,
    }
}

#[test]
fn next_page_wraps_around() {
    let mut reg = EventDrivenMessageContainer::new();
    let mut m = built(paginator(3), &mut reg);
    assert_eq!(next_page(&mut m), Rendering { page: 1, help: None });
    assert_eq!(next_page(&mut m), Rendering { page: 2, help: None });
    assert_eq!(next_page(&mut m), Rendering { page: 0, help: None });
    assert_eq!(m.current_page(), 0);
}

#[test]
fn previous_page_from_first_goes_to_last() {
    let mut reg = EventDrivenMessageContainer::new();
    let mut m = built(paginator(4), &mut reg);
    assert_eq!(previous_page(&mut m), Rendering { page: 3, help: None });
    assert_eq!(previous_page(&mut m), Rendering { page: 2, help: None });
}

#[test]
fn single_page_menu_stays_on_its_page() {
    let mut reg = EventDrivenMessageContainer::new();
    let mut m = built(paginator(1), &mut reg);
    assert_eq!(next_page(&mut m).page, 0);
    assert_eq!(previous_page(&mut m).page, 0);
}

#[test]
fn three_page_menu_navigation_scenario() {
    let mut reg = EventDrivenMessageContainer::new();
    let mut m = built(paginator(3), &mut reg);
    assert_eq!(m.current_page(), 0);
    react(&mut m, 7, PREVIOUS_PAGE_EMOJI);
    assert_eq!(m.current_page(), 2);
    react(&mut m, 7, NEXT_PAGE_EMOJI);
    react(&mut m, 7, NEXT_PAGE_EMOJI);
    assert_eq!(m.current_page(), 1);
}

#[test]
fn paginator_help_text() {
    let mut reg = EventDrivenMessageContainer::new();
    let m = built(paginator(2), &mut reg);
    let expected = format!(
        " - {} Displays the previous page\n - {} Closes the menu buttons\n - {} Displays the next page",
        PREVIOUS_PAGE_EMOJI, CLOSE_MENU_EMOJI, NEXT_PAGE_EMOJI
    );
    assert_eq!(m.help_text(), expected);
}

#[test]
fn help_text_orders_by_position_and_skips_controls_without_help() {
    let mut reg = EventDrivenMessageContainer::new();
    let b = MenuBuilder::default()
        .add_page(String::from("p"))
        .add_control(5, "b", ControlAction::Custom(1))
        .add_control(-3, "a", ControlAction::Custom(2))
        .add_control(0, "c", ControlAction::Custom(3))
        .add_help("b", "bee")
        .add_help("a", "ay");
    let m = built(b, &mut reg);
    assert_eq!(m.help_text(), " - a ay\n - b bee");
    assert_eq!(m.control_symbols(), vec!["a", "c", "b"]);
    assert_eq!(m.control_order(), vec![1, 2, 0]);
}

#[test]
fn menu_without_help_entries_has_empty_help() {
    let mut reg = EventDrivenMessageContainer::new();
    let b = MenuBuilder::default()
        .add_page(String::from("p"))
        .add_control(0, "x", ControlAction::NextPage);
    let m = built(b, &mut reg);
    assert_eq!(m.help_text(), "");
}

#[test]
fn toggling_help_twice_restores_the_rendering() {
    let mut reg = EventDrivenMessageContainer::new();
    let mut m = built(paginator(3).show_help(), &mut reg);
    let before = display_page(&mut m).unwrap();
    let shown = toggle_help(&mut m);
    assert_eq!(shown.page, 0);
    assert_eq!(shown.help, Some(m.help_text()));
    assert!(m.is_help_shown());
    let hidden = toggle_help(&mut m);
    assert_eq!(hidden, before);
    assert!(!m.is_help_shown());
}

#[test]
fn help_control_toggles_through_a_reaction() {
    let mut reg = EventDrivenMessageContainer::new();
    let mut m = built(paginator(2).show_help(), &mut reg);
    match react(&mut m, 7, HELP_EMOJI) {
        Some(MenuEffect::Render(r)) => assert!(r.help.is_some()),
        other => panic!("unexpected {:?}", other),
    }
    assert!(m.help_text().ends_with("Displays the next page"));
}

#[test]
fn page_change_hides_help() {
    let mut reg = EventDrivenMessageContainer::new();
    let mut m = built(paginator(2).show_help(), &mut reg);
    toggle_help(&mut m);
    assert_eq!(next_page(&mut m), Rendering { page: 1, help: None });
    assert!(!m.is_help_shown());
}

#[test]
fn own_reaction_is_ignored() {
    let mut reg = EventDrivenMessageContainer::new();
    let m = built(paginator(3), &mut reg);
    let d = m.on_reaction_add(Some(BOT), BOT, &NEXT_PAGE_EMOJI.to_string());
    assert_eq!(d, Ok(ReactionDecision::Ignore));
    assert_eq!(m.current_page(), 0);
}

#[test]
fn reaction_without_user_is_an_error() {
    let mut reg = EventDrivenMessageContainer::new();
    let m = built(paginator(3), &mut reg);
    let d = m.on_reaction_add(None, BOT, &NEXT_PAGE_EMOJI.to_string());
    assert_eq!(d, Err(Error::NoCache));
}

#[test]
fn unknown_reaction_is_only_removed() {
    let mut reg = EventDrivenMessageContainer::new();
    let m = built(paginator(3), &mut reg);
    let d = m.on_reaction_add(Some(7), BOT, &"🙂".to_string());
    assert_eq!(d, Ok(ReactionDecision::RemoveOnly));
}

#[test]
fn non_owner_reaction_is_removed_without_effect() {
    let mut reg = EventDrivenMessageContainer::new();
    let mut m = built(paginator(3).owner(42), &mut reg);
    let d = m.on_reaction_add(Some(7), BOT, &NEXT_PAGE_EMOJI.to_string());
    assert_eq!(d, Ok(ReactionDecision::RemoveOnly));
    assert_eq!(react(&mut m, 7, NEXT_PAGE_EMOJI), None);
    assert_eq!(m.current_page(), 0);
    let d = m.on_reaction_add(Some(42), BOT, &NEXT_PAGE_EMOJI.to_string());
    assert_eq!(
        d,
        Ok(ReactionDecision::RemoveAndRun(ActionContainer::new(2, ControlAction::NextPage)))
    );
}

#[test]
fn custom_and_close_controls_are_handed_back() {
    let mut reg = EventDrivenMessageContainer::new();
    let mut m = built(paginator(2).add_control(9, "⭐", ControlAction::Custom(77)), &mut reg);
    assert_eq!(react(&mut m, 7, "⭐"), Some(MenuEffect::Custom(77)));
    assert_eq!(react(&mut m, 7, CLOSE_MENU_EMOJI), Some(MenuEffect::Close));
    assert!(!m.is_frozen());
}

#[test]
fn close_menu_closes_and_deregisters() {
    let mut reg = EventDrivenMessageContainer::new();
    let mut m = built(paginator(2), &mut reg);
    assert_eq!(close_menu(&mut m, &mut reg), Some(0));
    assert!(m.is_frozen());
    assert_eq!(reg.get(&MessageHandle::from_raw_ids(10, 20)), None);
    let d = m.on_reaction_add(Some(7), BOT, &NEXT_PAGE_EMOJI.to_string());
    assert_eq!(d, Ok(ReactionDecision::Ignore));
    assert_eq!(m.update(0), TickDecision::Idle);
}

#[test]
fn later_control_on_same_reaction_wins() {
    let mut reg = EventDrivenMessageContainer::new();
    let b = paginator(2).add_control(7, NEXT_PAGE_EMOJI, ControlAction::Custom(5));
    let mut m = built(b, &mut reg);
    assert_eq!(m.control_symbols().len(), 3);
    assert_eq!(react(&mut m, 7, NEXT_PAGE_EMOJI), Some(MenuEffect::Custom(5)));
}

#[test]
fn add_controls_files_each_in_turn() {
    let mut reg = EventDrivenMessageContainer::new();
    let b = MenuBuilder::default().add_page(String::from("p")).add_controls(vec![
        (2, String::from("x"), ControlAction::Custom(1)),
        (1, String::from("y"), ControlAction::Custom(2)),
        (0, String::from("x"), ControlAction::Custom(3)),
    ]);
    let mut m = built(b, &mut reg);
    assert_eq!(m.control_symbols(), vec!["x", "y"]);
    assert_eq!(react(&mut m, 7, "x"), Some(MenuEffect::Custom(3)));
}

#[test]
fn build_fails_on_missing_start_page() {
    let mut reg = EventDrivenMessageContainer::new();
    let b = paginator(2).start_page(2);
    assert_eq!(b.first_page(), Err(Error::PageNotFound(2)));
    let r = b.build(&mut reg, 0, MessageHandle::from_raw_ids(1, 1));
    assert_eq!(r.err(), Some(Error::PageNotFound(2)));
    assert_eq!(reg.get(&MessageHandle::from_raw_ids(1, 1)), None);
    let empty: MenuBuilder<String> = MenuBuilder::new_paginator();
    assert_eq!(empty.first_page(), Err(Error::PageNotFound(0)));
}

#[test]
fn build_registers_the_menu() {
    let mut reg = EventDrivenMessageContainer::new();
    let b = paginator(3).start_page(1).timeout(5000).sticky(true);
    assert_eq!(b.first_page(), Ok(&String::from("page 1")));
    let (m, key) = b.build(&mut reg, 100, MessageHandle::from_raw_ids(3, 4)).unwrap();
    assert_eq!(reg.get(&MessageHandle::from_raw_ids(3, 4)), Some(key));
    assert_eq!(m.current_page(), 1);
    assert_eq!(m.page_count(), 3);
    assert_eq!(m.deadline(), 5100);
    assert!(m.is_sticky());
    assert_eq!(m.owner(), None);
    assert_eq!(m.get_current_page(), Ok(&String::from("page 1")));
    assert_eq!(m.get_page(2), Some(&String::from("page 2")));
    assert_eq!(m.get_page(3), None);
    assert_eq!(m.message(), MessageHandle::from_raw_ids(3, 4));
    let again = paginator(1).build(&mut reg, 0, MessageHandle::from_raw_ids(3, 4));
    assert_eq!(again.err(), Some(Error::AlreadyRegistered(MessageHandle::from_raw_ids(3, 4))));
}

#[test]
fn deadline_saturates() {
    let mut reg = EventDrivenMessageContainer::new();
    let b = paginator(1).timeout(u64::MAX);
    let (m, _) = b.build(&mut reg, 10, MessageHandle::from_raw_ids(3, 4)).unwrap();
    assert_eq!(m.deadline(), u64::MAX);
    let d: MenuBuilder<String> = MenuBuilder::default().add_page(String::new());
    let (m, _) = d.build(&mut reg, 1, MessageHandle::from_raw_ids(3, 5)).unwrap();
    assert_eq!(m.deadline(), 1 + DEFAULT_TIMEOUT_MS);
}

#[test]
fn paginator_controls_in_position_order() {
    let mut reg = EventDrivenMessageContainer::new();
    let m = built(paginator(2), &mut reg);
    assert_eq!(
        m.control_symbols(),
        vec![PREVIOUS_PAGE_EMOJI, CLOSE_MENU_EMOJI, NEXT_PAGE_EMOJI]
    );
}

#[test]
fn sticky_menu_relocates_when_newer_message_exists() {
    let mut reg = EventDrivenMessageContainer::new();
    let old = MessageHandle::from_raw_ids(10, 20);
    let (mut m, key) = paginator(3).sticky(true).timeout(1000).build(&mut reg, 0, old).unwrap();
    assert_eq!(m.update(500), TickDecision::CheckForNewer(old));
    let reactions_before = m.control_symbols().len();
    assert_eq!(m.recreate(&mut reg, 30), Ok(old));
    let new = MessageHandle::from_raw_ids(10, 30);
    assert_eq!(m.message(), new);
    assert_eq!(reg.get(&new), Some(key));
    assert_eq!(reg.get(&old), None);
    assert_eq!(m.control_symbols().len(), reactions_before);
}

#[test]
fn recreate_without_registry_entry_fails() {
    let mut reg = EventDrivenMessageContainer::new();
    let old = MessageHandle::from_raw_ids(10, 20);
    let mut m = built(paginator(1), &mut reg);
    reg.remove(&old);
    assert_eq!(m.recreate(&mut reg, 30), Err(Error::EntryMissing(old)));
    assert_eq!(m.message(), old);
    assert_eq!(reg.get(&MessageHandle::from_raw_ids(10, 30)), None);
}

#[test]
fn non_sticky_menu_idles_before_deadline() {
    let mut reg = EventDrivenMessageContainer::new();
    let (m, _) = paginator(1).timeout(1000).build(&mut reg, 0, MessageHandle::from_raw_ids(1, 2)).unwrap();
    assert_eq!(m.update(999), TickDecision::Idle);
    assert_eq!(m.update(1000), TickDecision::Close);
}

#[test]
fn expired_menu_leaves_registry_at_sweep() {
    let mut reg = EventDrivenMessageContainer::new();
    let id = MessageHandle::from_raw_ids(1, 2);
    let (mut m, key) = paginator(2).sticky(true).timeout(1000).build(&mut reg, 0, id).unwrap();
    let snapshot = reg.snapshot();
    assert_eq!(snapshot, vec![(id, key)]);
    assert_eq!(m.update(2000), TickDecision::Close);
    m.close();
    let finished = vec![m.is_frozen()];
    assert_eq!(retire_finished(&mut reg, &snapshot, &finished), vec![key]);
    assert_eq!(reg.get(&id), None);
}

#[test]
fn recreate_onto_the_same_message_fails() {
    let mut reg = EventDrivenMessageContainer::new();
    let old = MessageHandle::from_raw_ids(10, 20);
    let mut m = built(paginator(2), &mut reg);
    assert_eq!(m.recreate(&mut reg, 20), Err(Error::AlreadyRegistered(old)));
    assert_eq!(m.message(), old);
    assert_eq!(reg.get(&old), Some(0));
}

#[test]
fn steps_keep_the_pages() {
    let mut reg = EventDrivenMessageContainer::new();
    let mut m = built(paginator(3).show_help(), &mut reg);
    next_page(&mut m);
    previous_page(&mut m);
    toggle_help(&mut m);
    display_page(&mut m).unwrap();
    for i in 0..3 {
        assert_eq!(m.get_page(i), Some(&format!("page {}", i)));
    }
    assert_eq!(m.page_count(), 3);
}
