use saba_core::ui::{locate, AddressBar, Area, InputMode, Layout, Redraw};

const LAYOUT: Layout = Layout {
    x: 30,
    y: 50,
    width: 600,
    height: 400,
    title_bar_height: 24,
    toolbar_height: 26,
};

#[test]
fn clicks_outside_the_window() {
    assert_eq!(locate(&LAYOUT, 29, 100), Area::Outside);
    assert_eq!(locate(&LAYOUT, 631, 100), Area::Outside);
    assert_eq!(locate(&LAYOUT, 100, 49), Area::Outside);
    assert_eq!(locate(&LAYOUT, 100, 451), Area::Outside);
    assert_eq!(locate(&LAYOUT, i64::MIN, i64::MAX), Area::Outside);
    assert_eq!(locate(&LAYOUT, i64::MAX, i64::MIN), Area::Outside);
}

#[test]
fn clicks_on_the_toolbar() {
    assert_eq!(locate(&LAYOUT, 30, 74), Area::Toolbar);
    assert_eq!(locate(&LAYOUT, 630, 99), Area::Toolbar);
    assert_eq!(locate(&LAYOUT, 100, 80), Area::Toolbar);
}

#[test]
fn clicks_on_the_rest_of_the_window() {
    assert_eq!(locate(&LAYOUT, 30, 50), Area::Content);
    assert_eq!(locate(&LAYOUT, 100, 73), Area::Content);
    assert_eq!(locate(&LAYOUT, 100, 100), Area::Content);
    assert_eq!(locate(&LAYOUT, 630, 450), Area::Content);
}

#[test]
fn keys_are_ignored_until_the_toolbar_is_clicked() {
    let mut bar = AddressBar::new();
    assert_eq!(bar.mode(), InputMode::Normal);
    assert_eq!(bar.key(Some('a')), Redraw::Nothing);
    assert_eq!(bar.url(), "");
    assert_eq!(bar.click(Area::Toolbar), Redraw::Clear);
    assert_eq!(bar.mode(), InputMode::Editing);
    assert_eq!(bar.key(None), Redraw::Nothing);
    assert_eq!(bar.key(Some('a')), Redraw::Update);
    assert_eq!(bar.key(Some('b')), Redraw::Update);
    assert_eq!(bar.url(), "ab");
}

#[test]
fn delete_and_backspace_take_the_last_character() {
    let mut bar = AddressBar::new();
    bar.click(Area::Toolbar);
    bar.key(Some('a'));
    bar.key(Some('b'));
    bar.key(Some('c'));
    assert_eq!(bar.key(Some('\u{7f}')), Redraw::Update);
    assert_eq!(bar.url(), "ab");
    assert_eq!(bar.key(Some('\u{8}')), Redraw::Update);
    assert_eq!(bar.url(), "a");
    bar.key(Some('\u{8}'));
    assert_eq!(bar.key(Some('\u{8}')), Redraw::Update);
    assert_eq!(bar.url(), "");
}

#[test]
fn clicks_change_the_mode() {
    let mut bar = AddressBar::new();
    bar.click(Area::Toolbar);
    bar.key(Some('x'));
    assert_eq!(bar.click(Area::Outside), Redraw::Nothing);
    assert_eq!(bar.mode(), InputMode::Editing);
    assert_eq!(bar.url(), "x");
    assert_eq!(bar.click(Area::Content), Redraw::Nothing);
    assert_eq!(bar.mode(), InputMode::Normal);
    assert_eq!(bar.url(), "x");
    assert_eq!(bar.click(Area::Toolbar), Redraw::Clear);
    assert_eq!(bar.url(), "");
}
