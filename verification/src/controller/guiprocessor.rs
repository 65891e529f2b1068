use vstd::prelude::*;

verus! {

/// The pane that has the keyboard focus, moved on by the tab key.
#[derive(Clone, Copy, Debug, PartialEq, Eq, Structural)]
pub enum FocusByTab {
    Unfocused,
    FocusSubscriptions,
    FocusMessages,
    FocusBrowser,
}

/// The pane after `f` in tab order: subscriptions, messages, browser, and round again.
pub open spec fn focus_next(f: FocusByTab) -> FocusByTab {
    match f {
        FocusByTab::Unfocused => FocusByTab::FocusSubscriptions,
        FocusByTab::FocusSubscriptions => FocusByTab::FocusMessages,
        FocusByTab::FocusMessages => FocusByTab::FocusBrowser,
        FocusByTab::FocusBrowser => FocusByTab::FocusSubscriptions,
    }
}

/// The pane before `f` in tab order.
pub open spec fn focus_prev(f: FocusByTab) -> FocusByTab {
    match f {
        FocusByTab::Unfocused => FocusByTab::FocusBrowser,
        FocusByTab::FocusSubscriptions => FocusByTab::FocusBrowser,
        FocusByTab::FocusMessages => FocusByTab::FocusSubscriptions,
        FocusByTab::FocusBrowser => FocusByTab::FocusMessages,
    }
}

impl FocusByTab {
    /// The pane after this one in tab order.
    pub fn next(&self) -> (r: FocusByTab)
        ensures
            r == focus_next(*self),
    {
        match self {
            FocusByTab::Unfocused => FocusByTab::FocusSubscriptions,
            FocusByTab::FocusSubscriptions => FocusByTab::FocusMessages,
            FocusByTab::FocusMessages => FocusByTab::FocusBrowser,
            FocusByTab::FocusBrowser => FocusByTab::FocusSubscriptions,
        }
    }

    /// The pane before this one in tab order.
    pub fn prev(&self) -> (r: FocusByTab)
        ensures
            r == focus_prev(*self),
    {
        match self {
            FocusByTab::Unfocused => FocusByTab::FocusBrowser,
            FocusByTab::FocusSubscriptions => FocusByTab::FocusBrowser,
            FocusByTab::FocusMessages => FocusByTab::FocusSubscriptions,
            FocusByTab::FocusBrowser => FocusByTab::FocusMessages,
        }
    }
}

/// Tab and shift-tab undo each other on the three panes, and three tabs come back to the
/// same pane; from no focus, either key lands on a pane.
pub proof fn lemma_focus_cycle(f: FocusByTab)
    ensures
        f != FocusByTab::Unfocused ==> focus_prev(focus_next(f)) == f && focus_next(focus_prev(f)) == f,
        f != FocusByTab::Unfocused ==> focus_next(focus_next(focus_next(f))) == f,
        focus_next(f) != FocusByTab::Unfocused && focus_prev(f) != FocusByTab::Unfocused,
{
}

/// The keys that the application reacts to.
#[allow(non_camel_case_types)]
#[derive(Clone, Copy, Debug, PartialEq, Eq, Structural)]
pub enum KeyCodes {
    Nothing,
    Tab,
    ShiftTab,
    Space,
    Escape,
    Enter,
    F1,
    F2,
    F3,
    F4,
    CursorUp,
    CursorDown,
    CursorRight,
    CursorLeft,
    Key_A,
    Key_a,
    Key_B,
    Key_b,
    Key_c,
    Key_e,
    Key_N,
    Key_n,
    Key_s,
    Key_v,
    Key_x,
    Delete,
    Backspace,
}

/// What a key press asks of the application.
#[derive(Clone, Copy, Debug, PartialEq, Eq, Structural)]
pub enum KeyAction {
    /// No action.
    Ignore,
    /// Mark all messages of the subscription read.
    MarkAsRead(isize),
    /// Move the message cursor to the previous unread message.
    PreviousUnreadMessage,
    /// Move the message cursor to the next unread message.
    LaterUnreadMessage,
    /// Select the subscription above (`true`) or below.
    OtherSubscription(bool),
    /// Delete the selected messages.
    DeleteMessages,
    /// Open the selected message in the web browser.
    LaunchBrowser,
    /// Empty the search entry.
    ClearSearch,
}

/// The widget that gets the keyboard focus after the focus moved.
#[derive(Clone, Copy, Debug, PartialEq, Eq, Structural)]
pub enum FocusTarget {
    SubscriptionTree,
    MessageList,
    Browser,
    NoWidget,
}

/// The action for a key: `a` marks the selected subscription read (where one is
/// selected), `s` and `x` move to the previous and next unread message, `e` and `c`
/// select the subscription above and below, delete and space act on the messages when
/// they have the focus, backspace empties the search entry.
pub open spec fn key_action(kc: KeyCodes, focus: FocusByTab, subscription_id: isize) -> KeyAction {
    match kc {
        KeyCodes::Key_a => if subscription_id > 0 { KeyAction::MarkAsRead(subscription_id) } else { KeyAction::Ignore },
        KeyCodes::Key_s => KeyAction::PreviousUnreadMessage,
        KeyCodes::Key_x => KeyAction::LaterUnreadMessage,
        KeyCodes::Key_e => KeyAction::OtherSubscription(true),
        KeyCodes::Key_c => KeyAction::OtherSubscription(false),
        KeyCodes::Delete => if focus == FocusByTab::FocusMessages { KeyAction::DeleteMessages } else { KeyAction::Ignore },
        KeyCodes::Space => if focus == FocusByTab::FocusMessages { KeyAction::LaunchBrowser } else { KeyAction::Ignore },
        KeyCodes::Backspace => KeyAction::ClearSearch,
        _ => KeyAction::Ignore,
    }
}

/// The focus after a key: tab and shift-tab move it, other keys keep it.
pub open spec fn key_focus(kc: KeyCodes, focus: FocusByTab) -> FocusByTab {
    match kc {
        KeyCodes::Tab => focus_next(focus),
        KeyCodes::ShiftTab => focus_prev(focus),
        _ => focus,
    }
}

/// The widget for a pane.
pub open spec fn focus_widget(f: FocusByTab) -> FocusTarget {
    match f {
        FocusByTab::FocusSubscriptions => FocusTarget::SubscriptionTree,
        FocusByTab::FocusMessages => FocusTarget::MessageList,
        FocusByTab::FocusBrowser => FocusTarget::Browser,
        FocusByTab::Unfocused => FocusTarget::NoWidget,
    }
}

/// Decides on a key press: the action, the new focus, and, where the focus moved, the
/// widget that is to get it (see `key_action` and `key_focus`).
pub fn process_key_press(kc: KeyCodes, focus: FocusByTab, subscription_id: isize) -> (r: (KeyAction, FocusByTab, Option<FocusTarget>))
    ensures
        r.0 == key_action(kc, focus, subscription_id),
        r.1 == key_focus(kc, focus),
        r.2 == if key_focus(kc, focus) != focus { Some(focus_widget(key_focus(kc, focus))) } else { None::<FocusTarget> },
{
    let mut new_focus = focus;
    let mut action = KeyAction::Ignore;
    match kc {
        KeyCodes::Tab => {
            new_focus = focus.next();
        },
        KeyCodes::ShiftTab => {
            new_focus = focus.prev();
        },
        KeyCodes::Key_a => {
            if subscription_id > 0 {
                action = KeyAction::MarkAsRead(subscription_id);
            }
        },
        KeyCodes::Key_s => {
            action = KeyAction::PreviousUnreadMessage;
        },
        KeyCodes::Key_x => {
            action = KeyAction::LaterUnreadMessage;
        },
        KeyCodes::Key_e => {
            action = KeyAction::OtherSubscription(true);
        },
        KeyCodes::Key_c => {
            action = KeyAction::OtherSubscription(false);
        },
        KeyCodes::Delete => {
            if focus == FocusByTab::FocusMessages {
                action = KeyAction::DeleteMessages;
            }
        },
        KeyCodes::Space => {
            if focus == FocusByTab::FocusMessages {
                action = KeyAction::LaunchBrowser;
            }
        },
        KeyCodes::Backspace => {
            action = KeyAction::ClearSearch;
        },
        _ => {},
    }
    let target = if new_focus != focus {
        Some(match new_focus {
            FocusByTab::FocusSubscriptions => FocusTarget::SubscriptionTree,
            FocusByTab::FocusMessages => FocusTarget::MessageList,
            FocusByTab::FocusBrowser => FocusTarget::Browser,
            FocusByTab::Unfocused => FocusTarget::NoWidget,
        })
    } else {
        None
    };
    (action, new_focus, target)
}

/// The character that shows a kind of download job in the status bar: arrows for feeds,
/// a diamond for icons, a database sign for the clean-up, an up arrow for the browser,
/// `_` otherwise.
pub open spec fn dl_char(kind: u8) -> char {
    if kind == 1 { '\u{2193}' }
    else if kind == 2 { '\u{2662}' }
    else if kind == 3 { '\u{21d3}' }
    else if kind == 4 { '\u{26c1}' }
    else if kind == 5 { '\u{21d3}' }
    else if kind == 6 { '\u{2191}' }
    else { '_' }
}

/// The status bar character for a kind of download job.
pub fn dl_char_for_kind(kind: u8) -> (r: char)
    ensures
        r == dl_char(kind),
{
    match kind {
        1 => '\u{2193}',
        2 => '\u{2662}',
        3 => '\u{21d3}',
        4 => '\u{26c1}',
        5 => '\u{21d3}',
        6 => '\u{2191}',
        _ => '_',
    }
}

/// The widget whose frame shows where the focus is, and the mark it gets: 1 when the
/// marker is active, 2 when not. The subscription tree and the message list are marked
/// on their scrolled windows, the browser on its box. Nothing without a focused pane.
pub fn switch_focus_marker(focus: FocusByTab, marker_active: bool) -> (r: Option<(FocusTarget, u8)>)
    ensures
        r == match focus {
            FocusByTab::FocusSubscriptions => Some((FocusTarget::SubscriptionTree, if marker_active { 1u8 } else { 2u8 })),
            FocusByTab::FocusMessages => Some((FocusTarget::MessageList, if marker_active { 1u8 } else { 2u8 })),
            FocusByTab::FocusBrowser => Some((FocusTarget::Browser, if marker_active { 1u8 } else { 2u8 })),
            FocusByTab::Unfocused => None,
        },
{
    let mark: u8 = if marker_active { 1 } else { 2 };
    match focus {
        FocusByTab::FocusSubscriptions => Some((FocusTarget::SubscriptionTree, mark)),
        FocusByTab::FocusMessages => Some((FocusTarget::MessageList, mark)),
        FocusByTab::FocusBrowser => Some((FocusTarget::Browser, mark)),
        FocusByTab::Unfocused => None,
    }
}

} // verus!
