//! Key handling of the terminal user interface.
//!
//! The caller reads the terminal's key events and hands each one over as a
//! [`KeyInput`]; [`handle_key`] decides what it does to the interface state
//! and whether a scan is asked for.

use crate::text::{all_digits, digits_value, is_digit, parse_decimal, pop_char, push_char};
use crate::tui::app::{next_of, prev_of, App, Tab};
use vstd::prelude::*;

verus! {

/// What the user asked for with a key press.
pub enum UserAction {
    /// Nothing to start.
    NoAction,
    StartSingleScan,
    StartFullScan,
}

/// The keys the interface tells apart.
pub enum Key {
    Char(char),
    Backspace,
    Enter,
    Esc,
    Tab,
    Left,
    Right,
    Up,
    Down,
    PageUp,
    PageDown,
    /// Any other key.
    Other,
}

/// One key event: the key, whether Shift was held, and whether the key was
/// pressed (rather than released or repeated).
pub struct KeyInput {
    pub key: Key,
    pub shift: bool,
    pub pressed: bool,
}

/// Characters the target field accepts: hexadecimal digits and the
/// separators of IPv4, IPv6 and CIDR notation.
pub open spec fn target_char(c: char) -> bool {
    ('0' <= c && c <= '9') || ('a' <= c && c <= 'f') || ('A' <= c && c <= 'F') || c == '.' || c == ':'
        || c == '/'
}

/// The largest value each settings field accepts while typing:
/// concurrency 10000, timeout 60 seconds, retries 10.
pub open spec fn setting_limit(field: usize) -> nat {
    if field == 0 {
        10000
    } else if field == 1 {
        60
    } else {
        10
    }
}

/// The text of a settings field (0 concurrency, 1 timeout, 2 retries).
pub open spec fn setting_text(app: App, field: usize) -> Seq<char> {
    if field == 0 {
        app.concurrency_input@
    } else if field == 1 {
        app.timeout_input@
    } else {
        app.retries_input@
    }
}

/// `after` is `before` with only the text of settings field `field` changed,
/// to `text`.
pub open spec fn setting_set(before: App, after: App, field: usize, text: Seq<char>) -> bool {
    &&& setting_text(after, field) == text
    &&& after == (App {
        concurrency_input: after.concurrency_input,
        timeout_input: after.timeout_input,
        retries_input: after.retries_input,
        ..before
    })
    &&& (field != 0 ==> after.concurrency_input == before.concurrency_input)
    &&& (field != 1 ==> after.timeout_input == before.timeout_input)
    &&& (field != 2 ==> after.retries_input == before.retries_input)
}

/// Text without its last character (unchanged when empty).
pub open spec fn without_last(s: Seq<char>) -> Seq<char> {
    if s.len() == 0 {
        s
    } else {
        s.drop_last()
    }
}

/// The target tab handles this key itself.
pub open spec fn target_tab_key(k: Key) -> bool {
    match k {
        Key::Char(c) => c == 's' || c == 'S' || c == 'q' || c == 'Q' || target_char(c),
        Key::Esc | Key::Backspace | Key::Enter => true,
        _ => false,
    }
}

/// The settings tab handles this key itself.
pub open spec fn settings_tab_key(k: Key) -> bool {
    match k {
        Key::Char(_) | Key::Backspace | Key::Down | Key::Up => true,
        _ => false,
    }
}

/// What a key does on the target tab.
pub open spec fn target_tab_effect(before: App, after: App, k: Key, action: UserAction) -> bool {
    match k {
        Key::Char(c) => if c == 's' || c == 'S' {
            after == before && action is StartSingleScan
        } else if c == 'q' || c == 'Q' {
            after == (App { should_quit: true, ..before }) && action is NoAction
        } else {
            after == (App { single_ip_input: after.single_ip_input, ..before })
                && after.single_ip_input@ == before.single_ip_input@.push(c) && action is NoAction
        },
        Key::Esc => after == (App { should_quit: true, ..before }) && action is NoAction,
        Key::Backspace => after == (App { single_ip_input: after.single_ip_input, ..before })
            && after.single_ip_input@ == without_last(before.single_ip_input@) && action is NoAction,
        _ => after == before && action is StartSingleScan,
    }
}

/// What a key does on the settings tab: digits are appended to the focused
/// field while it still reads as a number within its limit, Backspace
/// deletes, Up and Down move the focus among the three fields.
pub open spec fn settings_tab_effect(before: App, after: App, k: Key, action: UserAction) -> bool {
    let f = before.focused_field;
    &&& action is NoAction
    &&& match k {
        Key::Char(c) => {
            let candidate = setting_text(before, f).push(c);
            if is_digit(c) && f < 3 && (crate::text::decimal_value(candidate) matches Some(v) && v
                <= setting_limit(f)) {
                setting_set(before, after, f, candidate)
            } else {
                after == before
            }
        },
        Key::Backspace => if f < 3 {
            setting_set(before, after, f, without_last(setting_text(before, f)))
        } else {
            after == before
        },
        Key::Down => after == (App { focused_field: ((f + 1) % 3) as usize, ..before }),
        _ => after == (App { focused_field: if f == 0 { 2 } else { (f - 1) as usize }, ..before }),
    }
}

/// What a key does anywhere else (and on the two tabs above, for the keys
/// they leave alone): quit, move between tabs, start scans, pause or resume
/// the running scan with Space, and move the selection in the list of
/// findings.
pub open spec fn global_effect(before: App, after: App, k: KeyInput, action: UserAction) -> bool {
    let total = before.filtered_log_indices@.len();
    let sel = before.selected_log_index;
    match k.key {
        Key::Char(c) => if c == 'q' {
            after == (App { should_quit: true, ..before }) && action is NoAction
        } else if c == 'f' || c == 'F' {
            after == before && action is StartFullScan
        } else if c == 's' || c == 'S' {
            after == before && action is StartSingleScan
        } else if c == ' ' && before.is_scanning {
            after == (App { scan_paused: !before.scan_paused, ..before }) && action is NoAction
        } else {
            after == before && action is NoAction
        },
        Key::Esc => after == (App { should_quit: true, ..before }) && action is NoAction,
        Key::Tab => action is NoAction && after == (App {
            active_tab: if k.shift {
                prev_of(before.active_tab)
            } else {
                next_of(before.active_tab)
            },
            ..before
        }),
        Key::Right => action is NoAction && after == (App { active_tab: next_of(before.active_tab), ..before }),
        Key::Left => action is NoAction && after == (App { active_tab: prev_of(before.active_tab), ..before }),
        Key::Down => action is NoAction && after == (App {
            selected_log_index: if total > 0 && sel < total - 1 {
                (sel + 1) as usize
            } else {
                sel
            },
            ..before
        }),
        Key::Up => action is NoAction && after == (App {
            selected_log_index: if sel > 0 {
                (sel - 1) as usize
            } else {
                sel
            },
            ..before
        }),
        Key::PageDown => action is NoAction && after == (App {
            selected_log_index: if total == 0 {
                sel
            } else if sel + 15 <= total - 1 {
                (sel + 15) as usize
            } else {
                (total - 1) as usize
            },
            ..before
        }),
        Key::PageUp => action is NoAction && after == (App {
            selected_log_index: if sel >= 15 {
                (sel - 15) as usize
            } else {
                0
            },
            ..before
        }),
        _ => after == before && action is NoAction,
    }
}

/// The full effect of a key event.
pub open spec fn key_effect(before: App, after: App, k: KeyInput, action: UserAction) -> bool {
    if !k.pressed {
        after == before && action is NoAction
    } else if before.active_tab == Tab::SingleTarget && target_tab_key(k.key) {
        target_tab_effect(before, after, k.key, action)
    } else if before.active_tab == Tab::Settings && settings_tab_key(k.key) {
        settings_tab_effect(before, after, k.key, action)
    } else {
        global_effect(before, after, k, action)
    }
}

fn accepts_digit(text: &String, c: char, limit: u64) -> (ok: bool)
    ensures
        ok == (crate::text::decimal_value(text@.push(c)) matches Some(v) && v <= limit),
{
    let mut candidate = text.clone();
    push_char(&mut candidate, c);
    parse_decimal(candidate.as_str(), limit).is_some()
}

fn handle_settings_key(app: &mut App, key: &Key)
    requires
        settings_tab_key(*key),
    ensures
        settings_tab_effect(*old(app), *final(app), *key, UserAction::NoAction),
{
    let f = app.focused_field;
    match key {
        Key::Char(c) => {
            let c = *c;
            if '0' <= c && c <= '9' {
                if f == 0 {
                    if accepts_digit(&app.concurrency_input, c, 10000) {
                        push_char(&mut app.concurrency_input, c);
                    }
                } else if f == 1 {
                    if accepts_digit(&app.timeout_input, c, 60) {
                        push_char(&mut app.timeout_input, c);
                    }
                } else if f == 2 {
                    if accepts_digit(&app.retries_input, c, 10) {
                        push_char(&mut app.retries_input, c);
                    }
                }
            }
        },
        Key::Backspace => {
            if f == 0 {
                pop_char(&mut app.concurrency_input);
            } else if f == 1 {
                pop_char(&mut app.timeout_input);
            } else if f == 2 {
                pop_char(&mut app.retries_input);
            }
        },
        Key::Down => {
            app.focused_field = (f % 3 + 1) % 3;
        },
        _ => {
            app.focused_field = if f == 0 { 2 } else { f - 1 };
        },
    }
}

/// Applies one key event to the interface (see [`key_effect`]) and says
/// which scan, if any, it asks for.
pub fn handle_key(app: &mut App, input: KeyInput) -> (action: UserAction)
    ensures
        key_effect(*old(app), *final(app), input, action),
{
    if !input.pressed {
        return UserAction::NoAction;
    }
    if app.active_tab == Tab::SingleTarget {
        match input.key {
            Key::Char(c) => {
                if c == 's' || c == 'S' {
                    return UserAction::StartSingleScan;
                } else if c == 'q' || c == 'Q' {
                    app.should_quit = true;
                    return UserAction::NoAction;
                } else if ('0' <= c && c <= '9') || ('a' <= c && c <= 'f') || ('A' <= c && c <= 'F') || c == '.'
                    || c == ':' || c == '/' {
                    push_char(&mut app.single_ip_input, c);
                    return UserAction::NoAction;
                }
            },
            Key::Esc => {
                app.should_quit = true;
                return UserAction::NoAction;
            },
            Key::Backspace => {
                pop_char(&mut app.single_ip_input);
                return UserAction::NoAction;
            },
            Key::Enter => {
                return UserAction::StartSingleScan;
            },
            _ => {},
        }
    } else if app.active_tab == Tab::Settings {
        let own = match input.key {
            Key::Char(_) | Key::Backspace | Key::Down | Key::Up => true,
            _ => false,
        };
        if own {
            handle_settings_key(app, &input.key);
            return UserAction::NoAction;
        }
    }
    let total = app.filtered_log_indices.len();
    let sel = app.selected_log_index;
    match input.key {
        Key::Char(c) => {
            if c == 'q' {
                app.should_quit = true;
            } else if c == 'f' || c == 'F' {
                return UserAction::StartFullScan;
            } else if c == 's' || c == 'S' {
                return UserAction::StartSingleScan;
            } else if c == ' ' && app.is_scanning {
                app.scan_paused = !app.scan_paused;
            }
        },
        Key::Esc => {
            app.should_quit = true;
        },
        Key::Tab => {
            if input.shift {
                app.prev_tab();
            } else {
                app.next_tab();
            }
        },
        Key::Right => app.next_tab(),
        Key::Left => app.prev_tab(),
        Key::Down => {
            if total > 0 && sel < total - 1 {
                app.selected_log_index = sel + 1;
            }
        },
        Key::Up => {
            if sel > 0 {
                app.selected_log_index = sel - 1;
            }
        },
        Key::PageDown => {
            if total > 0 {
                app.selected_log_index = if total - 1 >= 15 && sel <= total - 1 - 15 {
                    sel + 15
                } else {
                    total - 1
                };
            }
        },
        Key::PageUp => {
            app.selected_log_index = if sel >= 15 { sel - 15 } else { 0 };
        },
        _ => {},
    }
    UserAction::NoAction
}


/// A settings text that holds only digits and reads as a number no larger
/// than `limit` (the empty text counts as 0).
pub open spec fn within_limit(s: Seq<char>, limit: nat) -> bool {
    all_digits(s) && digits_value(s) <= limit
}

/// Editing keeps each settings field within its limit (concurrency 10000,
/// timeout 60, retries 10): a field that holds digits within its limit
/// still does after any key.
pub proof fn lemma_settings_stay_within_limits(before: App, after: App, k: KeyInput, action: UserAction, f: usize)
    requires
        key_effect(before, after, k, action),
        f < 3,
        within_limit(setting_text(before, f), setting_limit(f)),
    ensures
        within_limit(setting_text(after, f), setting_limit(f)),
{
    let s = setting_text(before, f);
    if k.pressed && before.active_tab == Tab::Settings && settings_tab_key(k.key) && before.focused_field == f {
        match k.key {
            Key::Char(c) => {
                let candidate = s.push(c);
                if is_digit(c) && (crate::text::decimal_value(candidate) matches Some(v) && v <= setting_limit(f)) {
                    assert forall|i: int| 0 <= i < candidate.len() implies is_digit(#[trigger] candidate[i]) by {
                        if i < s.len() {
                            assert(candidate[i] == s[i]);
                        }
                    }
                    assert(candidate[0] != '+');
                    assert(crate::text::unsigned_digits(candidate) == candidate);
                }
            },
            Key::Backspace => {
                if s.len() > 0 {
                    crate::text::lemma_digits_value_prefix(s, s.len() - 1);
                    assert(s.take(s.len() - 1) =~= s.drop_last());
                    assert forall|i: int| 0 <= i < s.drop_last().len() implies is_digit(#[trigger] s.drop_last()[i]) by {
                        assert(s.drop_last()[i] == s[i]);
                    }
                }
            },
            _ => {},
        }
    }
}

/// The selection in the list of findings never leaves the list through a
/// key: a selection within the list (or at its start) stays so.
pub proof fn lemma_selection_stays_in_list(before: App, after: App, k: KeyInput, action: UserAction)
    requires
        key_effect(before, after, k, action),
        before.selected_log_index < before.filtered_log_indices@.len() || before.selected_log_index == 0,
    ensures
        after.filtered_log_indices@ == before.filtered_log_indices@,
        after.selected_log_index < after.filtered_log_indices@.len() || after.selected_log_index == 0,
{
}

} // verus!
