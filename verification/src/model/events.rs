use vstd::prelude::*;
use crate::model::{App, Mode};
use crate::model::text::{with_char_at, without_char_before};
use crate::model::actions::{Action, Effect};
use crate::schema::TableId;
use crate::util::Vector2i;

verus! {

/// A key, as far as the key bindings tell keys apart.
#[derive(Debug)]
pub enum KeyCode {
    Char(char),
    Esc,
    Tab,
    Enter,
    Backspace,
    Up,
    Down,
    Left,
    Right,
    PageUp,
    PageDown,
    Other,
}

/// A key event: the key, whether it is a press (rather than a repeat or a
/// release), and whether shift was held.
#[derive(Debug)]
pub struct KeyEvent {
    pub code: KeyCode,
    pub press: bool,
    pub shift: bool,
}

/// A terminal event.
#[derive(Debug)]
pub enum Event {
    FocusGained,
    FocusLost,
    Key(KeyEvent),
    Mouse,
    Paste,
    Resize,
}

impl Event {
    /// Whether the queued actions run after the event: they do after every
    /// event but a key that is not pressed (a repeat or a release), which is
    /// ignored altogether.
    pub fn runs_queued_actions(&self) -> (r: bool)
        ensures
            r == !(*self matches Event::Key(k) && !k.press),
    {
        match self {
            Event::Key(k) => k.press,
            _ => true,
        }
    }
}

/// The action a key queues in normal mode, other than the keys that switch
/// sheets or quit.
pub open spec fn normal_key_action(code: KeyCode) -> Option<Action> {
    match code {
        KeyCode::Right => Some(Action::MoveCursor(Vector2i { x: 1, y: 0 })),
        KeyCode::Left => Some(Action::MoveCursor(Vector2i { x: -1i32, y: 0 })),
        KeyCode::Up => Some(Action::MoveCursor(Vector2i { x: 0, y: -1i32 })),
        KeyCode::Down => Some(Action::MoveCursor(Vector2i { x: 0, y: 1 })),
        KeyCode::PageUp => Some(Action::Page(-1i32)),
        KeyCode::PageDown => Some(Action::Page(1)),
        KeyCode::Tab => Some(Action::NextCell),
        KeyCode::Enter => Some(Action::EditCell { clear: false }),
        KeyCode::Char(c) => if c == ',' {
            Some(Action::PrevGroup)
        } else if c == '.' {
            Some(Action::NextGroup)
        } else if c == 'a' {
            Some(Action::AddRow)
        } else if c == 'd' {
            Some(Action::DeleteRow)
        } else if c == 'h' {
            Some(Action::MoveCursor(Vector2i { x: -1i32, y: 0 }))
        } else if c == 'j' {
            Some(Action::MoveCursor(Vector2i { x: 0, y: 1 }))
        } else if c == 'g' {
            Some(Action::SetGroupBy)
        } else if c == 'k' {
            Some(Action::MoveCursor(Vector2i { x: 0, y: -1i32 }))
        } else if c == 'l' {
            Some(Action::MoveCursor(Vector2i { x: 1, y: 0 }))
        } else if c == 'e' {
            Some(Action::EditCell { clear: false })
        } else if c == 'E' {
            Some(Action::EditCell { clear: true })
        } else {
            None
        },
        _ => None,
    }
}

/// In normal mode the vim keys move like the arrows (`k` like Up, `j` like
/// Down, `h` like Left, `l` like Right), and the arrows move the cursor one
/// step: Up and Down change only the row, Left and Right only the column, Up
/// and Left towards the first row and column, and each pair undoes itself.
pub proof fn lemma_vim_keys_move_like_arrows()
    ensures
        normal_key_action(KeyCode::Char('k')) == normal_key_action(KeyCode::Up),
        normal_key_action(KeyCode::Char('j')) == normal_key_action(KeyCode::Down),
        normal_key_action(KeyCode::Char('h')) == normal_key_action(KeyCode::Left),
        normal_key_action(KeyCode::Char('l')) == normal_key_action(KeyCode::Right),
        normal_key_action(KeyCode::Up) matches Some(Action::MoveCursor(up)) && up.x == 0 && up.y == -1,
        normal_key_action(KeyCode::Left) matches Some(Action::MoveCursor(left)) && left.x == -1 && left.y == 0,
        normal_key_action(KeyCode::Up) matches Some(Action::MoveCursor(up)) && normal_key_action(
            KeyCode::Down,
        ) matches Some(Action::MoveCursor(down)) && up.x + down.x == 0 && up.y + down.y == 0,
        normal_key_action(KeyCode::Left) matches Some(Action::MoveCursor(left)) && normal_key_action(
            KeyCode::Right,
        ) matches Some(Action::MoveCursor(right)) && left.x + right.x == 0 && left.y + right.y == 0,
{
}

/// The actions a key queues while a cell's text is edited.
pub open spec fn editing_key_actions(code: KeyCode) -> Seq<Action> {
    match code {
        KeyCode::Esc => seq![Action::CancelEdit],
        KeyCode::Tab => seq![Action::FinishEdit, Action::NextCell],
        KeyCode::Enter => seq![Action::FinishEdit],
        _ => Seq::empty(),
    }
}

/// The actions a key queues while a related record is searched for.
pub open spec fn search_key_actions(code: KeyCode, shift: bool) -> Seq<Action> {
    match code {
        KeyCode::Esc => seq![Action::SetMode(Mode::Normal)],
        KeyCode::Enter => seq![Action::FinishEdit],
        KeyCode::Down => seq![Action::AutocompleteNext],
        KeyCode::Tab => if shift {
            seq![Action::AutocompletePrev]
        } else {
            seq![Action::AutocompleteNext]
        },
        KeyCode::Up => seq![Action::AutocompletePrev],
        _ => Seq::empty(),
    }
}

/// The sheet before the current one, wrapping to the last.
pub open spec fn previous_sheet(cur: usize, count: nat) -> usize {
    if cur == 0 {
        (count - 1) as usize
    } else {
        (cur - 1) as usize
    }
}

/// The sheet after the current one, wrapping to the first.
pub open spec fn following_sheet(cur: usize, count: nat) -> usize {
    ((cur + 1) % (count as int)) as usize
}

/// A pressed key in normal mode, without shift.
pub open spec fn pressed(code: KeyCode) -> Event {
    Event::Key(KeyEvent { code, press: true, shift: false })
}

/// `[` undoes `]`: from any sheet, `]` then `[` comes back to it, whatever
/// the number of tables, and `]` goes to the sheet just after it, wrapping to
/// the first.
pub proof fn lemma_next_then_previous_sheet(pre: App, mid: App, post: App, e1: Seq<Effect>, e2: Seq<Effect>)
    requires
        pre.mode is Normal,
        pre.current_sheet.0 < pre.schema.tables@.len(),
        App::event_result(pre, pressed(KeyCode::Char(']')), mid, e1),
        App::event_result(mid, pressed(KeyCode::Char('[')), post, e2),
    ensures
        post.current_sheet == pre.current_sheet,
        mid.current_sheet.0 == (pre.current_sheet.0 + 1) % (pre.schema.tables@.len() as int),
        mid.current_sheet.0 < pre.schema.tables@.len(),
{
    let n = pre.schema.tables@.len();
    let c = pre.current_sheet.0 as int;
    assert(pre.schema.tables.len() == n);
    assert(mid.current_sheet.0 == following_sheet(pre.current_sheet.0, n));
    assert(mid.mode == pre.mode);
    assert(mid.schema == pre.schema);
    if c + 1 < n {
        vstd::arithmetic::div_mod::lemma_small_mod((c + 1) as nat, n);
        assert(mid.current_sheet.0 == c + 1);
    } else {
        vstd::arithmetic::div_mod::lemma_mod_self_0(n as int);
        assert(mid.current_sheet.0 == 0);
    }
    assert(post.current_sheet == TableId(previous_sheet(mid.current_sheet.0, n)));
}

/// `]` undoes `[`: from any sheet, `[` then `]` comes back to it, whatever
/// the number of tables; `[` from a sheet after the first goes to the one
/// just before it, and from the first to the last.
pub proof fn lemma_previous_then_next_sheet(pre: App, mid: App, post: App, e1: Seq<Effect>, e2: Seq<Effect>)
    requires
        pre.mode is Normal,
        pre.current_sheet.0 < pre.schema.tables@.len(),
        App::event_result(pre, pressed(KeyCode::Char('[')), mid, e1),
        App::event_result(mid, pressed(KeyCode::Char(']')), post, e2),
    ensures
        post.current_sheet == pre.current_sheet,
        pre.current_sheet.0 > 0 ==> mid.current_sheet.0 == pre.current_sheet.0 - 1,
        pre.current_sheet.0 == 0 ==> mid.current_sheet.0 == pre.schema.tables@.len() - 1,
{
    let n = pre.schema.tables@.len();
    let c = pre.current_sheet.0 as int;
    assert(pre.schema.tables.len() == n);
    assert(mid.current_sheet.0 == previous_sheet(pre.current_sheet.0, n));
    assert(mid.mode == pre.mode);
    assert(mid.schema == pre.schema);
    let m = mid.current_sheet.0 as int;
    assert(post.current_sheet == TableId(following_sheet(mid.current_sheet.0, n)));
    if c == 0 {
        assert(m == n - 1);
        vstd::arithmetic::div_mod::lemma_mod_self_0(n as int);
    } else {
        assert(m == c - 1);
        vstd::arithmetic::div_mod::lemma_small_mod(c as nat, n);
    }
}

/// In normal mode a vim key queues exactly what its arrow queues.
pub proof fn lemma_vim_key_events_like_arrows(pre: App, post1: App, post2: App, e1: Seq<Effect>, e2: Seq<Effect>, vim: char)
    requires
        pre.mode is Normal,
        vim == 'k' || vim == 'j' || vim == 'h' || vim == 'l',
        App::event_result(pre, pressed(KeyCode::Char(vim)), post1, e1),
        App::event_result(
            pre,
            pressed(
                if vim == 'k' {
                    KeyCode::Up
                } else if vim == 'j' {
                    KeyCode::Down
                } else if vim == 'h' {
                    KeyCode::Left
                } else {
                    KeyCode::Right
                },
            ),
            post2,
            e2,
        ),
    ensures
        post1.command_buffer@ == post2.command_buffer@,
        post1.current_sheet == post2.current_sheet,
        e1 == e2,
{
    lemma_vim_keys_move_like_arrows();
}

impl App {
    /// The event can be handled: the edited text can take one more character.
    pub open spec fn event_ok(&self) -> bool {
        match self.mode {
            Mode::Normal => true,
            Mode::EditingCell(t) => t.input@.len() < usize::MAX,
            Mode::EditBelongsTo { search, .. } => search.input@.len() < usize::MAX,
        }
    }

    /// The effect of an event on the model, and the work it leaves to do
    /// outside before the queued actions run.
    pub open spec fn event_result(pre: App, event: Event, post: App, effects: Seq<Effect>) -> bool {
        &&& post.schema == pre.schema
        &&& post.sheets_cache == pre.sheets_cache
        &&& post.available_size == pre.available_size
        &&& post.show_debug == pre.show_debug
        &&& post.debug_text == pre.debug_text
        &&& match event {
            Event::Key(k) => if !k.press {
                App::unchanged_but_queue(pre, post, Seq::empty()) && effects.len() == 0
            } else {
                match pre.mode {
                    Mode::EditingCell(t) => match k.code {
                        KeyCode::Char(c) => {
                            &&& post.mode matches Mode::EditingCell(t2) && t2.input@ == with_char_at(
                                t.input@,
                                t.char_index as int,
                                c,
                            ) && t2.char_index
                                == t.char_index + 1
                            &&& post.command_buffer@ == pre.command_buffer@
                            &&& post.current_sheet == pre.current_sheet
                            &&& post.should_quit == pre.should_quit
                            &&& effects.len() == 0
                        },
                        KeyCode::Backspace => {
                            &&& post.mode matches Mode::EditingCell(t2) && (t.char_index == 0 ==> t2
                                == t) && (t.char_index > 0 ==> t2.input@ == without_char_before(
                                t.input@,
                                t.char_index as int,
                            ) && t2.char_index == t.char_index
                                - 1)
                            &&& post.command_buffer@ == pre.command_buffer@
                            &&& post.current_sheet == pre.current_sheet
                            &&& post.should_quit == pre.should_quit
                            &&& effects.len() == 0
                        },
                        _ => App::unchanged_but_queue(pre, post, editing_key_actions(k.code))
                            && effects.len() == 0,
                    },
                    Mode::EditBelongsTo { search, results, selected_index } => match k.code {
                        KeyCode::Char(c) => {
                            &&& post.mode matches Mode::EditBelongsTo {
                                search: s2,
                                results: r2,
                                selected_index: i2,
                            } && s2.input@ == with_char_at(search.input@, search.char_index as int, c)
                                && s2.char_index
                                == search.char_index + 1 && r2 == results && i2 == selected_index
                            &&& post.command_buffer@ == pre.command_buffer@
                            &&& post.current_sheet == pre.current_sheet
                            &&& post.should_quit == pre.should_quit
                            &&& effects == seq![Effect::RefreshAutocomplete]
                        },
                        KeyCode::Backspace => {
                            &&& post.mode matches Mode::EditBelongsTo {
                                search: s2,
                                results: r2,
                                selected_index: i2,
                            } && (search.char_index == 0 ==> s2 == search) && (search.char_index
                                > 0 ==> s2.input@ == without_char_before(search.input@, search.char_index as int)
                                && s2.char_index
                                == search.char_index - 1) && r2 == results && i2 == selected_index
                            &&& post.command_buffer@ == pre.command_buffer@
                            &&& post.current_sheet == pre.current_sheet
                            &&& post.should_quit == pre.should_quit
                            &&& effects == seq![Effect::RefreshAutocomplete]
                        },
                        _ => App::unchanged_but_queue(pre, post, search_key_actions(k.code, k.shift))
                            && effects.len() == 0,
                    },
                    Mode::Normal => {
                        let count = pre.schema.tables@.len();
                        let cur = pre.current_sheet.0;
                        if k.code matches KeyCode::Char(c) && c == '[' {
                            &&& post.current_sheet == TableId(previous_sheet(cur, count))
                            &&& post.command_buffer@ == pre.command_buffer@
                            &&& post.mode == pre.mode
                            &&& post.should_quit == pre.should_quit
                            &&& effects == seq![Effect::PopulateSheet(post.current_sheet)]
                        } else if k.code matches KeyCode::Char(c) && c == ']' {
                            &&& post.current_sheet == TableId(following_sheet(cur, count))
                            &&& post.command_buffer@ == pre.command_buffer@
                            &&& post.mode == pre.mode
                            &&& post.should_quit == pre.should_quit
                            &&& effects == seq![Effect::PopulateSheet(post.current_sheet)]
                        } else if k.code matches KeyCode::Char(c) && c == 'q' {
                            &&& post.should_quit
                            &&& post.current_sheet == pre.current_sheet
                            &&& post.command_buffer@ == pre.command_buffer@
                            &&& post.mode == pre.mode
                            &&& effects.len() == 0
                        } else {
                            &&& App::unchanged_but_queue(
                                pre,
                                post,
                                match normal_key_action(k.code) {
                                    Some(a) => seq![a],
                                    None => Seq::empty(),
                                },
                            )
                            &&& effects.len() == 0
                        }
                    },
                }
            },
            Event::Resize => App::unchanged_but_queue(pre, post, seq![Action::RefreshView])
                && effects.len() == 0,
            _ => App::unchanged_but_queue(pre, post, Seq::empty()) && effects.len() == 0,
        }
    }

    /// Only the queue changed, by the actions appended to it.
    pub open spec fn unchanged_but_queue(pre: App, post: App, pushed: Seq<Action>) -> bool {
        &&& post.command_buffer@ == pre.command_buffer@ + pushed
        &&& post.mode == pre.mode
        &&& post.current_sheet == pre.current_sheet
        &&& post.should_quit == pre.should_quit
    }
}

/// The action a key queues in normal mode.
fn normal_key_action_exec(code: &KeyCode) -> (r: Option<Action>)
    ensures
        r == normal_key_action(*code),
{
    match code {
        KeyCode::Right => Some(Action::MoveCursor(Vector2i::new(1, 0))),
        KeyCode::Left => Some(Action::MoveCursor(Vector2i::new(-1, 0))),
        KeyCode::Up => Some(Action::MoveCursor(Vector2i::new(0, -1))),
        KeyCode::Down => Some(Action::MoveCursor(Vector2i::new(0, 1))),
        KeyCode::PageUp => Some(Action::Page(-1i32)),
        KeyCode::PageDown => Some(Action::Page(1)),
        KeyCode::Tab => Some(Action::NextCell),
        KeyCode::Enter => Some(Action::EditCell { clear: false }),
        KeyCode::Char(c) => {
            let c = *c;
            if c == ',' {
                Some(Action::PrevGroup)
            } else if c == '.' {
                Some(Action::NextGroup)
            } else if c == 'a' {
                Some(Action::AddRow)
            } else if c == 'd' {
                Some(Action::DeleteRow)
            } else if c == 'h' {
                Some(Action::MoveCursor(Vector2i::new(-1, 0)))
            } else if c == 'j' {
                Some(Action::MoveCursor(Vector2i::new(0, 1)))
            } else if c == 'g' {
                Some(Action::SetGroupBy)
            } else if c == 'k' {
                Some(Action::MoveCursor(Vector2i::new(0, -1)))
            } else if c == 'l' {
                Some(Action::MoveCursor(Vector2i::new(1, 0)))
            } else if c == 'e' {
                Some(Action::EditCell { clear: false })
            } else if c == 'E' {
                Some(Action::EditCell { clear: true })
            } else {
                None
            }
        },
        _ => None,
    }
}

/// The actions a key queues while a cell's text is edited.
fn editing_key_actions_exec(code: &KeyCode) -> (r: Vec<Action>)
    ensures
        r@ == editing_key_actions(*code),
{
    let mut v: Vec<Action> = Vec::new();
    match code {
        KeyCode::Esc => v.push(Action::CancelEdit),
        KeyCode::Tab => {
            v.push(Action::FinishEdit);
            v.push(Action::NextCell);
        },
        KeyCode::Enter => v.push(Action::FinishEdit),
        _ => {},
    }
    proof {
        assert(v@ =~= editing_key_actions(*code));
    }
    v
}

/// The actions a key queues while a related record is searched for.
fn search_key_actions_exec(code: &KeyCode, shift: bool) -> (r: Vec<Action>)
    ensures
        r@ == search_key_actions(*code, shift),
{
    let mut v: Vec<Action> = Vec::new();
    match code {
        KeyCode::Esc => v.push(Action::SetMode(Mode::Normal)),
        KeyCode::Enter => v.push(Action::FinishEdit),
        KeyCode::Down => v.push(Action::AutocompleteNext),
        KeyCode::Tab => {
            if shift {
                v.push(Action::AutocompletePrev);
            } else {
                v.push(Action::AutocompleteNext);
            }
        },
        KeyCode::Up => v.push(Action::AutocompletePrev),
        _ => {},
    }
    proof {
        assert(v@ =~= search_key_actions(*code, shift));
    }
    v
}

impl App {
    /// Queues each action in turn.
    fn push_actions(&mut self, actions: Vec<Action>)
        ensures
            final(self).command_buffer@ == old(self).command_buffer@ + actions@,
            final(self).schema == old(self).schema,
            final(self).sheets_cache == old(self).sheets_cache,
            final(self).current_sheet == old(self).current_sheet,
            final(self).available_size == old(self).available_size,
            final(self).show_debug == old(self).show_debug,
            final(self).should_quit == old(self).should_quit,
            final(self).debug_text == old(self).debug_text,
            final(self).mode == old(self).mode,
    {
        let n = actions.len();
        let mut rest = actions;
        let ghost all = rest@;
        let mut i: usize = 0;
        let ghost start = self.command_buffer@;
        while rest.len() > 0
            invariant
                all == actions@,
                n == all.len(),
                i <= all.len(),
                rest@ == all.skip(i as int),
                self.command_buffer@ == start + all.take(i as int),
                start == old(self).command_buffer@,
                self.schema == old(self).schema,
                self.sheets_cache == old(self).sheets_cache,
                self.current_sheet == old(self).current_sheet,
                self.available_size == old(self).available_size,
                self.show_debug == old(self).show_debug,
                self.should_quit == old(self).should_quit,
                self.debug_text == old(self).debug_text,
                self.mode == old(self).mode,
            decreases rest@.len(),
        {
            let a = rest.remove(0);
            proof {
                assert(a == all[i as int]);
                assert(all.take(i + 1) =~= all.take(i as int).push(a));
                assert(rest@ =~= all.skip(i + 1));
            }
            self.push_action(a);
            i = i + 1;
        }
        proof {
            assert(all.take(i as int) =~= all);
        }
    }

    /// Whether the event can be handled on the current state (see `event_ok`).
    pub fn event_allowed(&self) -> (r: bool)
        ensures
            r == self.event_ok(),
    {
        match &self.mode {
            Mode::Normal => true,
            Mode::EditingCell(t) => t.input.as_str().unicode_len() < usize::MAX,
            Mode::EditBelongsTo { search, .. } => search.input.as_str().unicode_len() < usize::MAX,
        }
    }

    /// Handles a terminal event: edits the text being typed, switches sheets,
    /// quits, or queues the actions the key is bound to. The caller then
    /// performs the effects and runs the queued actions.
    pub fn process_event(&mut self, event: Event) -> (effects: Vec<Effect>)
        requires
            old(self).wf(),
            old(self).event_ok(),
        ensures
            App::event_result(*old(self), event, *final(self), effects@),
            final(self).wf(),
    {
        let mut effects: Vec<Effect> = Vec::new();
        match event {
            Event::Key(k) => {
                if !k.press {
                    proof { assert(self.command_buffer@ =~= old(self).command_buffer@ + Seq::empty()); }
                    return effects;
                }
                match &mut self.mode {
                    Mode::EditingCell(input) => {
                        match k.code {
                            KeyCode::Char(c) => {
                                input.insert_char_at_cursor(c);
                                return effects;
                            },
                            KeyCode::Backspace => {
                                input.delete_char();
                                return effects;
                            },
                            _ => {},
                        }
                    },
                    Mode::EditBelongsTo { search, .. } => {
                        match k.code {
                            KeyCode::Char(c) => {
                                search.insert_char_at_cursor(c);
                                effects.push(Effect::RefreshAutocomplete);
                                proof { assert(effects@ =~= seq![Effect::RefreshAutocomplete]); }
                                return effects;
                            },
                            KeyCode::Backspace => {
                                search.delete_char();
                                effects.push(Effect::RefreshAutocomplete);
                                proof { assert(effects@ =~= seq![Effect::RefreshAutocomplete]); }
                                return effects;
                            },
                            _ => {},
                        }
                    },
                    Mode::Normal => {},
                }
                match &self.mode {
                    Mode::EditingCell(_) => {
                        let acts = editing_key_actions_exec(&k.code);
                        self.push_actions(acts);
                    },
                    Mode::EditBelongsTo { .. } => {
                        let acts = search_key_actions_exec(&k.code, k.shift);
                        self.push_actions(acts);
                    },
                    Mode::Normal => {
                        let count = self.schema.tables.len();
                        let is_char = match k.code {
                            KeyCode::Char(c) => Some(c),
                            _ => None,
                        };
                        if is_char == Some('[') {
                            let next_sheet = if self.current_sheet.0 == 0 {
                                count - 1
                            } else {
                                self.current_sheet.0 - 1
                            };
                            effects.push(Effect::PopulateSheet(TableId(next_sheet)));
                            self.current_sheet = TableId(next_sheet);
                            proof { assert(effects@ =~= seq![Effect::PopulateSheet(self.current_sheet)]); }
                        } else if is_char == Some(']') {
                            let next_sheet = (self.current_sheet.0 + 1) % count;
                            effects.push(Effect::PopulateSheet(TableId(next_sheet)));
                            self.current_sheet = TableId(next_sheet);
                            proof { assert(effects@ =~= seq![Effect::PopulateSheet(self.current_sheet)]); }
                        } else if is_char == Some('q') {
                            self.should_quit = true;
                        } else {
                            let mut acts: Vec<Action> = Vec::new();
                            match normal_key_action_exec(&k.code) {
                                Some(a) => acts.push(a),
                                None => {},
                            }
                            proof {
                                assert(acts@ =~= match normal_key_action(k.code) {
                                    Some(a) => seq![a],
                                    None => Seq::<Action>::empty(),
                                });
                            }
                            self.push_actions(acts);
                        }
                    },
                }
            },
            Event::Resize => {
                self.push_action(Action::RefreshView);
                proof { assert(self.command_buffer@ =~= old(self).command_buffer@ + seq![Action::RefreshView]); }
            },
            _ => {
                proof { assert(self.command_buffer@ =~= old(self).command_buffer@ + Seq::empty()); }
            },
        }
        effects
    }
}

} // verus!
