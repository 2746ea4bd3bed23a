//! What every key does, stated on the mathematical view of the application:
//! the menu, the store, and the form with its open field.

use vstd::prelude::*;
use crate::error::CommitErrorView;
use crate::input::{empty_slots, form, EntityKind, InputField, InputModeView, InputStateView, Key};
use crate::store::UserDataView;

verus! {

pub struct MenuView {
    pub selected: int,
    pub items: Seq<Seq<char>>,
}

pub struct AppView {
    pub should_quit: bool,
    pub menu_state: MenuView,
    pub user_data: UserDataView,
    pub input: InputStateView,
}

/// The entries of the menu. The first four are the record kinds in the
/// order of `menu_kind`; the last one leaves.
pub open spec fn menu_items() -> Seq<Seq<char>> {
    seq!["Banks"@, "Buckets"@, "Tags"@, "Transactions"@, "Exit"@]
}

/// The kind of record that the menu entry at `selected` lists.
pub open spec fn menu_kind(selected: int) -> Option<EntityKind> {
    if selected == 0 {
        Some(EntityKind::Bank)
    } else if selected == 1 {
        Some(EntityKind::Bucket)
    } else if selected == 2 {
        Some(EntityKind::Tag)
    } else if selected == 3 {
        Some(EntityKind::Transaction)
    } else {
        None
    }
}

/// The message left by a commit that stored its record.
pub open spec fn success_message(kind: EntityKind) -> Seq<char> {
    match kind {
        EntityKind::Bank => "Bank added successfully"@,
        EntityKind::Bucket => "Bucket added successfully"@,
        EntityKind::Tag => "Tag added successfully"@,
        EntityKind::Transaction => "Transaction added successfully"@,
    }
}

impl MenuView {
    /// The menu has entries, and one of them is selected.
    pub open spec fn wf(self) -> bool {
        0 <= self.selected < self.items.len()
    }

    /// One entry up; from the first entry to the last.
    pub open spec fn up(self) -> MenuView {
        if self.selected > 0 {
            MenuView { selected: self.selected - 1, ..self }
        } else {
            MenuView { selected: self.items.len() - 1, ..self }
        }
    }

    /// One entry down; from the last entry to the first.
    pub open spec fn down(self) -> MenuView {
        if self.selected < self.items.len() - 1 {
            MenuView { selected: self.selected + 1, ..self }
        } else {
            MenuView { selected: 0, ..self }
        }
    }
}

impl AppView {
    pub open spec fn wf(self) -> bool {
        self.menu_state.wf() && self.input.wf()
    }

    /// The state at start: the first menu entry selected, an empty store,
    /// nothing typed.
    pub open spec fn initial() -> AppView {
        AppView {
            should_quit: false,
            menu_state: MenuView { selected: 0, items: menu_items() },
            user_data: UserDataView::empty(),
            input: InputStateView::empty(),
        }
    }

    /// Every slot and the message emptied.
    pub open spec fn clear_input_fields(self) -> AppView {
        AppView {
            input: InputStateView { slots: empty_slots(), message: Seq::empty(), ..self.input },
            ..self
        }
    }

    /// `field` opened for editing with `value` as its text and the cursor
    /// behind the last character.
    pub open spec fn switch_to_field(self, field: InputField, value: Seq<char>) -> AppView {
        AppView {
            input: InputStateView {
                mode: InputModeView::Editing {
                    input: value,
                    cursor_position: value.len() as int,
                    field,
                },
                ..self.input
            },
            ..self
        }
    }

    /// `value` put in the slot of `field`.
    pub open spec fn update_field_value(self, field: InputField, value: Seq<char>) -> AppView {
        AppView {
            input: InputStateView { slots: self.input.slots.insert(field, value), ..self.input },
            ..self
        }
    }

    /// A fresh form of `kind` opened on its first field: nothing typed, no
    /// message.
    pub open spec fn begin(self, kind: EntityKind) -> AppView {
        self.clear_input_fields().switch_to_field(form(kind)[0], Seq::empty())
    }

    /// What committing the form of `kind` at time `now` does to the store,
    /// or why it is refused.
    pub open spec fn commit_result(self, kind: EntityKind, now: u64) -> Result<
        UserDataView,
        CommitErrorView,
    > {
        let slots = self.input.slots;
        match kind {
            EntityKind::Bank => self.user_data.commit_bank(
                slots[InputField::BankName],
                slots[InputField::BankAccountNumber],
                slots[InputField::BankBalance],
            ),
            EntityKind::Bucket => self.user_data.commit_bucket(
                slots[InputField::BucketName],
                slots[InputField::BucketBalance],
                slots[InputField::BucketBankName],
                slots[InputField::BucketAccountNumber],
            ),
            EntityKind::Tag => self.user_data.commit_tag(
                slots[InputField::TagName],
                slots[InputField::TagBucketName],
                slots[InputField::TagDescription],
            ),
            EntityKind::Transaction => self.user_data.commit_transaction(
                slots[InputField::TransactionType],
                slots[InputField::TransactionAmount],
                slots[InputField::TransactionTags],
                slots[InputField::TransactionDescription],
                now,
            ),
        }
    }

    /// The commit of the form of `kind`. Where the store takes the record,
    /// the slots are emptied and the message reports success; where it is
    /// refused, only the message changes, to the reason.
    pub open spec fn commit(self, kind: EntityKind, now: u64) -> AppView {
        match self.commit_result(kind, now) {
            Ok(store) => AppView {
                user_data: store,
                input: InputStateView {
                    slots: empty_slots(),
                    message: success_message(kind),
                    ..self.input
                },
                ..self
            },
            Err(error) => AppView {
                input: InputStateView { message: error.message(), ..self.input },
                ..self
            },
        }
    }

    /// The form closed: no field open, nothing typed. The message stays.
    pub open spec fn close(self) -> AppView {
        AppView {
            input: InputStateView {
                mode: InputModeView::Normal,
                slots: empty_slots(),
                ..self.input
            },
            ..self
        }
    }

    /// Confirming `field`: the next field of the form opens on what was
    /// typed for it; after the last field the form is committed and closed,
    /// whether or not the store took the record.
    pub open spec fn move_to_next_field(self, field: InputField, now: u64) -> AppView {
        match field.spec_next() {
            Some(next) => self.switch_to_field(next, self.input.slots[next]),
            None => self.commit(field.spec_kind(), now).close(),
        }
    }

    /// Going back from `field`: the field before it opens on what was typed
    /// for it; on the first field nothing happens.
    pub open spec fn move_to_previous_field(self, field: InputField) -> AppView {
        match field.spec_previous() {
            Some(previous) => self.switch_to_field(previous, self.input.slots[previous]),
            None => self,
        }
    }

    /// The open field's text changed to `text` with the cursor at `cursor`,
    /// and the field's slot changed with it.
    pub open spec fn edit(self, text: Seq<char>, cursor: int) -> AppView {
        match self.input.mode {
            InputModeView::Normal => self,
            InputModeView::Editing { field, .. } => AppView {
                input: InputStateView {
                    mode: InputModeView::Editing { input: text, cursor_position: cursor, field },
                    slots: self.input.slots.insert(field, text),
                    ..self.input
                },
                ..self
            },
        }
    }

    /// A character typed: it goes in at the cursor, and the cursor moves
    /// behind it.
    pub open spec fn type_char(self, c: char) -> AppView {
        match self.input.mode {
            InputModeView::Normal => self,
            InputModeView::Editing { input, cursor_position, .. } => self.edit(
                input.insert(cursor_position, c),
                cursor_position + 1,
            ),
        }
    }

    /// Backspace: the character before the cursor goes, and the cursor
    /// moves back; at the start of the text nothing goes.
    pub open spec fn backspace(self) -> AppView {
        match self.input.mode {
            InputModeView::Normal => self,
            InputModeView::Editing { input, cursor_position, .. } => if cursor_position > 0 {
                self.edit(input.remove(cursor_position - 1), cursor_position - 1)
            } else {
                self.edit(input, cursor_position)
            },
        }
    }

    /// Escape: the form is closed, and what was typed and the message are
    /// dropped.
    pub open spec fn cancel(self) -> AppView {
        AppView { input: InputStateView::empty(), ..self }
    }

    /// A key pressed while `field` is open.
    pub open spec fn handle_editing_mode(self, key: Key, field: InputField, now: u64) -> AppView {
        match key {
            Key::Enter | Key::Down => self.move_to_next_field(field, now),
            Key::Up => self.move_to_previous_field(field),
            Key::Esc => self.cancel(),
            Key::Backspace => self.backspace(),
            Key::Char(c) => self.type_char(c),
            Key::Other => self,
        }
    }

    /// A key pressed while no form is open: `q` leaves, the arrows move
    /// through the menu, Enter on the last entry leaves, and `n` opens the
    /// form of the kind that the selected entry lists.
    pub open spec fn handle_normal_mode(self, key: Key) -> AppView {
        match key {
            Key::Char(c) => if c == 'q' {
                AppView { should_quit: true, ..self }
            } else if c == 'n' {
                match menu_kind(self.menu_state.selected) {
                    Some(kind) => self.begin(kind),
                    None => self,
                }
            } else {
                self
            },
            Key::Up => AppView { menu_state: self.menu_state.up(), ..self },
            Key::Down => AppView { menu_state: self.menu_state.down(), ..self },
            Key::Enter => if self.menu_state.selected == self.menu_state.items.len() - 1 {
                AppView { should_quit: true, ..self }
            } else {
                self
            },
            _ => self,
        }
    }

    /// A key pressed at time `now`.
    pub open spec fn handle_key(self, key: Key, now: u64) -> AppView {
        match self.input.mode {
            InputModeView::Normal => self.handle_normal_mode(key),
            InputModeView::Editing { field, .. } => self.handle_editing_mode(key, field, now),
        }
    }

    /// The characters of `text` typed one after the other.
    pub open spec fn type_text(self, text: Seq<char>, now: u64) -> AppView
        decreases text.len(),
    {
        if text.len() == 0 {
            self
        } else {
            self.type_text(text.drop_last(), now).handle_key(Key::Char(text.last()), now)
        }
    }

    /// An event handled at time `now`: a key press, or nothing.
    pub open spec fn handle_events(self, event: Option<Key>, now: u64) -> AppView {
        match event {
            Some(key) => self.handle_key(key, now),
            None => self,
        }
    }
}

} // verus!
