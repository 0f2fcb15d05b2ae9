//! The modal dialog: which dialog is open, its three input fields, the
//! selection in its list and the message it shows.
use vstd::prelude::*;
use crate::strings::{pop_char, push_char};
use crate::tui::state::{FooterColor, ModalType};

verus! {

/// What a modal dialog holds, as mathematical values.
pub struct ModalView {
    pub show: bool,
    pub kind: Option<ModalType>,
    pub input: Seq<char>,
    pub secondary: Seq<char>,
    pub tertiary: Seq<char>,
    pub active_field: usize,
    pub input_mode: bool,
    pub selected: usize,
    pub message: Option<Seq<char>>,
}

/// The message a deletion is confirmed with.
pub open spec fn confirm_delete_message(name: Seq<char>) -> Seq<char> {
    "Delete database '"@ + name + "'?"@
}

impl ModalView {
    /// The dialog that is open from the start: nothing shown, all fields empty.
    pub open spec fn initial() -> ModalView {
        ModalView {
            show: false,
            kind: None,
            input: Seq::empty(),
            secondary: Seq::empty(),
            tertiary: Seq::empty(),
            active_field: 0,
            input_mode: false,
            selected: 0,
            message: None,
        }
    }

    pub open spec fn closed(self) -> ModalView {
        ModalView::initial()
    }

    pub open spec fn with_create_database(self) -> ModalView {
        ModalView {
            show: true,
            kind: Some(ModalType::CreateDatabase),
            input: Seq::empty(),
            input_mode: true,
            selected: 0,
            message: None,
            ..self
        }
    }

    pub open spec fn with_get_vector(self) -> ModalView {
        ModalView {
            show: true,
            kind: Some(ModalType::GetVector),
            input: Seq::empty(),
            secondary: Seq::empty(),
            tertiary: Seq::empty(),
            active_field: 0,
            input_mode: true,
            selected: 0,
            message: None,
        }
    }

    pub open spec fn with_insert_vector(self) -> ModalView {
        ModalView {
            show: true,
            kind: Some(ModalType::InsertVector),
            input: Seq::empty(),
            secondary: Seq::empty(),
            tertiary: Seq::empty(),
            input_mode: true,
            selected: 0,
            message: None,
            ..self
        }
    }

    pub open spec fn with_delete_vector(self) -> ModalView {
        ModalView {
            show: true,
            kind: Some(ModalType::DeleteVector),
            input: Seq::empty(),
            secondary: Seq::empty(),
            tertiary: Seq::empty(),
            active_field: 0,
            input_mode: true,
            selected: 0,
            message: None,
        }
    }

    /// A list-like dialog of the given kind, selection at the top.
    pub open spec fn with_list(self, kind: ModalType) -> ModalView {
        ModalView {
            show: true,
            kind: Some(kind),
            input_mode: false,
            selected: 0,
            message: None,
            ..self
        }
    }

    /// A result dialog of the given kind showing `message`.
    pub open spec fn with_result(self, kind: ModalType, message: Seq<char>) -> ModalView {
        ModalView {
            show: true,
            kind: Some(kind),
            input_mode: false,
            input: Seq::empty(),
            secondary: Seq::empty(),
            tertiary: Seq::empty(),
            message: Some(message),
            ..self
        }
    }

    pub open spec fn with_error(self, message: Seq<char>) -> ModalView {
        ModalView {
            show: true,
            kind: Some(ModalType::Error),
            input_mode: false,
            input: Seq::empty(),
            secondary: Seq::empty(),
            tertiary: Seq::empty(),
            active_field: 0,
            selected: 0,
            message: Some(message),
        }
    }

    pub open spec fn with_confirm_delete_database(self, name: Seq<char>) -> ModalView {
        ModalView {
            show: true,
            kind: Some(ModalType::ConfirmDeleteDatabase),
            input_mode: false,
            selected: 0,
            message: Some(confirm_delete_message(name)),
            ..self
        }
    }

    /// The text of the active field.
    pub open spec fn active_text(self) -> Seq<char> {
        if self.active_field == 0 {
            self.input
        } else if self.active_field == 1 {
            self.secondary
        } else {
            self.tertiary
        }
    }

    /// The same dialog with the active field's text replaced.
    pub open spec fn with_active_text(self, t: Seq<char>) -> ModalView {
        if self.active_field == 0 {
            ModalView { input: t, ..self }
        } else if self.active_field == 1 {
            ModalView { secondary: t, ..self }
        } else {
            ModalView { tertiary: t, ..self }
        }
    }

    pub open spec fn with_char(self, c: char) -> ModalView {
        self.with_active_text(self.active_text().push(c))
    }

    pub open spec fn without_last_char(self) -> ModalView {
        if self.active_text().len() == 0 {
            self
        } else {
            self.with_active_text(self.active_text().drop_last())
        }
    }

    pub open spec fn next_field(self) -> ModalView {
        ModalView { active_field: ((self.active_field + 1) % 3) as usize, ..self }
    }

    pub open spec fn selection_up(self) -> ModalView {
        ModalView { selected: if self.selected > 0 { (self.selected - 1) as usize } else { 0 }, ..self }
    }

    pub open spec fn selection_down(self, max_items: usize) -> ModalView {
        if max_items > 0 {
            ModalView { selected: min_usize((self.selected + 1) as usize, (max_items - 1) as usize), ..self }
        } else {
            self
        }
    }

    pub open spec fn with_selection(self, index: usize, max_items: usize) -> ModalView {
        ModalView {
            selected: if max_items == 0 { 0 } else { min_usize(index, (max_items - 1) as usize) },
            ..self
        }
    }

    /// The dialog keeps its field and selection within bounds.
    pub open spec fn well_formed(self) -> bool {
        self.active_field < 3 && self.selected < usize::MAX
    }
}

pub open spec fn min_usize(a: usize, b: usize) -> usize {
    if a <= b { a } else { b }
}

/// The hints under each kind of dialog.
pub open spec fn footer_spec(kind: Option<ModalType>) -> Seq<(Seq<char>, FooterColor)> {
    match kind {
        Some(ModalType::CreateDatabase) => seq![
            ("Enter Create"@, FooterColor::Green),
            ("Esc Cancel"@, FooterColor::Red),
        ],
        Some(ModalType::DatabaseList) => seq![
            ("\u{2191} Navigate"@, FooterColor::Gray),
            ("\u{2193} Navigate"@, FooterColor::Gray),
            ("Enter Select"@, FooterColor::Green),
            ("Esc Cancel"@, FooterColor::Red),
        ],
        Some(ModalType::DeleteDatabase) => seq![
            ("\u{2191} Navigate"@, FooterColor::Gray),
            ("\u{2193} Navigate"@, FooterColor::Gray),
            ("Enter Continue"@, FooterColor::Green),
            ("Esc Cancel"@, FooterColor::Red),
        ],
        Some(ModalType::ConfirmDeleteDatabase) => seq![
            ("\u{2190}/\u{2192} Toggle"@, FooterColor::Gray),
            ("Enter Confirm"@, FooterColor::Green),
            ("Esc Back"@, FooterColor::Red),
        ],
        Some(ModalType::GetVector) => seq![
            ("Enter Fetch"@, FooterColor::Green),
            ("Esc Close"@, FooterColor::Red),
        ],
        Some(ModalType::InsertVector) => seq![
            ("Tab Next"@, FooterColor::Gray),
            ("Enter Insert"@, FooterColor::Green),
            ("Esc Cancel"@, FooterColor::Red),
        ],
        Some(ModalType::DeleteVector) => seq![
            ("Enter Delete"@, FooterColor::Green),
            ("Esc Cancel"@, FooterColor::Red),
        ],
        Some(ModalType::ListVectors) => seq![
            ("\u{2191} Scroll"@, FooterColor::Gray),
            ("\u{2193} Scroll"@, FooterColor::Gray),
            ("Enter Details"@, FooterColor::Green),
            ("Esc Close"@, FooterColor::Red),
        ],
        Some(ModalType::VectorDetails) => seq![
            ("Enter Close"@, FooterColor::Green),
            ("Esc Back"@, FooterColor::Red),
        ],
        Some(ModalType::Success) | Some(ModalType::Failure) | Some(ModalType::Error) => seq![
            ("Esc Dismiss"@, FooterColor::Red),
        ],
        _ => seq![("Esc Cancel"@, FooterColor::Red)],
    }
}

/// The modal dialog manager.
pub struct ModalManager {
    show_modal: bool,
    modal_type: Option<ModalType>,
    input_buffer: String,
    secondary_input: String,
    tertiary_input: String,
    active_field: usize,
    input_mode: bool,
    selected_index: usize,
    error_message: Option<String>,
}

pub open spec fn opt_string_view(s: Option<String>) -> Option<Seq<char>> {
    match s {
        Some(t) => Some(t@),
        None => None,
    }
}

impl View for ModalManager {
    type V = ModalView;

    closed spec fn view(&self) -> ModalView {
        ModalView {
            show: self.show_modal,
            kind: self.modal_type,
            input: self.input_buffer@,
            secondary: self.secondary_input@,
            tertiary: self.tertiary_input@,
            active_field: self.active_field,
            input_mode: self.input_mode,
            selected: self.selected_index,
            message: opt_string_view(self.error_message),
        }
    }
}

impl ModalManager {
    /// Every dialog keeps its active field below 3 and its selection below
    /// `usize::MAX`.
    #[verifier::type_invariant]
    pub open spec fn inv(&self) -> bool {
        self@.well_formed()
    }

    pub fn new() -> (r: Self)
        ensures
            r@ == ModalView::initial(),
    {
        ModalManager {
            show_modal: false,
            modal_type: None,
            input_buffer: String::new(),
            secondary_input: String::new(),
            tertiary_input: String::new(),
            active_field: 0,
            input_mode: false,
            selected_index: 0,
            error_message: None,
        }
    }

    pub fn is_showing(&self) -> (r: bool)
        ensures
            r == self@.show,
    {
        self.show_modal
    }

    pub fn modal_type(&self) -> (r: Option<&ModalType>)
        ensures
            r is None <==> self@.kind is None,
            r matches Some(k) ==> self@.kind == Some(*k),
    {
        self.modal_type.as_ref()
    }

    pub fn input_buffer(&self) -> (r: &str)
        ensures
            r@ == self@.input,
    {
        self.input_buffer.as_str()
    }

    pub fn secondary_input(&self) -> (r: &str)
        ensures
            r@ == self@.secondary,
    {
        self.secondary_input.as_str()
    }

    pub fn tertiary_input(&self) -> (r: &str)
        ensures
            r@ == self@.tertiary,
    {
        self.tertiary_input.as_str()
    }

    pub fn active_field(&self) -> (r: usize)
        ensures
            r == self@.active_field,
    {
        self.active_field
    }

    pub fn input_mode(&self) -> (r: bool)
        ensures
            r == self@.input_mode,
    {
        self.input_mode
    }

    pub fn selected_index(&self) -> (r: usize)
        ensures
            r == self@.selected,
    {
        self.selected_index
    }

    pub fn show_create_database(&mut self)
        ensures
            final(self)@ == old(self)@.with_create_database(),
    {
        proof { use_type_invariant(&*self); }
        self.show_modal = true;
        self.modal_type = Some(ModalType::CreateDatabase);
        self.input_buffer = String::new();
        self.input_mode = true;
        self.selected_index = 0;
        self.error_message = None;
    }

    pub fn show_get_vector(&mut self)
        ensures
            final(self)@ == old(self)@.with_get_vector(),
    {
        proof { use_type_invariant(&*self); }
        self.show_modal = true;
        self.modal_type = Some(ModalType::GetVector);
        self.input_buffer = String::new();
        self.secondary_input = String::new();
        self.tertiary_input = String::new();
        self.active_field = 0;
        self.input_mode = true;
        self.selected_index = 0;
        self.error_message = None;
    }

    pub fn show_insert_vector(&mut self)
        ensures
            final(self)@ == old(self)@.with_insert_vector(),
    {
        proof { use_type_invariant(&*self); }
        self.show_modal = true;
        self.modal_type = Some(ModalType::InsertVector);
        self.input_buffer = String::new();
        self.secondary_input = String::new();
        self.tertiary_input = String::new();
        self.input_mode = true;
        self.selected_index = 0;
        self.error_message = None;
    }

    pub fn show_delete_vector(&mut self)
        ensures
            final(self)@ == old(self)@.with_delete_vector(),
    {
        proof { use_type_invariant(&*self); }
        self.show_modal = true;
        self.modal_type = Some(ModalType::DeleteVector);
        self.input_buffer = String::new();
        self.secondary_input = String::new();
        self.tertiary_input = String::new();
        self.active_field = 0;
        self.input_mode = true;
        self.selected_index = 0;
        self.error_message = None;
    }

    pub fn show_vector_list(&mut self)
        ensures
            final(self)@ == old(self)@.with_list(ModalType::ListVectors),
    {
        proof { use_type_invariant(&*self); }
        self.show_modal = true;
        self.modal_type = Some(ModalType::ListVectors);
        self.input_mode = false;
        self.error_message = None;
        self.selected_index = 0;
    }

    pub fn show_vector_details(&mut self)
        ensures
            final(self)@ == old(self)@.with_list(ModalType::VectorDetails),
    {
        proof { use_type_invariant(&*self); }
        self.show_modal = true;
        self.modal_type = Some(ModalType::VectorDetails);
        self.input_mode = false;
        self.selected_index = 0;
        self.error_message = None;
    }

    pub fn show_success(&mut self, message: String)
        ensures
            final(self)@ == old(self)@.with_result(ModalType::Success, message@),
    {
        proof { use_type_invariant(&*self); }
        self.show_modal = true;
        self.modal_type = Some(ModalType::Success);
        self.input_mode = false;
        self.input_buffer = String::new();
        self.secondary_input = String::new();
        self.tertiary_input = String::new();
        self.error_message = Some(message);
    }

    pub fn show_failure(&mut self, message: String)
        ensures
            final(self)@ == old(self)@.with_result(ModalType::Failure, message@),
    {
        proof { use_type_invariant(&*self); }
        self.show_modal = true;
        self.modal_type = Some(ModalType::Failure);
        self.input_mode = false;
        self.input_buffer = String::new();
        self.secondary_input = String::new();
        self.tertiary_input = String::new();
        self.error_message = Some(message);
    }

    pub fn show_database_list(&mut self)
        ensures
            final(self)@ == old(self)@.with_list(ModalType::DatabaseList),
    {
        proof { use_type_invariant(&*self); }
        self.show_modal = true;
        self.modal_type = Some(ModalType::DatabaseList);
        self.input_mode = false;
        self.selected_index = 0;
        self.error_message = None;
    }

    pub fn show_delete_database(&mut self)
        ensures
            final(self)@ == old(self)@.with_list(ModalType::DeleteDatabase),
    {
        proof { use_type_invariant(&*self); }
        self.show_modal = true;
        self.modal_type = Some(ModalType::DeleteDatabase);
        self.input_mode = false;
        self.selected_index = 0;
        self.error_message = None;
    }

    pub fn show_confirm_delete_database(&mut self, name: String)
        ensures
            final(self)@ == old(self)@.with_confirm_delete_database(name@),
    {
        proof { use_type_invariant(&*self); }
        let mut message = String::from_str("Delete database '");
        message.append(name.as_str());
        message.append("'?");
        self.show_modal = true;
        self.modal_type = Some(ModalType::ConfirmDeleteDatabase);
        self.input_mode = false;
        self.selected_index = 0;
        self.error_message = Some(message);
    }

    pub fn show_error(&mut self, message: String)
        ensures
            final(self)@ == old(self)@.with_error(message@),
    {
        proof { use_type_invariant(&*self); }
        self.show_modal = true;
        self.modal_type = Some(ModalType::Error);
        self.input_mode = false;
        self.input_buffer = String::new();
        self.secondary_input = String::new();
        self.tertiary_input = String::new();
        self.active_field = 0;
        self.selected_index = 0;
        self.error_message = Some(message);
    }

    pub fn close(&mut self)
        ensures
            final(self)@ == old(self)@.closed(),
    {
        proof { use_type_invariant(&*self); }
        self.show_modal = false;
        self.modal_type = None;
        self.input_buffer = String::new();
        self.secondary_input = String::new();
        self.tertiary_input = String::new();
        self.active_field = 0;
        self.input_mode = false;
        self.selected_index = 0;
        self.error_message = None;
    }

    pub fn enable_input_mode(&mut self)
        ensures
            final(self)@ == (ModalView { input_mode: true, ..old(self)@ }),
    {
        proof { use_type_invariant(&*self); }
        self.input_mode = true;
    }

    pub fn add_char(&mut self, c: char)
        ensures
            final(self)@ == old(self)@.with_char(c),
    {
        proof { use_type_invariant(&*self); }
        if self.active_field == 0 {
            let mut t = self.input_buffer.clone();
            push_char(&mut t, c);
            self.input_buffer = t;
        } else if self.active_field == 1 {
            let mut t = self.secondary_input.clone();
            push_char(&mut t, c);
            self.secondary_input = t;
        } else {
            let mut t = self.tertiary_input.clone();
            push_char(&mut t, c);
            self.tertiary_input = t;
        }
    }

    pub fn remove_char(&mut self)
        ensures
            final(self)@ == old(self)@.without_last_char(),
    {
        proof { use_type_invariant(&*self); }
        if self.active_field == 0 {
            let mut t = self.input_buffer.clone();
            pop_char(&mut t);
            self.input_buffer = t;
        } else if self.active_field == 1 {
            let mut t = self.secondary_input.clone();
            pop_char(&mut t);
            self.secondary_input = t;
        } else {
            let mut t = self.tertiary_input.clone();
            pop_char(&mut t);
            self.tertiary_input = t;
        }
    }

    pub fn switch_field(&mut self)
        ensures
            final(self)@ == old(self)@.next_field(),
    {
        proof { use_type_invariant(&*self); }
        self.active_field = (self.active_field + 1) % 3;
    }

    pub fn select_previous(&mut self)
        ensures
            final(self)@ == old(self)@.selection_up(),
    {
        proof { use_type_invariant(&*self); }
        self.selected_index = if self.selected_index > 0 { self.selected_index - 1 } else { 0 };
    }

    pub fn select_next(&mut self, max_items: usize)
        ensures
            final(self)@ == old(self)@.selection_down(max_items),
    {
        proof { use_type_invariant(&*self); }
        if max_items > 0 {
            let next = self.selected_index + 1;
            self.selected_index = if next <= max_items - 1 { next } else { max_items - 1 };
        }
    }

    pub fn set_selected_index(&mut self, index: usize, max_items: usize)
        ensures
            final(self)@ == old(self)@.with_selection(index, max_items),
    {
        proof { use_type_invariant(&*self); }
        if max_items == 0 {
            self.selected_index = 0;
        } else {
            self.selected_index = if index <= max_items - 1 { index } else { max_items - 1 };
        }
    }

    pub fn get_input_value(&self) -> (r: String)
        ensures
            r@ == self@.input,
    {
        self.input_buffer.clone()
    }

    pub fn error_message(&self) -> (r: Option<&str>)
        ensures
            r is None <==> self@.message is None,
            r matches Some(m) ==> self@.message == Some(m@),
    {
        match &self.error_message {
            Some(m) => Some(m.as_str()),
            None => None,
        }
    }

    /// The key hints shown under the open dialog.
    pub fn footer_items(&self) -> (r: Vec<(String, FooterColor)>)
        ensures
            r@.len() == footer_spec(self@.kind).len(),
            forall|i: int| 0 <= i < r@.len() ==>
                (#[trigger] r@[i]).0@ == footer_spec(self@.kind)[i].0 && r@[i].1 == footer_spec(self@.kind)[i].1,
    {
        let mut v: Vec<(String, FooterColor)> = Vec::new();
        match self.modal_type {
            Some(ModalType::CreateDatabase) => {
                v.push((String::from_str("Enter Create"), FooterColor::Green));
                v.push((String::from_str("Esc Cancel"), FooterColor::Red));
            },
            Some(ModalType::DatabaseList) => {
                v.push((String::from_str("\u{2191} Navigate"), FooterColor::Gray));
                v.push((String::from_str("\u{2193} Navigate"), FooterColor::Gray));
                v.push((String::from_str("Enter Select"), FooterColor::Green));
                v.push((String::from_str("Esc Cancel"), FooterColor::Red));
            },
            Some(ModalType::DeleteDatabase) => {
                v.push((String::from_str("\u{2191} Navigate"), FooterColor::Gray));
                v.push((String::from_str("\u{2193} Navigate"), FooterColor::Gray));
                v.push((String::from_str("Enter Continue"), FooterColor::Green));
                v.push((String::from_str("Esc Cancel"), FooterColor::Red));
            },
            Some(ModalType::ConfirmDeleteDatabase) => {
                v.push((String::from_str("\u{2190}/\u{2192} Toggle"), FooterColor::Gray));
                v.push((String::from_str("Enter Confirm"), FooterColor::Green));
                v.push((String::from_str("Esc Back"), FooterColor::Red));
            },
            Some(ModalType::GetVector) => {
                v.push((String::from_str("Enter Fetch"), FooterColor::Green));
                v.push((String::from_str("Esc Close"), FooterColor::Red));
            },
            Some(ModalType::InsertVector) => {
                v.push((String::from_str("Tab Next"), FooterColor::Gray));
                v.push((String::from_str("Enter Insert"), FooterColor::Green));
                v.push((String::from_str("Esc Cancel"), FooterColor::Red));
            },
            Some(ModalType::DeleteVector) => {
                v.push((String::from_str("Enter Delete"), FooterColor::Green));
                v.push((String::from_str("Esc Cancel"), FooterColor::Red));
            },
            Some(ModalType::ListVectors) => {
                v.push((String::from_str("\u{2191} Scroll"), FooterColor::Gray));
                v.push((String::from_str("\u{2193} Scroll"), FooterColor::Gray));
                v.push((String::from_str("Enter Details"), FooterColor::Green));
                v.push((String::from_str("Esc Close"), FooterColor::Red));
            },
            Some(ModalType::VectorDetails) => {
                v.push((String::from_str("Enter Close"), FooterColor::Green));
                v.push((String::from_str("Esc Back"), FooterColor::Red));
            },
            Some(ModalType::Success) | Some(ModalType::Failure) | Some(ModalType::Error) => {
                v.push((String::from_str("Esc Dismiss"), FooterColor::Red));
            },
            _ => {
                v.push((String::from_str("Esc Cancel"), FooterColor::Red));
            },
        }
        v
    }
}

/// Removing a character right after typing it gives the dialog back as it
/// was.
pub proof fn law_remove_char_undoes_add_char(m: ModalView, c: char)
    ensures
        m.with_char(c).without_last_char() == m,
{
    let t = m.active_text();
    assert(t.push(c).drop_last() =~= t);
    assert(m.with_active_text(t) == m);
}

/// Switching fields three times comes back to the field one started from.
pub proof fn law_switch_field_cycles(m: ModalView)
    requires
        m.well_formed(),
    ensures
        m.next_field().next_field().next_field() == m,
{
}

/// Closing a dialog that is already closed changes nothing.
pub proof fn law_close_idempotent(m: ModalView)
    ensures
        m.closed().closed() == m.closed(),
{
}

/// Moving the selection down or setting it keeps it on one of the
/// `max_items` entries, when there are any.
pub proof fn law_selection_in_list(m: ModalView, index: usize, max_items: usize)
    requires
        max_items > 0,
    ensures
        m.selection_down(max_items).selected < max_items,
        m.with_selection(index, max_items).selected < max_items,
{
}

} // verus!
