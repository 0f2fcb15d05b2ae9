//! The front end's application state: the page shown, the selections on
//! each page, the database manager, the modal dialog and the vector listing.
use vstd::prelude::*;
use crate::tui::database::{entries_view, DatabaseManager, DatabaseView};
use crate::tui::modal::{footer_spec, min_usize, ModalManager, ModalView};
use crate::tui::state::{AppState, FooterColor, ModalType, VectorListItem};
use crate::types::Payload;

verus! {

/// How many operations the database page offers (create, use, delete).
pub const DB_OPERATIONS_COUNT: usize = 3;

/// How many operations the vector page offers (list, get, insert, delete, search).
pub const VECTOR_OPERATIONS_COUNT: usize = 5;

pub fn get_db_operations_count() -> (r: usize)
    ensures
        r == DB_OPERATIONS_COUNT,
{
    DB_OPERATIONS_COUNT
}

pub fn get_vector_operations_count() -> (r: usize)
    ensures
        r == VECTOR_OPERATIONS_COUNT,
{
    VECTOR_OPERATIONS_COUNT
}

/// A listed vector, as mathematical values.
pub struct ItemView {
    pub id: u64,
    pub vector: Seq<u32>,
    pub payload: Option<Payload>,
}

pub open spec fn item_view(i: VectorListItem) -> ItemView {
    ItemView { id: i.id, vector: i.vector@, payload: i.payload }
}

pub open spec fn items_view(s: Seq<VectorListItem>) -> Seq<ItemView> {
    s.map_values(|i: VectorListItem| item_view(i))
}

pub open spec fn opt_item_view(i: Option<VectorListItem>) -> Option<ItemView> {
    match i {
        Some(v) => Some(item_view(v)),
        None => None,
    }
}

pub open spec fn opt_pair_view(p: Option<(String, String)>) -> Option<(Seq<char>, Seq<char>)> {
    match p {
        Some(e) => Some((e.0@, e.1@)),
        None => None,
    }
}

/// The application state, as mathematical values.
pub struct AppView {
    pub should_quit: bool,
    pub state: AppState,
    pub db_selected: usize,
    pub vector_selected: usize,
    pub database: DatabaseView,
    pub modal: ModalView,
    pub items: Seq<ItemView>,
    pub next_offset: Option<u64>,
    pub post_restore: bool,
    pub list_selected: usize,
    pub detail: Option<ItemView>,
    pub pending_delete: Option<(Seq<char>, Seq<char>)>,
    pub pending_delete_index: Option<usize>,
}

impl AppView {
    pub open spec fn initial() -> AppView {
        AppView {
            should_quit: false,
            state: AppState::Dashboard,
            db_selected: 0,
            vector_selected: 0,
            database: DatabaseView::initial(),
            modal: ModalView::initial(),
            items: Seq::empty(),
            next_offset: None,
            post_restore: false,
            list_selected: 0,
            detail: None,
            pending_delete: None,
            pending_delete_index: None,
        }
    }

    /// The selection that moving down on the current page advances has
    /// room to move by one (on the database page with a dialog open it is
    /// the dialog's, which always has room).
    pub open spec fn down_fits(self) -> bool {
        match self.state {
            AppState::Dashboard => true,
            AppState::Database => self.modal.show || self.db_selected < usize::MAX,
            AppState::VectorOperations => self.vector_selected < usize::MAX,
        }
    }

    pub open spec fn quitting(self) -> AppView {
        AppView { should_quit: true, ..self }
    }

    /// The next page; leaving the dashboard reloads the known databases
    /// from `listing` when there is one.
    pub open spec fn next_page(self, listing: Option<Seq<(Seq<char>, Seq<char>)>>) -> AppView {
        match self.state {
            AppState::Dashboard => AppView {
                state: AppState::Database,
                database: match listing {
                    Some(l) => DatabaseView { available: l, ..self.database },
                    None => self.database,
                },
                ..self
            },
            AppState::Database => AppView { state: AppState::VectorOperations, ..self },
            AppState::VectorOperations => self,
        }
    }

    pub open spec fn previous_page(self) -> AppView {
        match self.state {
            AppState::Dashboard => self,
            AppState::Database => AppView { state: AppState::Dashboard, ..self },
            AppState::VectorOperations => AppView { state: AppState::Database, ..self },
        }
    }

    pub open spec fn selection_up(self) -> AppView {
        match self.state {
            AppState::Dashboard => self,
            AppState::Database => if self.modal.show {
                AppView { modal: self.modal.selection_up(), ..self }
            } else {
                AppView { db_selected: if self.db_selected > 0 { (self.db_selected - 1) as usize } else { 0 }, ..self }
            },
            AppState::VectorOperations => AppView {
                vector_selected: if self.vector_selected > 0 { (self.vector_selected - 1) as usize } else { 0 },
                ..self
            },
        }
    }

    pub open spec fn selection_down(self) -> AppView {
        match self.state {
            AppState::Dashboard => self,
            AppState::Database => if self.modal.show {
                AppView { modal: self.modal.selection_down(self.database.available.len() as usize), ..self }
            } else {
                AppView { db_selected: min_usize((self.db_selected + 1) as usize, (DB_OPERATIONS_COUNT - 1) as usize), ..self }
            },
            AppState::VectorOperations => AppView {
                vector_selected: min_usize((self.vector_selected + 1) as usize, (VECTOR_OPERATIONS_COUNT - 1) as usize),
                ..self
            },
        }
    }

    pub open spec fn with_modal(self, m: ModalView) -> AppView {
        AppView { modal: m, ..self }
    }
}

/// The front end's application state.
pub struct App {
    pub should_quit: bool,
    pub state: AppState,
    pub db_selected: usize,
    pub vector_selected: usize,
    pub database: DatabaseManager,
    pub modal: ModalManager,
    pub vector_list_items: Vec<VectorListItem>,
    pub vector_list_next_offset: Option<u64>,
    pub vector_list_post_restore: bool,
    pub vector_list_selected_index: usize,
    pub vector_detail: Option<VectorListItem>,
    pub pending_delete_database: Option<(String, String)>,
    pub pending_delete_database_index: Option<usize>,
}

impl View for App {
    type V = AppView;

    open spec fn view(&self) -> AppView {
        AppView {
            should_quit: self.should_quit,
            state: self.state,
            db_selected: self.db_selected,
            vector_selected: self.vector_selected,
            database: self.database@,
            modal: self.modal@,
            items: items_view(self.vector_list_items@),
            next_offset: self.vector_list_next_offset,
            post_restore: self.vector_list_post_restore,
            list_selected: self.vector_list_selected_index,
            detail: opt_item_view(self.vector_detail),
            pending_delete: opt_pair_view(self.pending_delete_database),
            pending_delete_index: self.pending_delete_database_index,
        }
    }
}

impl Default for App {
    fn default() -> (r: Self)
        ensures
            r@ == AppView::initial(),
    {
        Self::new()
    }
}

impl App {
    pub fn new() -> (r: Self)
        ensures
            r@ == AppView::initial(),
    {
        let r = Self {
            should_quit: false,
            state: AppState::Dashboard,
            db_selected: 0,
            vector_selected: 0,
            database: DatabaseManager::new(),
            modal: ModalManager::new(),
            vector_list_items: Vec::new(),
            vector_list_next_offset: None,
            vector_list_post_restore: false,
            vector_list_selected_index: 0,
            vector_detail: None,
            pending_delete_database: None,
            pending_delete_database_index: None,
        };
        assert(r@.items =~= Seq::<ItemView>::empty());
        r
    }

    pub fn quit(&mut self)
        ensures
            final(self)@ == old(self)@.quitting(),
    {
        self.should_quit = true;
    }

    /// Moves to the next page. `listing` holds the databases read from disk
    /// when the step leaves the dashboard, all of them or those read before
    /// a failure (`None` when the read stopped before clearing the list).
    pub fn next_page(&mut self, listing: Option<Vec<(String, String)>>)
        ensures
            final(self)@ == old(self)@.next_page(match listing {
                Some(l) => Some(entries_view(l@)),
                None => None,
            }),
    {
        match self.state {
            AppState::Dashboard => {
                if let Some(l) = listing {
                    self.database.load_available_databases(l);
                }
                self.state = AppState::Database;
            },
            AppState::Database => {
                self.state = AppState::VectorOperations;
            },
            AppState::VectorOperations => {},
        }
    }

    pub fn previous_page(&mut self)
        ensures
            final(self)@ == old(self)@.previous_page(),
    {
        self.state = match self.state {
            AppState::Dashboard => AppState::Dashboard,
            AppState::Database => AppState::Dashboard,
            AppState::VectorOperations => AppState::Database,
        };
    }

    pub fn select_previous(&mut self)
        ensures
            final(self)@ == old(self)@.selection_up(),
    {
        match self.state {
            AppState::Dashboard => {},
            AppState::Database => {
                if self.modal.is_showing() {
                    self.modal.select_previous();
                } else {
                    self.db_selected = if self.db_selected > 0 { self.db_selected - 1 } else { 0 };
                }
            },
            AppState::VectorOperations => {
                self.vector_selected = if self.vector_selected > 0 { self.vector_selected - 1 } else { 0 };
            },
        }
    }

    pub fn select_next(&mut self)
        requires
            old(self)@.down_fits(),
        ensures
            final(self)@ == old(self)@.selection_down(),
    {
        match self.state {
            AppState::Dashboard => {},
            AppState::Database => {
                if self.modal.is_showing() {
                    let max_items = self.database.available_databases.len();
                    self.modal.select_next(max_items);
                } else {
                    let max_items = get_db_operations_count();
                    let next = self.db_selected + 1;
                    self.db_selected = if next <= max_items - 1 { next } else { max_items - 1 };
                }
            },
            AppState::VectorOperations => {
                let max_items = get_vector_operations_count();
                let next = self.vector_selected + 1;
                self.vector_selected = if next <= max_items - 1 { next } else { max_items - 1 };
            },
        }
    }

    pub fn show_modal(&self) -> (r: bool)
        ensures
            r == self@.modal.show,
    {
        self.modal.is_showing()
    }

    pub fn modal_type(&self) -> (r: Option<&ModalType>)
        ensures
            r is None <==> self@.modal.kind is None,
            r matches Some(k) ==> self@.modal.kind == Some(*k),
    {
        self.modal.modal_type()
    }

    pub fn input_buffer(&self) -> (r: &str)
        ensures
            r@ == self@.modal.input,
    {
        self.modal.input_buffer()
    }

    pub fn input_mode(&self) -> (r: bool)
        ensures
            r == self@.modal.input_mode,
    {
        self.modal.input_mode()
    }

    pub fn secondary_input(&self) -> (r: &str)
        ensures
            r@ == self@.modal.secondary,
    {
        self.modal.secondary_input()
    }

    pub fn tertiary_input(&self) -> (r: &str)
        ensures
            r@ == self@.modal.tertiary,
    {
        self.modal.tertiary_input()
    }

    pub fn active_field(&self) -> (r: usize)
        ensures
            r == self@.modal.active_field,
    {
        self.modal.active_field()
    }

    pub fn switch_field(&mut self)
        ensures
            final(self)@ == old(self)@.with_modal(old(self)@.modal.next_field()),
    {
        self.modal.switch_field();
    }

    pub fn available_databases(&self) -> (r: &[(String, String)])
        ensures
            r@ == self.database.available_databases@,
    {
        self.database.available_databases.as_slice()
    }

    pub fn error_message(&self) -> (r: Option<&str>)
        ensures
            r is None <==> self@.modal.message is None,
            r matches Some(m) ==> self@.modal.message == Some(m@),
    {
        self.modal.error_message()
    }

    pub fn modal_footer_items(&self) -> (r: Vec<(String, FooterColor)>)
        ensures
            r@.len() == footer_spec(self@.modal.kind).len(),
            forall|i: int| 0 <= i < r@.len() ==>
                (#[trigger] r@[i]).0@ == footer_spec(self@.modal.kind)[i].0 && r@[i].1 == footer_spec(self@.modal.kind)[i].1,
    {
        self.modal.footer_items()
    }
}

/// Going back from the vector page after moving forward to it returns to
/// the database page as it was; going back from the database page after
/// moving to it from the dashboard, with no listing of databases, returns to
/// the dashboard as it was.
pub proof fn law_previous_page_undoes_next_page(a: AppView)
    ensures
        a.state == AppState::Database ==> a.next_page(None).previous_page() == a,
        a.state == AppState::Dashboard ==> a.next_page(None).previous_page() == a,
{
}

/// Moving the selection up or down keeps each page's selection on one of
/// its operations.
pub proof fn law_page_selection_bounded(a: AppView)
    requires
        a.db_selected < DB_OPERATIONS_COUNT,
        a.vector_selected < VECTOR_OPERATIONS_COUNT,
    ensures
        a.selection_down().db_selected < DB_OPERATIONS_COUNT,
        a.selection_down().vector_selected < VECTOR_OPERATIONS_COUNT,
        a.selection_up().db_selected < DB_OPERATIONS_COUNT,
        a.selection_up().vector_selected < VECTOR_OPERATIONS_COUNT,
{
}

} // verus!
