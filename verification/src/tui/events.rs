//! Key handling. Each handler is a step from the application state and a
//! key to the next state. What only the caller can find out (the directory
//! listing, whether a path exists, removing a directory, parsing a vector
//! of floats) comes in as `Facts`; when a step needs a fact it was not
//! given, it leaves the state untouched and answers `Step::Need` with the
//! request, and the caller runs the step again with the fact added.
use vstd::prelude::*;
use crate::storage::{spec_contains_point, spec_get_payload, spec_get_vector, spec_list_vectors, StorageEngine};
use crate::strings::{decimal, is_blank, is_blank_spec, parse_u64, push_decimal, spec_parse_u64};
use crate::tui::app::{items_view, App, AppView, ItemView};
use crate::tui::database::{database_error_message, db_error_debug, db_error_debug_string, entries_view, same_location, DatabaseError, DatabaseView};
use crate::tui::modal::{min_usize, ModalView};
use crate::tui::state::{AppState, ModalType, VectorListItem};
use crate::types::{DbError, DenseVector, Payload};

verus! {

/// How many vectors one page of the listing fetches.
pub const VECTOR_LIST_LIMIT: usize = 50;

/// A key the front end reacts to.
#[derive(Debug, Clone, Copy, PartialEq, Eq, Structural)]
pub enum Key {
    Char(char),
    Enter,
    Esc,
    Tab,
    Backspace,
    Up,
    Down,
    Left,
    Right,
    Other,
}

/// A terminal event.
#[derive(Debug, Clone, Copy, PartialEq, Eq, Structural)]
pub enum Event {
    Key(Key),
    Other,
}

/// A fact a step asks the caller for.
#[derive(Debug)]
pub enum Request {
    /// The databases found in the databases directory.
    ListDatabases,
    /// Whether this path exists on disk.
    PathExists(String),
    /// Remove this database directory (if it exists) and report the outcome.
    RemoveDatabaseDir(String),
    /// Parse this text as a vector of floats.
    ParseVector(String),
}

/// The facts the caller has established for a step.
pub struct Facts {
    /// The listing of the databases directory, or the error that stopped
    /// the reading. With the error come the databases read before it: none
    /// (`None`) when the directory could not be made and the known
    /// databases were not yet cleared, else those read so far.
    pub listing: Option<Result<Vec<(String, String)>, (Option<Vec<(String, String)>>, String)>>,
    /// A path and whether it exists.
    pub path_exists: Option<(String, bool)>,
    /// A database directory and the outcome of removing it.
    pub removal: Option<(String, Result<(), String>)>,
    /// A text and the vector it parses to (`None` when it does not parse).
    pub parsed_vector: Option<(String, Option<DenseVector>)>,
}

/// Why a step failed.
#[derive(Debug)]
pub enum AppError {
    Database(DatabaseError),
    /// An id field did not hold an integer.
    InvalidInput,
    Storage(DbError),
    /// A filesystem operation failed with this message.
    Filesystem(String),
}

/// What a step did.
#[derive(Debug)]
pub enum Step {
    Need(Request),
    Done(Result<(), AppError>),
}

pub enum RequestView {
    ListDatabases,
    PathExists(Seq<char>),
    RemoveDatabaseDir(Seq<char>),
    ParseVector(Seq<char>),
}

/// A step's error, as mathematical values.
pub enum ErrorView {
    /// A database of this name already exists.
    AlreadyExists(Seq<char>),
    /// The database's path does not exist.
    NotFound,
    CreateFailed(DbError),
    /// An id field did not hold an integer.
    InvalidInput,
    Storage(DbError),
    /// A filesystem operation failed with this message.
    Filesystem(Seq<char>),
}

pub enum StepView {
    Need(RequestView),
    Done(Result<(), ErrorView>),
}

pub struct FactsView {
    pub listing: Option<Result<Seq<(Seq<char>, Seq<char>)>, (Option<Seq<(Seq<char>, Seq<char>)>>, Seq<char>)>>,
    pub path_exists: Option<(Seq<char>, bool)>,
    pub removal: Option<(Seq<char>, Result<(), Seq<char>>)>,
    pub parsed_vector: Option<(Seq<char>, Option<Seq<u32>>)>,
}

impl FactsView {
    pub open spec fn exists_for(self, path: Seq<char>) -> Option<bool> {
        match self.path_exists {
            Some((p, b)) => if p == path { Some(b) } else { None },
            None => None,
        }
    }

    pub open spec fn removal_for(self, path: Seq<char>) -> Option<Result<(), Seq<char>>> {
        match self.removal {
            Some((p, r)) => if p == path { Some(r) } else { None },
            None => None,
        }
    }

    pub open spec fn parsed_for(self, text: Seq<char>) -> Option<Option<Seq<u32>>> {
        match self.parsed_vector {
            Some((t, v)) => if t == text { Some(v) } else { None },
            None => None,
        }
    }
}

impl View for Facts {
    type V = FactsView;

    open spec fn view(&self) -> FactsView {
        FactsView {
            listing: listing_view(self.listing),
            path_exists: match self.path_exists {
                Some((p, b)) => Some((p@, b)),
                None => None,
            },
            removal: match self.removal {
                Some((p, Ok(()))) => Some((p@, Ok(()))),
                Some((p, Err(m))) => Some((p@, Err(m@))),
                None => None,
            },
            parsed_vector: match self.parsed_vector {
                Some((t, Some(v))) => Some((t@, Some(v@))),
                Some((t, None)) => Some((t@, None)),
                None => None,
            },
        }
    }
}

pub open spec fn error_view(e: AppError) -> ErrorView {
    match e {
        AppError::Database(DatabaseError::AlreadyExists(n)) => ErrorView::AlreadyExists(n@),
        AppError::Database(DatabaseError::NotFound) => ErrorView::NotFound,
        AppError::Database(DatabaseError::CreateFailed(d)) => ErrorView::CreateFailed(d),
        AppError::InvalidInput => ErrorView::InvalidInput,
        AppError::Storage(s) => ErrorView::Storage(s),
        AppError::Filesystem(m) => ErrorView::Filesystem(m@),
    }
}

/// The text an error is reported with.
pub open spec fn error_text(e: ErrorView) -> Seq<char> {
    match e {
        ErrorView::AlreadyExists(name) => "Database '"@ + name + "' already exists!"@,
        ErrorView::NotFound => "Database path does not exist"@,
        ErrorView::CreateFailed(err) => "Failed to create database: "@ + db_error_debug(err),
        ErrorView::InvalidInput => "IDs should be an integer!"@,
        ErrorView::Storage(s) => db_error_debug(s),
        ErrorView::Filesystem(m) => m,
    }
}

pub open spec fn app_error_message(e: AppError) -> Seq<char> {
    error_text(error_view(e))
}

impl AppError {
    /// The text the error is reported with.
    pub fn message(&self) -> (r: String)
        ensures
            r@ == app_error_message(*self),
    {
        match self {
            AppError::Database(d) => d.message(),
            AppError::InvalidInput => String::from_str("IDs should be an integer!"),
            AppError::Storage(s) => db_error_debug_string(*s),
            AppError::Filesystem(m) => m.clone(),
        }
    }
}

impl View for Step {
    type V = StepView;

    open spec fn view(&self) -> StepView {
        match self {
            Step::Need(Request::ListDatabases) => StepView::Need(RequestView::ListDatabases),
            Step::Need(Request::PathExists(p)) => StepView::Need(RequestView::PathExists(p@)),
            Step::Need(Request::RemoveDatabaseDir(p)) => StepView::Need(RequestView::RemoveDatabaseDir(p@)),
            Step::Need(Request::ParseVector(t)) => StepView::Need(RequestView::ParseVector(t@)),
            Step::Done(Ok(())) => StepView::Done(Ok(())),
            Step::Done(Err(e)) => StepView::Done(Err(error_view(*e))),
        }
    }
}

/// Wraps a storage error.
pub fn to_io(e: DbError) -> (r: AppError)
    ensures
        r == AppError::Storage(e),
{
    AppError::Storage(e)
}

pub open spec fn done_ok() -> StepView {
    StepView::Done(Ok(()))
}

// ---------------------------------------------------------------------------
// Messages.

pub open spec fn no_database_message() -> Seq<char> {
    "No database selected!"@
}

pub open spec fn with_id(prefix: Seq<char>, id: u64, suffix: Seq<char>) -> Seq<char> {
    prefix + decimal(id as nat) + suffix
}

pub open spec fn databases_dir_path(name: Seq<char>) -> Seq<char> {
    "./databases/"@ + name
}

fn message_with_id(prefix: &str, id: u64, suffix: &str) -> (r: String)
    ensures
        r@ == with_id(prefix@, id, suffix@),
{
    let mut s = String::from_str(prefix);
    push_decimal(&mut s, id);
    s.append(suffix);
    r_eq(s)
}

fn r_eq(s: String) -> (r: String)
    ensures
        r == s,
{
    s
}

fn message_with_name(prefix: &str, name: &String, suffix: &str) -> (r: String)
    ensures
        r@ == prefix@ + name@ + suffix@,
{
    let mut s = String::from_str(prefix);
    s.append(name.as_str());
    s.append(suffix);
    s
}

fn clone_entries(v: &Vec<(String, String)>) -> (r: Vec<(String, String)>)
    ensures
        r@ == v@,
{
    let mut r: Vec<(String, String)> = Vec::new();
    let mut i: usize = 0;
    while i < v.len()
        invariant
            i <= v@.len(),
            r@ =~= v@.take(i as int),
        decreases v@.len() - i,
    {
        let e = (v[i].0.clone(), v[i].1.clone());
        r.push(e);
        i = i + 1;
        assert(r@ =~= v@.take(i as int));
    }
    assert(v@.take(v@.len() as int) =~= v@);
    r
}

/// A listing of the databases directory, as mathematical values.
pub open spec fn listing_view(x: Option<Result<Vec<(String, String)>, (Option<Vec<(String, String)>>, String)>>)
    -> Option<Result<Seq<(Seq<char>, Seq<char>)>, (Option<Seq<(Seq<char>, Seq<char>)>>, Seq<char>)>>
{
    match x {
        Some(Ok(l)) => Some(Ok(entries_view(l@))),
        Some(Err((Some(l), m))) => Some(Err((Some(entries_view(l@)), m@))),
        Some(Err((None, m))) => Some(Err((None, m@))),
        None => None,
    }
}

fn fact_listing(facts: &Facts) -> (r: Option<Result<Vec<(String, String)>, (Option<Vec<(String, String)>>, String)>>)
    ensures
        listing_view(r) == facts@.listing,
{
    match &facts.listing {
        Some(Ok(l)) => Some(Ok(clone_entries(l))),
        Some(Err((Some(l), m))) => Some(Err((Some(clone_entries(l)), m.clone()))),
        Some(Err((None, m))) => Some(Err((None, m.clone()))),
        None => None,
    }
}

fn fact_exists(facts: &Facts, path: &String) -> (r: Option<bool>)
    ensures
        r == facts@.exists_for(path@),
{
    match &facts.path_exists {
        Some((p, b)) => if p.eq(path) { Some(*b) } else { None },
        None => None,
    }
}

fn fact_removal(facts: &Facts, path: &String) -> (r: Option<Result<(), String>>)
    ensures
        match (r, facts@.removal_for(path@)) {
            (Some(Ok(())), Some(Ok(()))) => true,
            (Some(Err(e)), Some(Err(m))) => e@ == m,
            (None, None) => true,
            _ => false,
        },
{
    match &facts.removal {
        Some((p, res)) => if p.eq(path) {
            match res {
                Ok(()) => Some(Ok(())),
                Err(m) => Some(Err(m.clone())),
            }
        } else {
            None
        },
        None => None,
    }
}

fn fact_parsed(facts: &Facts, text: &String) -> (r: Option<Option<DenseVector>>)
    ensures
        match (r, facts@.parsed_for(text@)) {
            (Some(Some(v)), Some(Some(w))) => v@ == w,
            (Some(None), Some(None)) => true,
            (None, None) => true,
            _ => false,
        },
{
    match &facts.parsed_vector {
        Some((t, v)) => if t.eq(text) {
            match v {
                Some(w) => Some(Some(w.clone())),
                None => Some(None),
            }
        } else {
            None
        },
        None => None,
    }
}

// ---------------------------------------------------------------------------
// The vector listing and the details dialog.

/// The state after asking for the details of vector `id`.
pub open spec fn show_info(a: AppView, id: u64) -> AppView {
    match a.database.engine {
        None => a.with_modal(a.modal.with_error(no_database_message())),
        Some(_) => {
            let v = spec_get_vector(id);
            let p = spec_get_payload(id);
            if v is None && p is None {
                AppView {
                    post_restore: false,
                    detail: None,
                    modal: a.modal.with_result(ModalType::Failure, with_id("Vector with id="@, id, " not found!"@)),
                    ..a
                }
            } else {
                AppView {
                    post_restore: false,
                    detail: Some(ItemView {
                        id,
                        vector: match v { Some(w) => w, None => Seq::empty() },
                        payload: p,
                    }),
                    modal: a.modal.with_list(ModalType::VectorDetails),
                    ..a
                }
            }
        },
    }
}

/// The state after fetching the next page of the listing, and whether a
/// page came.
pub open spec fn fetched(a: AppView) -> (AppView, bool) {
    if a.database.engine is None {
        (a.with_modal(a.modal.with_error(no_database_message())), false)
    } else {
        match a.next_offset {
            None => (a, false),
            Some(offset) => match spec_list_vectors(offset, VECTOR_LIST_LIMIT) {
                None => (AppView { next_offset: None, ..a }, false),
                Some((vectors, next)) => if vectors.len() == 0 {
                    (AppView { next_offset: None, ..a }, false)
                } else {
                    (AppView {
                        items: a.items + listed_items(vectors),
                        next_offset: if vectors.len() == VECTOR_LIST_LIMIT { Some(next) } else { None },
                        ..a
                    }, true)
                },
            },
        }
    }
}

pub open spec fn opened_selected(a: AppView) -> AppView {
    let sel = a.modal.selected;
    if sel < a.items.len() {
        let b = show_info(a, a.items[sel as int].id);
        AppView {
            list_selected: sel,
            post_restore: b.modal.kind == Some(ModalType::VectorDetails),
            ..b
        }
    } else {
        a
    }
}

pub open spec fn reopened(a: AppView) -> AppView {
    let len = a.items.len();
    if len == 0 {
        AppView { post_restore: false, detail: None, modal: a.modal.closed(), ..a }
    } else {
        let desired = min_usize(a.list_selected, (len - 1) as usize);
        AppView {
            modal: a.modal.with_list(ModalType::ListVectors).with_selection(desired, len as usize),
            list_selected: desired,
            post_restore: false,
            detail: None,
            ..a
        }
    }
}

pub open spec fn detail_closed(a: AppView) -> AppView {
    if a.post_restore && a.items.len() > 0 {
        reopened(a)
    } else {
        AppView { detail: None, post_restore: false, modal: a.modal.closed(), ..a }
    }
}

pub open spec fn listing_initialized(a: AppView) -> AppView {
    if a.database.engine is None {
        a.with_modal(a.modal.with_error(no_database_message()))
    } else {
        let b = AppView {
            items: Seq::empty(),
            next_offset: Some(0),
            post_restore: false,
            list_selected: 0,
            detail: None,
            ..a
        };
        let (c, got) = fetched(b);
        if got {
            c.with_modal(c.modal.with_list(ModalType::ListVectors).with_selection(0, c.items.len() as usize))
        } else {
            c.with_modal(c.modal.with_result(ModalType::Failure, "No vectors found for the current query."@))
        }
    }
}

pub open spec fn delete_restored(a: AppView) -> AppView {
    let index = match a.pending_delete_index { Some(i) => i, None => a.modal.selected };
    let max = a.database.available.len() as usize;
    let top: usize = if max > 0 { (max - 1) as usize } else { 0 };
    AppView {
        modal: a.modal.with_list(ModalType::DeleteDatabase).with_selection(min_usize(index, top), max),
        pending_delete: None,
        pending_delete_index: None,
        post_restore: false,
        ..a
    }
}

pub fn show_vector_info(app: &mut App, id: u64) -> (r: Result<(), AppError>)
    ensures
        r is Ok,
        final(app)@ == show_info(old(app)@, id),
{
    let (vector_opt, payload_opt) = match &app.database.storage_engine {
        None => {
            app.modal.show_error(String::from_str("No database selected!"));
            return Ok(());
        },
        Some(storage) => {
            let v = match storage.get_vector(id) {
                Ok(v) => v,
                Err(e) => return Err(to_io(e)),
            };
            let p = match storage.get_payload(id) {
                Ok(p) => p,
                Err(e) => return Err(to_io(e)),
            };
            (v, p)
        },
    };
    app.vector_list_post_restore = false;
    if vector_opt.is_none() && payload_opt.is_none() {
        app.vector_detail = None;
        app.modal.show_failure(message_with_id("Vector with id=", id, " not found!"));
        return Ok(());
    }
    let vector = match vector_opt {
        Some(v) => v,
        None => Vec::new(),
    };
    app.vector_detail = Some(VectorListItem { id, vector, payload: payload_opt });
    app.modal.show_vector_details();
    Ok(())
}

pub fn fetch_next_vector_page(app: &mut App) -> (r: Result<bool, AppError>)
    ensures
        r matches Ok(got) && got == fetched(old(app)@).1,
        final(app)@ == fetched(old(app)@).0,
{
    if app.database.storage_engine.is_none() {
        app.modal.show_error(String::from_str("No database selected!"));
        return Ok(false);
    }
    let offset = match app.vector_list_next_offset {
        Some(o) => o,
        None => return Ok(false),
    };
    let response = match &app.database.storage_engine {
        Some(storage) => match storage.list_vectors(offset, VECTOR_LIST_LIMIT) {
            Ok(r) => r,
            Err(e) => return Err(to_io(e)),
        },
        None => None,
    };
    match response {
        None => {
            app.vector_list_next_offset = None;
            Ok(false)
        },
        Some((vectors, next_offset)) => {
            if vectors.len() == 0 {
                app.vector_list_next_offset = None;
                return Ok(false);
            }
            let vector_count = vectors.len();
            append_listed(app, &vectors)?;
            if vector_count == VECTOR_LIST_LIMIT {
                app.vector_list_next_offset = Some(next_offset);
            } else {
                app.vector_list_next_offset = None;
            }
            Ok(true)
        },
    }
}

pub open spec fn listed_items(vectors: Seq<(u64, Seq<u32>)>) -> Seq<ItemView> {
    vectors.map_values(|p: (u64, Seq<u32>)| ItemView { id: p.0, vector: p.1, payload: spec_get_payload(p.0) })
}

/// Appends the listed vectors, each with its payload, to the listing.
fn append_listed(app: &mut App, vectors: &Vec<(u64, DenseVector)>) -> (r: Result<(), AppError>)
    requires
        old(app).database.storage_engine is Some,
    ensures
        r is Ok,
        final(app)@ == (AppView {
            items: old(app)@.items + listed_items(vectors@.map_values(|p: (u64, DenseVector)| (p.0, p.1@))),
            ..old(app)@
        }),
{
    let ghost lv = vectors@.map_values(|p: (u64, DenseVector)| (p.0, p.1@));
    let mut i: usize = 0;
    while i < vectors.len()
        invariant
            i <= vectors@.len(),
            lv == vectors@.map_values(|p: (u64, DenseVector)| (p.0, p.1@)),
            app.database.storage_engine is Some,
            app@ == (AppView { items: old(app)@.items + listed_items(lv.take(i as int)), ..old(app)@ }),
        decreases vectors@.len() - i,
    {
        let id = vectors[i].0;
        let vector = vectors[i].1.clone();
        let payload = match &app.database.storage_engine {
            Some(storage) => match storage.get_payload(id) {
                Ok(p) => p,
                Err(e) => return Err(to_io(e)),
            },
            None => None,
        };
        let ghost before = app@;
        app.vector_list_items.push(VectorListItem { id, vector, payload });
        proof {
            assert(lv.take(i + 1) =~= lv.take(i as int).push(lv[i as int]));
            assert(listed_items(lv.take(i + 1)) =~= listed_items(lv.take(i as int)).push(
                ItemView { id, vector: vector@, payload }));
            assert(items_view(app.vector_list_items@) =~= before.items.push(ItemView { id, vector: vector@, payload }));
            assert(old(app)@.items + listed_items(lv.take(i + 1)) =~= (old(app)@.items + listed_items(lv.take(i as int))).push(
                ItemView { id, vector: vector@, payload }));
        }
        i = i + 1;
    }
    assert(lv.take(vectors@.len() as int) =~= lv);
    Ok(())
}

pub fn open_selected_vector_from_list(app: &mut App) -> (r: Result<(), AppError>)
    ensures
        r is Ok,
        final(app)@ == opened_selected(old(app)@),
{
    let selected_index = app.modal.selected_index();
    if selected_index < app.vector_list_items.len() {
        let id = app.vector_list_items[selected_index].id;
        show_vector_info(app, id)?;
        app.vector_list_selected_index = selected_index;
        app.vector_list_post_restore = match app.modal.modal_type() {
            Some(ModalType::VectorDetails) => true,
            _ => false,
        };
    }
    Ok(())
}

pub fn reopen_vector_list_modal(app: &mut App)
    ensures
        final(app)@ == reopened(old(app)@),
{
    let len = app.vector_list_items.len();
    if len == 0 {
        app.vector_list_post_restore = false;
        app.vector_detail = None;
        app.modal.close();
        return;
    }
    let desired_index = if app.vector_list_selected_index <= len - 1 { app.vector_list_selected_index } else { len - 1 };
    app.modal.show_vector_list();
    app.modal.set_selected_index(desired_index, len);
    app.vector_list_selected_index = desired_index;
    app.vector_list_post_restore = false;
    app.vector_detail = None;
}

pub fn close_vector_detail_modal(app: &mut App)
    ensures
        final(app)@ == detail_closed(old(app)@),
{
    if app.vector_list_post_restore && app.vector_list_items.len() > 0 {
        reopen_vector_list_modal(app);
    } else {
        app.vector_detail = None;
        app.vector_list_post_restore = false;
        app.modal.close();
    }
}

pub fn initialize_vector_listing(app: &mut App) -> (r: Result<(), AppError>)
    ensures
        r is Ok,
        final(app)@ == listing_initialized(old(app)@),
{
    if app.database.storage_engine.is_none() {
        app.modal.show_error(String::from_str("No database selected!"));
        return Ok(());
    }
    app.vector_list_items = Vec::new();
    app.vector_list_next_offset = Some(0);
    app.vector_list_post_restore = false;
    app.vector_list_selected_index = 0;
    app.vector_detail = None;
    assert(items_view(app.vector_list_items@) =~= Seq::<ItemView>::empty());
    if fetch_next_vector_page(app)? {
        app.modal.show_vector_list();
        let len = app.vector_list_items.len();
        app.modal.set_selected_index(0, len);
    } else {
        app.modal.show_failure(String::from_str("No vectors found for the current query."));
    }
    Ok(())
}

pub fn restore_delete_database_modal(app: &mut App)
    ensures
        final(app)@ == delete_restored(old(app)@),
{
    let index = match app.pending_delete_database_index {
        Some(i) => i,
        None => app.modal.selected_index(),
    };
    app.modal.show_delete_database();
    let max_items = app.database.available_databases.len();
    let top = if max_items > 0 { max_items - 1 } else { 0 };
    let target = if index <= top { index } else { top };
    app.modal.set_selected_index(target, max_items);
    app.pending_delete_database = None;
    app.pending_delete_database_index = None;
    app.vector_list_post_restore = false;
}

// ---------------------------------------------------------------------------
// Steps that may need facts from the caller.

/// The step of opening the dialog of the selected database operation.
pub open spec fn db_modal_opened(a: AppView, f: FactsView) -> (AppView, StepView) {
    if a.db_selected == 0 {
        (a.with_modal(a.modal.with_create_database()), done_ok())
    } else if a.db_selected == 1 || a.db_selected == 2 {
        match f.listing {
            None => (a, StepView::Need(RequestView::ListDatabases)),
            Some(Err((read, m))) => (
                AppView { database: a.database.reloaded(read), ..a },
                StepView::Done(Err(ErrorView::Filesystem(m))),
            ),
            Some(Ok(l)) => {
                let b = AppView { database: DatabaseView { available: l, ..a.database }, ..a };
                let kind = if a.db_selected == 1 { ModalType::DatabaseList } else { ModalType::DeleteDatabase };
                (b.with_modal(b.modal.with_list(kind)), done_ok())
            },
        }
    } else {
        (a, done_ok())
    }
}

/// The step of selecting the database under the cursor; the dialog closes
/// afterwards when `close` holds.
pub open spec fn select_step(a: AppView, f: FactsView, close: bool) -> (AppView, StepView) {
    let sel = a.modal.selected;
    if sel < a.database.available.len() {
        let (name, path) = a.database.available[sel as int];
        match f.exists_for(path) {
            None => (a, StepView::Need(RequestView::PathExists(path))),
            Some(false) => (a, StepView::Done(Err(ErrorView::NotFound))),
            Some(true) => {
                let b = AppView { database: a.database.selecting(name, path, true).0, ..a };
                if close {
                    (b.with_modal(b.modal.closed()), done_ok())
                } else {
                    (b, done_ok())
                }
            },
        }
    } else {
        (a, done_ok())
    }
}

/// The state after choosing the database under the cursor for deletion.
pub open spec fn picked_for_delete(a: AppView) -> AppView {
    let sel = a.modal.selected;
    if sel < a.database.available.len() {
        let (name, path) = a.database.available[sel as int];
        AppView {
            pending_delete: Some((name, path)),
            pending_delete_index: Some(sel),
            modal: a.modal.with_confirm_delete_database(name),
            ..a
        }
    } else {
        a
    }
}

/// The step of confirming an input dialog with Enter.
pub open spec fn modal_action(a: AppView, f: FactsView) -> (AppView, StepView) {
    match a.modal.kind {
        Some(ModalType::CreateDatabase) => {
            let name = a.modal.input;
            if name.len() == 0 {
                (a, done_ok())
            } else {
                let path = databases_dir_path(name);
                match f.exists_for(path) {
                    None => (a, StepView::Need(RequestView::PathExists(path))),
                    Some(true) => (a, StepView::Done(Err(ErrorView::AlreadyExists(name)))),
                    Some(false) => {
                        let b = AppView { database: a.database.created(name, path, false).0, ..a };
                        (b.with_modal(b.modal.with_result(ModalType::Success, "Created database '"@ + name + "'"@)), done_ok())
                    },
                }
            }
        },
        Some(ModalType::DatabaseList) => select_step(a, f, false),
        Some(ModalType::DeleteDatabase) => (picked_for_delete(a), done_ok()),
        Some(ModalType::GetVector) => match spec_parse_u64(a.modal.input) {
            None => (a, StepView::Done(Err(ErrorView::InvalidInput))),
            Some(id) => (show_info(a, id), done_ok()),
        },
        Some(ModalType::InsertVector) => match spec_parse_u64(a.modal.input) {
            None => (a, StepView::Done(Err(ErrorView::InvalidInput))),
            Some(id) => match f.parsed_for(a.modal.secondary) {
                None => (a, StepView::Need(RequestView::ParseVector(a.modal.secondary))),
                Some(None) => (a.with_modal(a.modal.with_result(ModalType::Failure,
                    "Vectors should be a list of floats (e.g. [0.1,0.2,...])!"@)), done_ok()),
                Some(Some(_)) => if a.database.engine is None {
                    (a.with_modal(a.modal.with_error(no_database_message())), done_ok())
                } else {
                    (a.with_modal(a.modal.with_result(ModalType::Success, with_id("Inserted vector with id="@, id, "!"@))), done_ok())
                },
            },
        },
        Some(ModalType::DeleteVector) => match spec_parse_u64(a.modal.input) {
            None => (a, StepView::Done(Err(ErrorView::InvalidInput))),
            Some(id) => if a.database.engine is None {
                (a.with_modal(a.modal.with_error(no_database_message())), done_ok())
            } else if spec_contains_point(id) {
                (a.with_modal(a.modal.with_result(ModalType::Success, with_id("Deleted vector id="@, id, ""@))), done_ok())
            } else {
                (a.with_modal(a.modal.with_result(ModalType::Failure, with_id("Vector with id="@, id, " not found"@))), done_ok())
            },
        },
        _ => (a, done_ok()),
    }
}

/// The step of confirming a database list dialog with Enter.
pub open spec fn db_operation(a: AppView, f: FactsView) -> (AppView, StepView) {
    match a.modal.kind {
        Some(ModalType::DatabaseList) => select_step(a, f, true),
        Some(ModalType::DeleteDatabase) => (picked_for_delete(a), done_ok()),
        Some(ModalType::ConfirmDeleteDatabase) => if a.modal.selected == 0 {
            match a.pending_delete {
                None => (a, done_ok()),
                Some((name, path)) => match f.removal_for(path) {
                    None => (a, StepView::Need(RequestView::RemoveDatabaseDir(path))),
                    Some(Err(m)) => (AppView { pending_delete: None, database: a.database.deleting(path), ..a }, StepView::Done(Err(ErrorView::Filesystem(m)))),
                    Some(Ok(())) => {
                        let b = AppView {
                            pending_delete: None,
                            pending_delete_index: None,
                            database: a.database.deleting(path),
                            ..a
                        };
                        (b.with_modal(b.modal.with_result(ModalType::Success, "Deleted database '"@ + name + "'"@)), done_ok())
                    },
                },
            }
        } else {
            (delete_restored(a), done_ok())
        },
        _ => (a, done_ok()),
    }
}

pub fn open_database_modal(app: &mut App, facts: &Facts) -> (r: Step)
    ensures
        final(app)@ == db_modal_opened(old(app)@, facts@).0,
        r@ == db_modal_opened(old(app)@, facts@).1,
{
    if app.db_selected == 0 {
        app.modal.show_create_database();
        return Step::Done(Ok(()));
    }
    if app.db_selected == 1 || app.db_selected == 2 {
        match fact_listing(facts) {
            None => return Step::Need(Request::ListDatabases),
            Some(Err((read, m))) => {
                if let Some(l) = read {
                    app.database.load_available_databases(l);
                }
                return Step::Done(Err(AppError::Filesystem(m)));
            },
            Some(Ok(l)) => {
                app.database.load_available_databases(l);
                if app.db_selected == 1 {
                    app.modal.show_database_list();
                } else {
                    app.modal.show_delete_database();
                }
                return Step::Done(Ok(()));
            },
        }
    }
    Step::Done(Ok(()))
}

fn select_selected_database(app: &mut App, facts: &Facts, close: bool) -> (r: Step)
    ensures
        final(app)@ == select_step(old(app)@, facts@, close).0,
        r@ == select_step(old(app)@, facts@, close).1,
{
    let selected_index = app.modal.selected_index();
    if selected_index < app.database.available_databases.len() {
        let name = app.database.available_databases[selected_index].0.clone();
        let path = app.database.available_databases[selected_index].1.clone();
        match fact_exists(facts, &path) {
            None => Step::Need(Request::PathExists(path)),
            Some(exists) => {
                match app.database.select_database(name, path, exists) {
                    Err(e) => Step::Done(Err(AppError::Database(e))),
                    Ok(()) => {
                        if close {
                            app.modal.close();
                        }
                        Step::Done(Ok(()))
                    },
                }
            },
        }
    } else {
        Step::Done(Ok(()))
    }
}

fn pick_selected_for_delete(app: &mut App)
    ensures
        final(app)@ == picked_for_delete(old(app)@),
{
    let selected_index = app.modal.selected_index();
    if selected_index < app.database.available_databases.len() {
        let name = app.database.available_databases[selected_index].0.clone();
        let path = app.database.available_databases[selected_index].1.clone();
        app.pending_delete_database = Some((name.clone(), path));
        app.pending_delete_database_index = Some(selected_index);
        app.modal.show_confirm_delete_database(name);
    }
}

pub fn execute_modal_action(app: &mut App, facts: &Facts) -> (r: Step)
    ensures
        final(app)@ == modal_action(old(app)@, facts@).0,
        r@ == modal_action(old(app)@, facts@).1,
{
    let kind: Option<ModalType> = match app.modal.modal_type() {
        Some(k) => Some(*k),
        None => None,
    };
    match kind {
        Some(ModalType::CreateDatabase) => {
            let input = app.modal.get_input_value();
            if !input.as_str().is_empty() {
                let path = message_with_name("./databases/", &input, "");
                proof {
                    reveal_strlit("");
                    assert(path@ =~= databases_dir_path(input@));
                }
                match fact_exists(facts, &path) {
                    None => Step::Need(Request::PathExists(path)),
                    Some(exists) => {
                        let name = input.clone();
                        match app.database.create_new_database(name, path, exists) {
                            Err(e) => Step::Done(Err(AppError::Database(e))),
                            Ok(()) => {
                                app.modal.show_success(message_with_name("Created database '", &input, "'"));
                                Step::Done(Ok(()))
                            },
                        }
                    },
                }
            } else {
                Step::Done(Ok(()))
            }
        },
        Some(ModalType::DatabaseList) => select_selected_database(app, facts, false),
        Some(ModalType::DeleteDatabase) => {
            pick_selected_for_delete(app);
            Step::Done(Ok(()))
        },
        Some(ModalType::GetVector) => {
            let input = app.modal.get_input_value();
            match parse_u64(input.as_str()) {
                None => Step::Done(Err(AppError::InvalidInput)),
                Some(id) => match show_vector_info(app, id) {
                    Ok(()) => Step::Done(Ok(())),
                    Err(e) => Step::Done(Err(e)),
                },
            }
        },
        Some(ModalType::InsertVector) => {
            let id_text = app.modal.get_input_value();
            let vec_text = app.modal.secondary_input().to_owned();
            let payload_blank = is_blank(app.modal.tertiary_input());
            match parse_u64(id_text.as_str()) {
                None => Step::Done(Err(AppError::InvalidInput)),
                Some(id) => match fact_parsed(facts, &vec_text) {
                    None => Step::Need(Request::ParseVector(vec_text)),
                    Some(None) => {
                        app.modal.show_failure(String::from_str("Vectors should be a list of floats (e.g. [0.1,0.2,...])!"));
                        Step::Done(Ok(()))
                    },
                    Some(Some(vector)) => {
                        let outcome = match &app.database.storage_engine {
                            Some(storage) => {
                                let payload_opt = if payload_blank { None } else { Some(Payload {}) };
                                Some(storage.insert_point(id, Some(vector), payload_opt))
                            },
                            None => None,
                        };
                        match outcome {
                            Some(Ok(())) => app.modal.show_success(message_with_id("Inserted vector with id=", id, "!")),
                            Some(Err(e)) => {
                                let mut m = String::from_str("Storage error: ");
                                let d = db_error_debug_string(e);
                                m.append(d.as_str());
                                app.modal.show_failure(m);
                            },
                            None => app.modal.show_error(String::from_str("No database selected!")),
                        }
                        Step::Done(Ok(()))
                    },
                },
            }
        },
        Some(ModalType::DeleteVector) => {
            let input = app.modal.get_input_value();
            match parse_u64(input.as_str()) {
                None => Step::Done(Err(AppError::InvalidInput)),
                Some(id) => {
                    let outcome = match &app.database.storage_engine {
                        Some(storage) => match storage.contains_point(id) {
                            Ok(exists) => if !exists {
                                Some(Ok(false))
                            } else {
                                match storage.delete_point(id) {
                                    Ok(()) => Some(Ok(true)),
                                    Err(e) => Some(Err(e)),
                                }
                            },
                            Err(e) => Some(Err(e)),
                        },
                        None => None,
                    };
                    match outcome {
                        Some(Ok(true)) => app.modal.show_success(message_with_id("Deleted vector id=", id, "")),
                        Some(Ok(false)) => app.modal.show_failure(message_with_id("Vector with id=", id, " not found")),
                        Some(Err(e)) => {
                            let mut m = String::from_str("Storage error: ");
                            let d = db_error_debug_string(e);
                            m.append(d.as_str());
                            app.modal.show_failure(m);
                        },
                        None => app.modal.show_error(String::from_str("No database selected!")),
                    }
                    Step::Done(Ok(()))
                },
            }
        },
        _ => Step::Done(Ok(())),
    }
}

pub fn execute_selected_db_operation(app: &mut App, facts: &Facts) -> (r: Step)
    ensures
        final(app)@ == db_operation(old(app)@, facts@).0,
        r@ == db_operation(old(app)@, facts@).1,
{
    let kind: Option<ModalType> = match app.modal.modal_type() {
        Some(k) => Some(*k),
        None => None,
    };
    match kind {
        Some(ModalType::DatabaseList) => select_selected_database(app, facts, true),
        Some(ModalType::DeleteDatabase) => {
            pick_selected_for_delete(app);
            Step::Done(Ok(()))
        },
        Some(ModalType::ConfirmDeleteDatabase) => {
            if app.modal.selected_index() == 0 {
                let pending = match &app.pending_delete_database {
                    Some((n, p)) => Some((n.clone(), p.clone())),
                    None => None,
                };
                match pending {
                    None => Step::Done(Ok(())),
                    Some((name, path)) => match fact_removal(facts, &path) {
                        None => Step::Need(Request::RemoveDatabaseDir(path)),
                        Some(removed) => {
                            app.pending_delete_database = None;
                            app.database.delete_database(&path);
                            match removed {
                                Err(m) => Step::Done(Err(AppError::Filesystem(m))),
                                Ok(()) => {
                                    app.pending_delete_database_index = None;
                                    app.modal.show_success(message_with_name("Deleted database '", &name, "'"));
                                    Step::Done(Ok(()))
                                },
                            }
                        },
                    },
                }
            } else {
                restore_delete_database_modal(app);
                Step::Done(Ok(()))
            }
        },
        _ => Step::Done(Ok(())),
    }
}

// ---------------------------------------------------------------------------
// Key handlers.

/// Result dialogs stay open after their action; others close.
pub open spec fn stays_open(kind: Option<ModalType>) -> bool {
    kind == Some(ModalType::Success) || kind == Some(ModalType::Failure)
        || kind == Some(ModalType::Error) || kind == Some(ModalType::VectorDetails)
}

/// A key in a dialog that takes input.
pub open spec fn modal_input_step(a: AppView, key: Key, f: FactsView) -> (AppView, StepView) {
    match key {
        Key::Enter => {
            let (b, s) = modal_action(a, f);
            match s {
                StepView::Need(r) => (a, StepView::Need(r)),
                StepView::Done(Ok(())) => if stays_open(b.modal.kind) {
                    (b, done_ok())
                } else {
                    (b.with_modal(b.modal.closed()), done_ok())
                },
                StepView::Done(Err(m)) => (b.with_modal(b.modal.with_error(error_text(m))), done_ok()),
            }
        },
        Key::Esc => (a.with_modal(a.modal.closed()), done_ok()),
        Key::Tab => (a.with_modal(a.modal.next_field()), done_ok()),
        Key::Char(c) => (a.with_modal(a.modal.with_char(c)), done_ok()),
        Key::Backspace => (a.with_modal(a.modal.without_last_char()), done_ok()),
        _ => (a, done_ok()),
    }
}

/// The state after moving down in the vector listing, fetching the next
/// page when the cursor is on the last listed vector.
pub open spec fn listing_down(a: AppView) -> AppView {
    let len = a.items.len();
    if len == 0 {
        a
    } else if a.modal.selected + 1 >= len {
        let (b, got) = fetched(a);
        let max = if got { b.items.len() } else { len };
        let m = b.modal.selection_down(max as usize);
        AppView { modal: m, list_selected: m.selected, ..b }
    } else {
        let m = a.modal.selection_down(len as usize);
        AppView { modal: m, list_selected: m.selected, ..a }
    }
}

/// A key in a dialog that is navigated.
pub open spec fn modal_navigation_step(a: AppView, key: Key, f: FactsView) -> (AppView, StepView) {
    let kind = a.modal.kind;
    match key {
        Key::Enter => {
            if kind == Some(ModalType::DatabaseList) || kind == Some(ModalType::DeleteDatabase)
                || kind == Some(ModalType::ConfirmDeleteDatabase) {
                let (b, s) = db_operation(a, f);
                match s {
                    StepView::Need(r) => (a, StepView::Need(r)),
                    StepView::Done(Err(m)) => (b.with_modal(b.modal.with_error(error_text(m))), done_ok()),
                    StepView::Done(Ok(())) => (b, done_ok()),
                }
            } else if kind == Some(ModalType::ListVectors) {
                (opened_selected(a), done_ok())
            } else if kind == Some(ModalType::Error) {
                (a.with_modal(a.modal.closed()), done_ok())
            } else if kind == Some(ModalType::VectorDetails) {
                (detail_closed(a), done_ok())
            } else {
                (a.with_modal(ModalView { input_mode: true, ..a.modal }), done_ok())
            }
        },
        Key::Esc => {
            if (kind == Some(ModalType::Success) || kind == Some(ModalType::Failure)
                || kind == Some(ModalType::VectorDetails)) && a.post_restore && a.items.len() > 0 {
                (reopened(a), done_ok())
            } else if kind == Some(ModalType::ConfirmDeleteDatabase) {
                (delete_restored(AppView { post_restore: false, ..a }), done_ok())
            } else if kind == Some(ModalType::ListVectors) {
                (AppView { post_restore: false, next_offset: None, modal: a.modal.closed(), ..a }, done_ok())
            } else if kind == Some(ModalType::VectorDetails) {
                (detail_closed(a), done_ok())
            } else {
                (AppView { post_restore: false, modal: a.modal.closed(), ..a }, done_ok())
            }
        },
        Key::Up => {
            if kind == Some(ModalType::DatabaseList) || kind == Some(ModalType::DeleteDatabase) {
                (a.selection_up(), done_ok())
            } else if kind == Some(ModalType::ListVectors) {
                if a.modal.selected > 0 {
                    let m = a.modal.selection_up();
                    (AppView { modal: m, list_selected: m.selected, ..a }, done_ok())
                } else {
                    (a, done_ok())
                }
            } else if kind == Some(ModalType::ConfirmDeleteDatabase) {
                (a.with_modal(a.modal.with_selection(0, 2)), done_ok())
            } else {
                (a, done_ok())
            }
        },
        Key::Down => {
            if kind == Some(ModalType::DatabaseList) || kind == Some(ModalType::DeleteDatabase) {
                (a.selection_down(), done_ok())
            } else if kind == Some(ModalType::ListVectors) {
                (listing_down(a), done_ok())
            } else if kind == Some(ModalType::ConfirmDeleteDatabase) {
                (a.with_modal(a.modal.with_selection(1, 2)), done_ok())
            } else {
                (a, done_ok())
            }
        },
        Key::Left => if kind == Some(ModalType::ConfirmDeleteDatabase) {
            (a.with_modal(a.modal.with_selection(0, 2)), done_ok())
        } else {
            (a, done_ok())
        },
        Key::Right => if kind == Some(ModalType::ConfirmDeleteDatabase) {
            (a.with_modal(a.modal.with_selection(1, 2)), done_ok())
        } else {
            (a, done_ok())
        },
        _ => (a, done_ok()),
    }
}

/// A key on the database page with no dialog open.
pub open spec fn database_keys_step(a: AppView, key: Key, f: FactsView) -> (AppView, StepView) {
    match key {
        Key::Enter => {
            let (b, s) = db_modal_opened(a, f);
            match s {
                StepView::Need(r) => (a, StepView::Need(r)),
                StepView::Done(Err(m)) => (b.with_modal(b.modal.with_error(error_text(m))), done_ok()),
                StepView::Done(Ok(())) => (b, done_ok()),
            }
        },
        Key::Up => (a.selection_up(), done_ok()),
        Key::Down => (a.selection_down(), done_ok()),
        Key::Left => (a.previous_page(), done_ok()),
        Key::Right => (a.next_page(None), done_ok()),
        Key::Char(c) => if c == 'q' { (a.quitting(), done_ok()) } else { (a, done_ok()) },
        Key::Esc => (a.quitting(), done_ok()),
        _ => (a, done_ok()),
    }
}

/// Moving to the next page, which reloads the known databases when it
/// leaves the dashboard (after a failed reload they are those read before
/// the failure, or as they were when the directory could not be made).
pub open spec fn next_page_step(a: AppView, f: FactsView) -> (AppView, StepView) {
    if a.state == AppState::Dashboard {
        match f.listing {
            None => (a, StepView::Need(RequestView::ListDatabases)),
            Some(Ok(l)) => (a.next_page(Some(l)), done_ok()),
            Some(Err((read, _))) => (a.next_page(read), done_ok()),
        }
    } else {
        (a.next_page(None), done_ok())
    }
}

/// A key on the dashboard or the vector page with no dialog open.
pub open spec fn general_keys_step(a: AppView, key: Key, f: FactsView) -> (AppView, StepView) {
    match key {
        Key::Char(c) => if c == 'q' { (a.quitting(), done_ok()) } else { (a, done_ok()) },
        Key::Esc => (a.quitting(), done_ok()),
        Key::Right => next_page_step(a, f),
        Key::Enter => if a.state == AppState::VectorOperations {
            if a.vector_selected == 0 {
                (listing_initialized(a), done_ok())
            } else if a.vector_selected == 1 {
                (a.with_modal(a.modal.with_get_vector()), done_ok())
            } else if a.vector_selected == 2 {
                (a.with_modal(a.modal.with_insert_vector()), done_ok())
            } else if a.vector_selected == 3 {
                (a.with_modal(a.modal.with_delete_vector()), done_ok())
            } else {
                (a, done_ok())
            }
        } else {
            next_page_step(a, f)
        },
        Key::Left => (a.previous_page(), done_ok()),
        Key::Up => (a.selection_up(), done_ok()),
        Key::Down => (a.selection_down(), done_ok()),
        _ => (a, done_ok()),
    }
}

/// A key pressed anywhere.
pub open spec fn key_step(a: AppView, key: Key, f: FactsView) -> (AppView, StepView) {
    if a.modal.show && a.modal.input_mode {
        modal_input_step(a, key, f)
    } else if a.modal.show {
        modal_navigation_step(a, key, f)
    } else if a.state == AppState::Database {
        database_keys_step(a, key, f)
    } else {
        general_keys_step(a, key, f)
    }
}

fn current_kind(app: &App) -> (r: Option<ModalType>)
    ensures
        r == app@.modal.kind,
{
    match app.modal.modal_type() {
        Some(k) => Some(*k),
        None => None,
    }
}

pub fn handle_modal_input(app: &mut App, key: Key, facts: &Facts) -> (r: Step)
    ensures
        final(app)@ == modal_input_step(old(app)@, key, facts@).0,
        r@ == modal_input_step(old(app)@, key, facts@).1,
{
    match key {
        Key::Enter => match execute_modal_action(app, facts) {
            Step::Need(req) => Step::Need(req),
            Step::Done(Ok(())) => {
                let kind = current_kind(app);
                match kind {
                    Some(ModalType::Success) | Some(ModalType::Failure) | Some(ModalType::Error)
                    | Some(ModalType::VectorDetails) => {},
                    _ => app.modal.close(),
                }
                Step::Done(Ok(()))
            },
            Step::Done(Err(err)) => {
                app.modal.show_error(err.message());
                Step::Done(Ok(()))
            },
        },
        Key::Esc => {
            app.modal.close();
            Step::Done(Ok(()))
        },
        Key::Tab => {
            app.switch_field();
            Step::Done(Ok(()))
        },
        Key::Char(c) => {
            app.modal.add_char(c);
            Step::Done(Ok(()))
        },
        Key::Backspace => {
            app.modal.remove_char();
            Step::Done(Ok(()))
        },
        _ => Step::Done(Ok(())),
    }
}

fn move_down_in_listing(app: &mut App) -> (r: Result<(), AppError>)
    ensures
        r is Ok,
        final(app)@ == listing_down(old(app)@),
{
    let current_len = app.vector_list_items.len();
    if current_len == 0 {
        return Ok(());
    }
    proof { use_type_invariant(&app.modal); }
    let mut max_items = current_len;
    if app.modal.selected_index() + 1 >= current_len {
        if fetch_next_vector_page(app)? {
            max_items = app.vector_list_items.len();
        }
    }
    app.modal.select_next(max_items);
    app.vector_list_selected_index = app.modal.selected_index();
    Ok(())
}

pub fn handle_modal_navigation(app: &mut App, key: Key, facts: &Facts) -> (r: Step)
    requires
        key == Key::Down && (old(app)@.modal.kind == Some(ModalType::DatabaseList)
            || old(app)@.modal.kind == Some(ModalType::DeleteDatabase)) ==> old(app)@.down_fits(),
    ensures
        final(app)@ == modal_navigation_step(old(app)@, key, facts@).0,
        r@ == modal_navigation_step(old(app)@, key, facts@).1,
{
    let kind = current_kind(app);
    match key {
        Key::Enter => {
            if kind == Some(ModalType::DatabaseList) || kind == Some(ModalType::DeleteDatabase)
                || kind == Some(ModalType::ConfirmDeleteDatabase) {
                match execute_selected_db_operation(app, facts) {
                    Step::Need(req) => Step::Need(req),
                    Step::Done(Err(err)) => {
                        app.modal.show_error(err.message());
                        Step::Done(Ok(()))
                    },
                    Step::Done(Ok(())) => Step::Done(Ok(())),
                }
            } else if kind == Some(ModalType::ListVectors) {
                match open_selected_vector_from_list(app) {
                    Ok(()) => Step::Done(Ok(())),
                    Err(e) => Step::Done(Err(e)),
                }
            } else if kind == Some(ModalType::Error) {
                app.modal.close();
                Step::Done(Ok(()))
            } else if kind == Some(ModalType::VectorDetails) {
                close_vector_detail_modal(app);
                Step::Done(Ok(()))
            } else {
                app.modal.enable_input_mode();
                Step::Done(Ok(()))
            }
        },
        Key::Esc => {
            if (kind == Some(ModalType::Success) || kind == Some(ModalType::Failure)
                || kind == Some(ModalType::VectorDetails)) && app.vector_list_post_restore
                && app.vector_list_items.len() > 0 {
                reopen_vector_list_modal(app);
            } else if kind == Some(ModalType::ConfirmDeleteDatabase) {
                app.vector_list_post_restore = false;
                restore_delete_database_modal(app);
            } else if kind == Some(ModalType::ListVectors) {
                app.vector_list_post_restore = false;
                app.vector_list_next_offset = None;
                app.modal.close();
            } else if kind == Some(ModalType::VectorDetails) {
                close_vector_detail_modal(app);
            } else {
                app.vector_list_post_restore = false;
                app.modal.close();
            }
            Step::Done(Ok(()))
        },
        Key::Up => {
            if kind == Some(ModalType::DatabaseList) || kind == Some(ModalType::DeleteDatabase) {
                app.select_previous();
            } else if kind == Some(ModalType::ListVectors) {
                if app.modal.selected_index() > 0 {
                    app.modal.select_previous();
                    app.vector_list_selected_index = app.modal.selected_index();
                }
            } else if kind == Some(ModalType::ConfirmDeleteDatabase) {
                app.modal.set_selected_index(0, 2);
            }
            Step::Done(Ok(()))
        },
        Key::Down => {
            if kind == Some(ModalType::DatabaseList) || kind == Some(ModalType::DeleteDatabase) {
                app.select_next();
                Step::Done(Ok(()))
            } else if kind == Some(ModalType::ListVectors) {
                match move_down_in_listing(app) {
                    Ok(()) => Step::Done(Ok(())),
                    Err(e) => Step::Done(Err(e)),
                }
            } else {
                if kind == Some(ModalType::ConfirmDeleteDatabase) {
                    app.modal.set_selected_index(1, 2);
                }
                Step::Done(Ok(()))
            }
        },
        Key::Left => {
            if kind == Some(ModalType::ConfirmDeleteDatabase) {
                app.modal.set_selected_index(0, 2);
            }
            Step::Done(Ok(()))
        },
        Key::Right => {
            if kind == Some(ModalType::ConfirmDeleteDatabase) {
                app.modal.set_selected_index(1, 2);
            }
            Step::Done(Ok(()))
        },
        _ => Step::Done(Ok(())),
    }
}

pub fn handle_database_keys(app: &mut App, key: Key, facts: &Facts) -> (r: Step)
    requires
        key == Key::Down ==> old(app)@.down_fits(),
    ensures
        final(app)@ == database_keys_step(old(app)@, key, facts@).0,
        r@ == database_keys_step(old(app)@, key, facts@).1,
{
    match key {
        Key::Enter => match open_database_modal(app, facts) {
            Step::Need(req) => Step::Need(req),
            Step::Done(Err(err)) => {
                app.modal.show_error(err.message());
                Step::Done(Ok(()))
            },
            Step::Done(Ok(())) => Step::Done(Ok(())),
        },
        Key::Up => {
            app.select_previous();
            Step::Done(Ok(()))
        },
        Key::Down => {
            app.select_next();
            Step::Done(Ok(()))
        },
        Key::Left => {
            app.previous_page();
            Step::Done(Ok(()))
        },
        Key::Right => {
            app.next_page(None);
            Step::Done(Ok(()))
        },
        Key::Char(c) => {
            if c == 'q' {
                app.quit();
            }
            Step::Done(Ok(()))
        },
        Key::Esc => {
            app.quit();
            Step::Done(Ok(()))
        },
        _ => Step::Done(Ok(())),
    }
}

fn go_to_next_page(app: &mut App, facts: &Facts) -> (r: Step)
    ensures
        final(app)@ == next_page_step(old(app)@, facts@).0,
        r@ == next_page_step(old(app)@, facts@).1,
{
    if app.state == AppState::Dashboard {
        match fact_listing(facts) {
            None => Step::Need(Request::ListDatabases),
            Some(Ok(l)) => {
                app.next_page(Some(l));
                Step::Done(Ok(()))
            },
            Some(Err((read, _))) => {
                app.next_page(read);
                Step::Done(Ok(()))
            },
        }
    } else {
        app.next_page(None);
        Step::Done(Ok(()))
    }
}

pub fn handle_general_keys(app: &mut App, key: Key, facts: &Facts) -> (r: Step)
    requires
        key == Key::Down ==> old(app)@.down_fits(),
    ensures
        final(app)@ == general_keys_step(old(app)@, key, facts@).0,
        r@ == general_keys_step(old(app)@, key, facts@).1,
{
    match key {
        Key::Char(c) => {
            if c == 'q' {
                app.quit();
            }
            Step::Done(Ok(()))
        },
        Key::Esc => {
            app.quit();
            Step::Done(Ok(()))
        },
        Key::Right => go_to_next_page(app, facts),
        Key::Enter => {
            if app.state == AppState::VectorOperations {
                if app.vector_selected == 0 {
                    match initialize_vector_listing(app) {
                        Ok(()) => {},
                        Err(err) => app.modal.show_error(err.message()),
                    }
                } else if app.vector_selected == 1 {
                    app.modal.show_get_vector();
                } else if app.vector_selected == 2 {
                    app.modal.show_insert_vector();
                } else if app.vector_selected == 3 {
                    app.modal.show_delete_vector();
                }
                Step::Done(Ok(()))
            } else {
                go_to_next_page(app, facts)
            }
        },
        Key::Left => {
            app.previous_page();
            Step::Done(Ok(()))
        },
        Key::Up => {
            app.select_previous();
            Step::Done(Ok(()))
        },
        Key::Down => {
            app.select_next();
            Step::Done(Ok(()))
        },
        _ => Step::Done(Ok(())),
    }
}

/// Whether a key leaves no selection to overflow: moving down advances one
/// selection of the page or the dialog, which must have room to move.
pub open spec fn room_for(a: AppView, key: Key) -> bool {
    key == Key::Down ==> (
        if a.modal.show && a.modal.input_mode {
            true
        } else if a.modal.show {
            (a.modal.kind == Some(ModalType::DatabaseList) || a.modal.kind == Some(ModalType::DeleteDatabase))
                ==> a.down_fits()
        } else {
            a.down_fits()
        }
    )
}

/// Whether `key` can be handled: the selection it would move has room.
pub fn has_room(app: &App, key: Key) -> (r: bool)
    ensures
        r == room_for(app@, key),
{
    if key != Key::Down {
        return true;
    }
    let fits = match app.state {
        AppState::Dashboard => true,
        AppState::Database => app.modal.is_showing() || app.db_selected < usize::MAX,
        AppState::VectorOperations => app.vector_selected < usize::MAX,
    };
    if app.modal.is_showing() && app.modal.input_mode() {
        true
    } else if app.modal.is_showing() {
        let kind = current_kind(app);
        if kind == Some(ModalType::DatabaseList) || kind == Some(ModalType::DeleteDatabase) {
            fits
        } else {
            true
        }
    } else {
        fits
    }
}

/// Reacts to one key.
pub fn handle_key_event(app: &mut App, key: Key, facts: &Facts) -> (r: Step)
    requires
        room_for(old(app)@, key),
    ensures
        final(app)@ == key_step(old(app)@, key, facts@).0,
        r@ == key_step(old(app)@, key, facts@).1,
{
    if app.modal.is_showing() && app.modal.input_mode() {
        return handle_modal_input(app, key, facts);
    }
    if app.modal.is_showing() {
        return handle_modal_navigation(app, key, facts);
    }
    if app.state == AppState::Database {
        handle_database_keys(app, key, facts)
    } else {
        handle_general_keys(app, key, facts)
    }
}

/// Reacts to one terminal event; only keys matter.
pub fn handle_event(app: &mut App, event: Event, facts: &Facts) -> (r: Step)
    requires
        event matches Event::Key(k) ==> room_for(old(app)@, k),
    ensures
        event matches Event::Key(k) ==> final(app)@ == key_step(old(app)@, k, facts@).0
            && r@ == key_step(old(app)@, k, facts@).1,
        event is Other ==> final(app)@ == old(app)@ && r@ == done_ok(),
{
    match event {
        Event::Key(k) => handle_key_event(app, k, facts),
        Event::Other => Step::Done(Ok(())),
    }
}

/// Confirming a pending database deletion with Enter. On 'Yes' (the first
/// option) the removal of its directory is asked for first; once asked,
/// whatever the removal's outcome, no known database is left at its path,
/// every other known database stays, an open connection to it is closed and
/// nothing is pending any more; success is reported naming the database, or
/// the removal's error is. On 'No' the known databases stay as they were and
/// the list of databases to delete comes back.
pub proof fn law_confirm_delete(a: AppView, f: FactsView, name: Seq<char>, path: Seq<char>)
    requires
        a.modal.kind == Some(ModalType::ConfirmDeleteDatabase),
        a.pending_delete == Some((name, path)),
    ensures
        a.modal.selected == 0 && f.removal_for(path) is None
            ==> db_operation(a, f) == (a, StepView::Need(RequestView::RemoveDatabaseDir(path))),
        a.modal.selected == 0 && f.removal_for(path) is Some ==> {
            let (b, step) = db_operation(a, f);
            &&& forall|i: int| 0 <= i < b.database.available.len()
                ==> !same_location((#[trigger] b.database.available[i]).1, path)
            &&& forall|i: int| 0 <= i < a.database.available.len()
                && !same_location((#[trigger] a.database.available[i]).1, path)
                ==> b.database.available.contains(a.database.available[i])
            &&& a.database.current == Some(path) ==> b.database.current is None
            &&& b.pending_delete is None
            &&& f.removal_for(path) == Some(Ok::<(), Seq<char>>(())) ==> {
                &&& step == StepView::Done(Ok(()))
                &&& b.modal.kind == Some(ModalType::Success)
                &&& b.modal.message == Some("Deleted database '"@ + name + "'"@)
            }
            &&& f.removal_for(path) matches Some(Err(m)) ==> step == StepView::Done(Err(ErrorView::Filesystem(m)))
        },
        a.modal.selected != 0 ==> {
            let (b, step) = db_operation(a, f);
            &&& step == StepView::Done(Ok(()))
            &&& b.database == a.database
            &&& b.pending_delete is None
            &&& b.modal.kind == Some(ModalType::DeleteDatabase)
        },
{
    broadcast use vstd::seq_lib::group_filter_ensures;
    if a.modal.selected == 0 && f.removal_for(path) is Some {
        let b = db_operation(a, f).0;
        let keep = |e: (Seq<char>, Seq<char>)| !same_location(e.1, path);
        assert(b.database.available == a.database.available.filter(keep));
        assert forall|i: int| 0 <= i < b.database.available.len()
            implies !same_location((#[trigger] b.database.available[i]).1, path) by {
            assert(keep(a.database.available.filter(keep)[i]));
        }
        assert forall|i: int| 0 <= i < a.database.available.len()
            && !same_location((#[trigger] a.database.available[i]).1, path)
            implies b.database.available.contains(a.database.available[i]) by {
            assert(keep(a.database.available[i]));
        }
    }
}

/// Choosing the database under the cursor in the list of databases to use:
/// when its path exists it becomes the selected database, the dialog
/// closes and nothing else changes; when its path is gone the step fails
/// with "not found" and changes nothing.
pub proof fn law_use_database(a: AppView, f: FactsView)
    requires
        a.modal.kind == Some(ModalType::DatabaseList),
        a.modal.selected < a.database.available.len(),
    ensures
        ({
            let (name, path) = a.database.available[a.modal.selected as int];
            let (b, step) = db_operation(a, f);
            &&& f.exists_for(path) == Some(true) ==> {
                &&& step == StepView::Done(Ok(()))
                &&& b.database.selected == Some((name, path))
                &&& b.database.available == a.database.available
                &&& b.database.current == a.database.current
                &&& !b.modal.show
            }
            &&& f.exists_for(path) == Some(false) ==> step == StepView::Done(Err(ErrorView::NotFound)) && b == a
        }),
{
}

/// Creating a database from the dialog: a name whose directory does not
/// exist yet is created under `./databases/`, listed last, selected and
/// opened, and success is reported naming it; a name whose directory exists
/// is refused as already existing and changes nothing.
pub proof fn law_create_database(a: AppView, f: FactsView)
    requires
        a.modal.kind == Some(ModalType::CreateDatabase),
        a.modal.input.len() > 0,
    ensures
        ({
            let name = a.modal.input;
            let path = "./databases/"@ + name;
            let (b, step) = modal_action(a, f);
            &&& f.exists_for(path) == Some(false) ==> {
                &&& step == StepView::Done(Ok(()))
                &&& b.database.available == a.database.available.push((name, path))
                &&& b.database.selected == Some((name, path))
                &&& b.database.current == Some(path)
                &&& b.modal.kind == Some(ModalType::Success)
                &&& b.modal.message == Some("Created database '"@ + name + "'"@)
            }
            &&& f.exists_for(path) == Some(true) ==> step == StepView::Done(Err(ErrorView::AlreadyExists(name))) && b == a
        }),
{
}

/// Asking for a vector by id with a database open: when the storage holds
/// neither a vector nor a payload for the id, the answer is a failure
/// naming the id and no details are shown; otherwise the details of that id
/// are shown, with the payload the storage holds.
pub proof fn law_get_vector(a: AppView, f: FactsView, id: u64)
    requires
        a.modal.kind == Some(ModalType::GetVector),
        spec_parse_u64(a.modal.input) == Some(id),
        a.database.engine is Some,
    ensures
        ({
            let (b, step) = modal_action(a, f);
            &&& step == StepView::Done(Ok(()))
            &&& b.database == a.database
            &&& (spec_get_vector(id) is None && spec_get_payload(id) is None) ==> {
                &&& b.detail is None
                &&& b.modal.kind == Some(ModalType::Failure)
                &&& b.modal.message == Some("Vector with id="@ + decimal(id as nat) + " not found!"@)
            }
            &&& !(spec_get_vector(id) is None && spec_get_payload(id) is None) ==> {
                &&& (b.detail matches Some(d) && d.id == id && d.payload == spec_get_payload(id)
                    && d.vector == (match spec_get_vector(id) { Some(w) => w, None => Seq::<u32>::empty() }))
                &&& b.modal.kind == Some(ModalType::VectorDetails)
            }
        }),
{
}

/// Deleting a vector by id with a database open: an id the storage holds
/// is deleted and reported so, naming the id; "not found" is reported only
/// for an id the storage does not hold. The known databases are untouched.
pub proof fn law_delete_vector(a: AppView, f: FactsView, id: u64)
    requires
        a.modal.kind == Some(ModalType::DeleteVector),
        spec_parse_u64(a.modal.input) == Some(id),
        a.database.engine is Some,
    ensures
        ({
            let (b, step) = modal_action(a, f);
            &&& step == StepView::Done(Ok(()))
            &&& b.database == a.database
            &&& spec_contains_point(id) ==> b.modal.kind == Some(ModalType::Success)
                && b.modal.message == Some("Deleted vector id="@ + decimal(id as nat))
            &&& !spec_contains_point(id) ==> b.modal.kind == Some(ModalType::Failure)
                && b.modal.message == Some("Vector with id="@ + decimal(id as nat) + " not found"@)
        }),
{
    reveal_strlit("");
    assert("Deleted vector id="@ + decimal(id as nat) + ""@ =~= "Deleted vector id="@ + decimal(id as nat));
}

} // verus!
