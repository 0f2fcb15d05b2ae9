//! The database manager: the databases known on disk, the one selected, and
//! the storage engine opened on it. Whether a path exists on disk, and the
//! directory listing, are read by the caller and handed in.
use vstd::prelude::*;
use crate::storage::{create_storage_engine, StorageHandle, StorageType, StorageView};
use crate::types::DbError;

verus! {

/// Why a database operation failed.
#[derive(Debug)]
pub enum DatabaseError {
    /// A database of this name already exists on disk.
    AlreadyExists(String),
    /// The database's path does not exist on disk.
    NotFound,
    /// The storage engine could not be created.
    CreateFailed(DbError),
}

/// `format!("{:?}", e)` for a database error of the library.
pub open spec fn db_error_debug(e: DbError) -> Seq<char> {
    match e {
        DbError::IndexInitError => "IndexInitError"@,
        DbError::UnsupportedSimilarity => "UnsupportedSimilarity"@,
    }
}

pub fn db_error_debug_string(e: DbError) -> (r: String)
    ensures
        r@ == db_error_debug(e),
{
    match e {
        DbError::IndexInitError => String::from_str("IndexInitError"),
        DbError::UnsupportedSimilarity => String::from_str("UnsupportedSimilarity"),
    }
}

/// The text a database error is reported with.
pub open spec fn database_error_message(e: DatabaseError) -> Seq<char> {
    match e {
        DatabaseError::AlreadyExists(name) => "Database '"@ + name@ + "' already exists!"@,
        DatabaseError::NotFound => "Database path does not exist"@,
        DatabaseError::CreateFailed(err) => "Failed to create database: "@ + db_error_debug(err),
    }
}

impl DatabaseError {
    pub fn message(&self) -> (r: String)
        ensures
            r@ == database_error_message(*self),
    {
        match self {
            DatabaseError::AlreadyExists(name) => {
                let mut s = String::from_str("Database '");
                s.append(name.as_str());
                s.append("' already exists!");
                s
            },
            DatabaseError::NotFound => String::from_str("Database path does not exist"),
            DatabaseError::CreateFailed(err) => {
                let mut s = String::from_str("Failed to create database: ");
                let d = db_error_debug_string(*err);
                s.append(d.as_str());
                s
            },
        }
    }
}

/// A named database and the directory it lives in, as mathematical values.
pub open spec fn entry_view(e: (String, String)) -> (Seq<char>, Seq<char>) {
    (e.0@, e.1@)
}

pub open spec fn entries_view(s: Seq<(String, String)>) -> Seq<(Seq<char>, Seq<char>)> {
    s.map_values(|e: (String, String)| entry_view(e))
}

pub open spec fn opt_entry_view(e: Option<(String, String)>) -> Option<(Seq<char>, Seq<char>)> {
    match e {
        Some(p) => Some(entry_view(p)),
        None => None,
    }
}

/// What the manager holds, as mathematical values.
pub struct DatabaseView {
    pub current: Option<Seq<char>>,
    pub engine: Option<StorageView>,
    pub available: Seq<(Seq<char>, Seq<char>)>,
    pub selected: Option<(Seq<char>, Seq<char>)>,
}

/// Whether two different texts name the same `std::path::Path`, which
/// compares paths component by component (so `x/` and `x` are the same).
pub uninterp spec fn paths_equal(a: Seq<char>, b: Seq<char>) -> bool;

/// Whether `a` and `b` name the same path: the same text, or the same
/// components.
pub open spec fn same_location(a: Seq<char>, b: Seq<char>) -> bool {
    a == b || paths_equal(a, b)
}

/// `Path::new(a) == Path::new(b)` of std. Its result is named
/// `paths_equal`; as `Path` is `Eq`, a text names the same path as itself.
/// Which texts have the same components is not stated.
#[verifier::external_body]
fn same_path(a: &String, b: &String) -> (r: bool)
    ensures
        r == paths_equal(a@, b@),
        a@ == b@ ==> r,
{
    std::path::Path::new(a.as_str()) == std::path::Path::new(b.as_str())
}

pub open spec fn entries_without_path(s: Seq<(Seq<char>, Seq<char>)>, path: Seq<char>) -> Seq<(Seq<char>, Seq<char>)> {
    s.filter(|e: (Seq<char>, Seq<char>)| !same_location(e.1, path))
}

impl DatabaseView {
    pub open spec fn initial() -> DatabaseView {
        DatabaseView { current: None, engine: None, available: Seq::empty(), selected: None }
    }

    /// The outcome of creating database `name` at `path`.
    pub open spec fn created(self, name: Seq<char>, path: Seq<char>, path_exists: bool) -> (DatabaseView, bool) {
        if path_exists {
            (self, false)
        } else {
            (DatabaseView {
                current: Some(path),
                engine: Some(StorageView::RocksDb(path)),
                available: self.available.push((name, path)),
                selected: Some((name, path)),
            }, true)
        }
    }

    /// The outcome of selecting database `name` at `path`.
    pub open spec fn selecting(self, name: Seq<char>, path: Seq<char>, path_exists: bool) -> (DatabaseView, bool) {
        if !path_exists {
            (self, false)
        } else {
            (DatabaseView { selected: Some((name, path)), ..self }, true)
        }
    }

    /// The manager after a reload of the known databases that read `read`
    /// (`None`: the reload stopped before clearing them).
    pub open spec fn reloaded(self, read: Option<Seq<(Seq<char>, Seq<char>)>>) -> DatabaseView {
        match read {
            Some(l) => DatabaseView { available: l, ..self },
            None => self,
        }
    }

    /// The manager after the database at `path` is forgotten.
    pub open spec fn deleting(self, path: Seq<char>) -> DatabaseView {
        let closes = self.current matches Some(c) && same_location(c, path);
        DatabaseView {
            current: if closes { None } else { self.current },
            engine: if closes { None } else { self.engine },
            available: entries_without_path(self.available, path),
            selected: self.selected,
        }
    }
}

pub open spec fn opt_string_view(s: Option<String>) -> Option<Seq<char>> {
    match s {
        Some(t) => Some(t@),
        None => None,
    }
}

pub open spec fn opt_storage_view(s: Option<StorageHandle>) -> Option<StorageView> {
    match s {
        Some(h) => Some(h@),
        None => None,
    }
}

/// Keeps the databases known on disk and the one in use.
pub struct DatabaseManager {
    pub current_db_path: Option<String>,
    pub storage_engine: Option<StorageHandle>,
    pub available_databases: Vec<(String, String)>,
    pub selected_database: Option<(String, String)>,
}

impl View for DatabaseManager {
    type V = DatabaseView;

    open spec fn view(&self) -> DatabaseView {
        DatabaseView {
            current: opt_string_view(self.current_db_path),
            engine: opt_storage_view(self.storage_engine),
            available: entries_view(self.available_databases@),
            selected: opt_entry_view(self.selected_database),
        }
    }
}

impl DatabaseManager {
    pub fn new() -> (r: Self)
        ensures
            r@ == DatabaseView::initial(),
    {
        let r = Self {
            current_db_path: None,
            storage_engine: None,
            available_databases: Vec::new(),
            selected_database: None,
        };
        assert(r@.available =~= Seq::<(Seq<char>, Seq<char>)>::empty());
        r
    }

    /// Creates the database `name` at `path`, refused when `path_exists`
    /// (whether `path` already exists on disk).
    pub fn create_new_database(&mut self, name: String, path: String, path_exists: bool) -> (r: Result<(), DatabaseError>)
        ensures
            final(self)@ == old(self)@.created(name@, path@, path_exists).0,
            r is Ok <==> old(self)@.created(name@, path@, path_exists).1,
            r matches Err(e) ==> e matches DatabaseError::AlreadyExists(n) && n@ == name@,
    {
        if path_exists {
            return Err(DatabaseError::AlreadyExists(name));
        }
        match create_storage_engine(StorageType::RocksDb, path.clone()) {
            Ok(storage) => {
                self.storage_engine = Some(storage);
                self.current_db_path = Some(path.clone());
                self.available_databases.push((name.clone(), path.clone()));
                self.selected_database = Some((name, path));
                assert(self@.available =~= old(self)@.available.push((name@, path@)));
                Ok(())
            },
            Err(e) => Err(DatabaseError::CreateFailed(e)),
        }
    }

    /// Selects the database `name` at `path`, refused unless `path_exists`.
    pub fn select_database(&mut self, name: String, path: String, path_exists: bool) -> (r: Result<(), DatabaseError>)
        ensures
            final(self)@ == old(self)@.selecting(name@, path@, path_exists).0,
            r is Ok <==> path_exists,
            r matches Err(e) ==> e is NotFound,
            r is Ok ==> (final(self).selected_database matches Some(sel) && sel.0@ == name@ && sel.1@ == path@),
    {
        if !path_exists {
            return Err(DatabaseError::NotFound);
        }
        self.selected_database = Some((name, path));
        Ok(())
    }

    /// Forgets the database at `path`: closes it if it is the open one and
    /// drops it from the known databases. Removing its directory from disk is
    /// the caller's part.
    pub fn delete_database(&mut self, path: &String)
        ensures
            final(self)@ == old(self)@.deleting(path@),
    {
        let closes = match &self.current_db_path {
            Some(current) => same_path(current, path),
            None => false,
        };
        if closes {
            self.storage_engine = None;
            self.current_db_path = None;
        }
        let mut kept: Vec<(String, String)> = Vec::new();
        let n = self.available_databases.len();
        let mut i: usize = 0;
        while i < n
            invariant
                i <= n,
                n == self.available_databases@.len(),
                self.available_databases@ == old(self).available_databases@,
                entries_view(kept@) =~= entries_without_path(entries_view(self.available_databases@).take(i as int), path@),
            decreases n - i,
        {
            let e = &self.available_databases[i];
            let same = same_path(&e.1, path);
            let ghost s = entries_view(self.available_databases@);
            let ghost old_kept = kept@;
            proof {
                reveal_with_fuel(Seq::<_>::filter, 1);
                assert(s.take(i + 1).drop_last() =~= s.take(i as int));
                assert(s.take(i + 1).last() == s[i as int]);
                assert(s[i as int] == entry_view(self.available_databases@[i as int]));
                assert(same == same_location(s[i as int].1, path@));
            }
            if !same {
                let pair = (e.0.clone(), e.1.clone());
                kept.push(pair);
                assert(entries_view(kept@) =~= entries_view(old_kept).push(s[i as int]));
            }
            i = i + 1;
        }
        assert(entries_view(self.available_databases@).take(n as int) =~= entries_view(self.available_databases@));
        self.available_databases = kept;
    }

    /// Replaces the known databases with `entries`, the directories found on disk.
    pub fn load_available_databases(&mut self, entries: Vec<(String, String)>)
        ensures
            final(self)@ == (DatabaseView { available: entries_view(entries@), ..old(self)@ }),
    {
        self.available_databases = entries;
    }

    pub fn get_selected_database_name(&self) -> (r: Option<&str>)
        ensures
            r is None <==> self.selected_database is None,
            r matches Some(n) ==> self@.selected matches Some(sel) && n@ == sel.0,
    {
        match &self.selected_database {
            Some(sel) => Some(sel.0.as_str()),
            None => None,
        }
    }

    pub fn is_database_selected(&self) -> (r: bool)
        ensures
            r == self.selected_database is Some,
    {
        self.selected_database.is_some()
    }
}

/// A database created where nothing exists yet is the one selected and
/// open, and is listed last among the known databases.
pub proof fn law_created_is_selected(d: DatabaseView, name: Seq<char>, path: Seq<char>)
    ensures
        d.created(name, path, false).1,
        d.created(name, path, false).0.selected == Some((name, path)),
        d.created(name, path, false).0.current == Some(path),
        d.created(name, path, false).0.available.last() == (name, path),
{
}

/// Deleting a database just created, at a path no known database is at,
/// closes it and gives back the known databases as they were.
pub proof fn law_delete_forgets_created(d: DatabaseView, name: Seq<char>, path: Seq<char>)
    requires
        forall|i: int| 0 <= i < d.available.len() ==> !same_location((#[trigger] d.available[i]).1, path),
    ensures
        d.created(name, path, false).0.deleting(path).available == d.available,
        d.created(name, path, false).0.deleting(path).current is None,
        d.created(name, path, false).0.deleting(path).engine is None,
{
    let pushed = d.available.push((name, path));
    reveal_with_fuel(Seq::<_>::filter, 1);
    assert(pushed.drop_last() =~= d.available);
    lemma_without_other_paths(d.available, path);
}

/// Dropping the entries at `path` from entries none of which is there keeps
/// them all.
proof fn lemma_without_other_paths(s: Seq<(Seq<char>, Seq<char>)>, path: Seq<char>)
    requires
        forall|i: int| 0 <= i < s.len() ==> !same_location((#[trigger] s[i]).1, path),
    ensures
        entries_without_path(s, path) == s,
    decreases s.len(),
{
    reveal_with_fuel(Seq::<_>::filter, 1);
    if s.len() > 0 {
        lemma_without_other_paths(s.drop_last(), path);
        assert(s.drop_last().push(s.last()) =~= s);
    } else {
        assert(entries_without_path(s, path) =~= s);
    }
}

/// Selecting a database whose path exists succeeds and makes exactly that
/// database the selected one, leaving the known and open databases as they
/// were; selecting one whose path does not exist changes nothing.
pub proof fn law_select_picks(d: DatabaseView, name: Seq<char>, path: Seq<char>)
    ensures
        d.selecting(name, path, true).1,
        d.selecting(name, path, true).0.selected == Some((name, path)),
        d.selecting(name, path, true).0.available == d.available,
        d.selecting(name, path, true).0.current == d.current,
        !d.selecting(name, path, false).1,
        d.selecting(name, path, false).0 == d,
{
}

} // verus!
