//! The console menus: what each line typed at a prompt selects. Lines are
//! read with their surrounding white space, which does not count.
use vstd::prelude::*;
use crate::indexer::protocol::KNNType;
use crate::strings::is_white_space;
use crate::strings::is_white_space_char;
use crate::types::DataType;
use vstd::string::StrSliceExecFns;

verus! {

/// `s` without its leading white space.
pub open spec fn trim_start(s: Seq<char>) -> Seq<char>
    decreases s.len(),
{
    if s.len() > 0 && is_white_space(s[0]) {
        trim_start(s.drop_first())
    } else {
        s
    }
}

/// `s` without its trailing white space.
pub open spec fn trim_end(s: Seq<char>) -> Seq<char>
    decreases s.len(),
{
    if s.len() > 0 && is_white_space(s.last()) {
        trim_end(s.drop_last())
    } else {
        s
    }
}

/// `str::trim`: `s` without its leading and trailing white space.
pub open spec fn trim(s: Seq<char>) -> Seq<char> {
    trim_end(trim_start(s))
}

proof fn lemma_trim_start(s: Seq<char>, a: int)
    requires
        0 <= a <= s.len(),
        forall|i: int| 0 <= i < a ==> is_white_space(#[trigger] s[i]),
        a == s.len() || !is_white_space(s[a]),
    ensures
        trim_start(s) == s.subrange(a, s.len() as int),
    decreases a,
{
    if a == 0 {
        assert(s.subrange(0, s.len() as int) =~= s);
    } else {
        let t = s.drop_first();
        assert forall|i: int| 0 <= i < a - 1 implies is_white_space(#[trigger] t[i]) by {
            assert(t[i] == s[i + 1]);
        }
        if a < s.len() {
            assert(t[a - 1] == s[a]);
        }
        lemma_trim_start(t, a - 1);
        assert(t.subrange(a - 1, t.len() as int) =~= s.subrange(a, s.len() as int));
    }
}

proof fn lemma_trim_end(s: Seq<char>, b: int)
    requires
        0 <= b <= s.len(),
        forall|i: int| b <= i < s.len() ==> is_white_space(#[trigger] s[i]),
        b == 0 || !is_white_space(s[b - 1]),
    ensures
        trim_end(s) == s.subrange(0, b),
    decreases s.len() - b,
{
    if b == s.len() {
        assert(s.subrange(0, b) =~= s);
    } else {
        let t = s.drop_last();
        assert forall|i: int| b <= i < t.len() implies is_white_space(#[trigger] t[i]) by {
            assert(t[i] == s[i]);
        }
        if b > 0 {
            assert(t[b - 1] == s[b - 1]);
        }
        assert(is_white_space(s[s.len() - 1]));
        lemma_trim_end(t, b);
        assert(t.subrange(0, b) =~= s.subrange(0, b));
    }
}

/// Whether `input`, trimmed, is `word`.
pub fn trimmed_equals(input: &str, word: &str) -> (r: bool)
    ensures
        r == (trim(input@) == word@),
{
    let n = input.unicode_len();
    let mut a: usize = 0;
    while a < n && is_white_space_char(input.get_char(a))
        invariant
            a <= n,
            n == input@.len(),
            forall|i: int| 0 <= i < a ==> is_white_space(#[trigger] input@[i]),
        decreases n - a,
    {
        a = a + 1;
    }
    let mut b: usize = n;
    while b > a && is_white_space_char(input.get_char(b - 1))
        invariant
            a <= b <= n,
            n == input@.len(),
            forall|i: int| b <= i < n ==> is_white_space(#[trigger] input@[i]),
        decreases b - a,
    {
        b = b - 1;
    }
    let ghost s = input@;
    let ghost u = s.subrange(a as int, n as int);
    proof {
        lemma_trim_start(s, a as int);
        assert forall|i: int| b - a <= i < u.len() implies is_white_space(#[trigger] u[i]) by {
            assert(u[i] == s[a + i]);
        }
        if b > a {
            assert(u[b - a - 1] == s[b - 1]);
        }
        lemma_trim_end(u, (b - a) as int);
        assert(trim(s) =~= s.subrange(a as int, b as int));
    }
    let m = word.unicode_len();
    if b - a != m {
        return false;
    }
    let mut i: usize = 0;
    while i < m
        invariant
            i <= m,
            m == word@.len(),
            a + m == b,
            b <= n,
            n == input@.len(),
            forall|j: int| 0 <= j < i ==> input@[a + j] == word@[j],
            trim(input@) == input@.subrange(a as int, b as int),
        decreases m - i,
    {
        if input.get_char(a + i) != word.get_char(i) {
            proof {
                assert(trim(input@)[i as int] == input@[a + i]);
            }
            return false;
        }
        i = i + 1;
    }
    assert(trim(input@) =~= word@);
    true
}

/// The main menu's entries.
#[derive(Debug, Clone, Copy, PartialEq, Eq, Structural)]
pub enum MainChoice {
    ShowDatabases,
    UseDatabase,
    AddDatabase,
    DeleteDatabase,
    Exit,
}

pub open spec fn main_choice_spec(t: Seq<char>) -> Option<MainChoice> {
    if t == "1"@ {
        Some(MainChoice::ShowDatabases)
    } else if t == "2"@ {
        Some(MainChoice::UseDatabase)
    } else if t == "3"@ {
        Some(MainChoice::AddDatabase)
    } else if t == "4"@ {
        Some(MainChoice::DeleteDatabase)
    } else if t == "0"@ {
        Some(MainChoice::Exit)
    } else {
        None
    }
}

/// The main-menu entry a line selects, if any.
pub fn main_choice(input: &str) -> (r: Option<MainChoice>)
    ensures
        r == main_choice_spec(trim(input@)),
        trim(input@) == "3"@ ==> r == Some(MainChoice::AddDatabase),
        trim(input@) == "4"@ ==> r == Some(MainChoice::DeleteDatabase),
{
    proof {
        lemma_menu_digits_differ();
    }
    if trimmed_equals(input, "1") {
        Some(MainChoice::ShowDatabases)
    } else if trimmed_equals(input, "2") {
        Some(MainChoice::UseDatabase)
    } else if trimmed_equals(input, "3") {
        Some(MainChoice::AddDatabase)
    } else if trimmed_equals(input, "4") {
        Some(MainChoice::DeleteDatabase)
    } else if trimmed_equals(input, "0") {
        Some(MainChoice::Exit)
    } else {
        None
    }
}

/// The indexers offered for a database.
#[derive(Debug, Clone, Copy, PartialEq, Eq, Structural)]
pub enum IndexerChoice {
    KDTree,
    BallTree,
    Annoy,
    Hnsw,
}

pub open spec fn indexer_choice_spec(t: Seq<char>) -> Option<IndexerChoice> {
    if t == "1"@ {
        Some(IndexerChoice::KDTree)
    } else if t == "2"@ {
        Some(IndexerChoice::BallTree)
    } else if t == "3"@ {
        Some(IndexerChoice::Annoy)
    } else if t == "4"@ {
        Some(IndexerChoice::Hnsw)
    } else {
        None
    }
}

/// The indexer a line selects, if any.
pub fn indexer_choice(input: &str) -> (r: Option<IndexerChoice>)
    ensures
        r == indexer_choice_spec(trim(input@)),
{
    if trimmed_equals(input, "1") {
        Some(IndexerChoice::KDTree)
    } else if trimmed_equals(input, "2") {
        Some(IndexerChoice::BallTree)
    } else if trimmed_equals(input, "3") {
        Some(IndexerChoice::Annoy)
    } else if trimmed_equals(input, "4") {
        Some(IndexerChoice::Hnsw)
    } else {
        None
    }
}

/// The entries of a database's menu.
#[derive(Debug, Clone, Copy, PartialEq, Eq, Structural)]
pub enum DatabaseChoice {
    Insert,
    View,
    Get,
    Delete,
    FindKnn,
    ViewPath,
    PrintTree,
    Switch,
}

pub open spec fn database_choice_spec(t: Seq<char>) -> Option<DatabaseChoice> {
    if t == "1"@ {
        Some(DatabaseChoice::Insert)
    } else if t == "2"@ {
        Some(DatabaseChoice::View)
    } else if t == "3"@ {
        Some(DatabaseChoice::Get)
    } else if t == "4"@ {
        Some(DatabaseChoice::Delete)
    } else if t == "5"@ {
        Some(DatabaseChoice::FindKnn)
    } else if t == "6"@ {
        Some(DatabaseChoice::ViewPath)
    } else if t == "7"@ {
        Some(DatabaseChoice::PrintTree)
    } else if t == "8"@ {
        Some(DatabaseChoice::Switch)
    } else {
        None
    }
}

/// The database-menu entry a line selects, if any.
pub fn database_choice(input: &str) -> (r: Option<DatabaseChoice>)
    ensures
        r == database_choice_spec(trim(input@)),
{
    if trimmed_equals(input, "1") {
        Some(DatabaseChoice::Insert)
    } else if trimmed_equals(input, "2") {
        Some(DatabaseChoice::View)
    } else if trimmed_equals(input, "3") {
        Some(DatabaseChoice::Get)
    } else if trimmed_equals(input, "4") {
        Some(DatabaseChoice::Delete)
    } else if trimmed_equals(input, "5") {
        Some(DatabaseChoice::FindKnn)
    } else if trimmed_equals(input, "6") {
        Some(DatabaseChoice::ViewPath)
    } else if trimmed_equals(input, "7") {
        Some(DatabaseChoice::PrintTree)
    } else if trimmed_equals(input, "8") {
        Some(DatabaseChoice::Switch)
    } else {
        None
    }
}

/// Where a database is to live, or that it is to be dropped.
#[derive(Debug, Clone, Copy, PartialEq, Eq, Structural)]
pub enum PathChoice {
    CurrentDirectory,
    CustomPath,
    RemoveDatabase,
}

pub open spec fn path_choice_spec(t: Seq<char>) -> Option<PathChoice> {
    if t == "1"@ {
        Some(PathChoice::CurrentDirectory)
    } else if t == "2"@ {
        Some(PathChoice::CustomPath)
    } else if t == "3"@ {
        Some(PathChoice::RemoveDatabase)
    } else {
        None
    }
}

/// The path entry a line selects, if any.
pub fn path_choice(input: &str) -> (r: Option<PathChoice>)
    ensures
        r == path_choice_spec(trim(input@)),
{
    if trimmed_equals(input, "1") {
        Some(PathChoice::CurrentDirectory)
    } else if trimmed_equals(input, "2") {
        Some(PathChoice::CustomPath)
    } else if trimmed_equals(input, "3") {
        Some(PathChoice::RemoveDatabase)
    } else {
        None
    }
}

/// How a record is named: by its data, or by its key.
#[derive(Debug, Clone, Copy, PartialEq, Eq, Structural)]
pub enum RecordChoice {
    ByData,
    ByKey,
}

pub open spec fn record_choice_spec(t: Seq<char>) -> Option<RecordChoice> {
    if t == "1"@ {
        Some(RecordChoice::ByData)
    } else if t == "2"@ {
        Some(RecordChoice::ByKey)
    } else {
        None
    }
}

/// How a line says a record is named, if it does.
pub fn record_choice(input: &str) -> (r: Option<RecordChoice>)
    ensures
        r == record_choice_spec(trim(input@)),
{
    if trimmed_equals(input, "1") {
        Some(RecordChoice::ByData)
    } else if trimmed_equals(input, "2") {
        Some(RecordChoice::ByKey)
    } else {
        None
    }
}

pub open spec fn knn_choice_spec(t: Seq<char>) -> Option<KNNType> {
    if t == "1"@ {
        Some(KNNType::Euclidean)
    } else if t == "2"@ {
        Some(KNNType::Manhattan)
    } else if t == "3"@ {
        Some(KNNType::Hamming)
    } else if t == "4"@ {
        Some(KNNType::Cosine)
    } else {
        None
    }
}

/// The nearest-neighbour measure a line selects, if any.
pub fn knn_choice(input: &str) -> (r: Option<KNNType>)
    ensures
        r == knn_choice_spec(trim(input@)),
{
    if trimmed_equals(input, "1") {
        Some(KNNType::Euclidean)
    } else if trimmed_equals(input, "2") {
        Some(KNNType::Manhattan)
    } else if trimmed_equals(input, "3") {
        Some(KNNType::Hamming)
    } else if trimmed_equals(input, "4") {
        Some(KNNType::Cosine)
    } else {
        None
    }
}

pub open spec fn data_type_spec(t: Seq<char>) -> Option<DataType> {
    if t == "Text"@ {
        Some(DataType::Text)
    } else if t == "Image"@ {
        Some(DataType::Image)
    } else if t == "Audio"@ {
        Some(DataType::Audio)
    } else if t == "Blob"@ {
        Some(DataType::Blob)
    } else {
        None
    }
}

/// The data type a line names, if any.
pub fn data_type_choice(input: &str) -> (r: Option<DataType>)
    ensures
        r == data_type_spec(trim(input@)),
{
    if trimmed_equals(input, "Text") {
        Some(DataType::Text)
    } else if trimmed_equals(input, "Image") {
        Some(DataType::Image)
    } else if trimmed_equals(input, "Audio") {
        Some(DataType::Audio)
    } else if trimmed_equals(input, "Blob") {
        Some(DataType::Blob)
    } else {
        None
    }
}

/// Whether a line confirms (`1`); anything else cancels.
pub fn confirmed(input: &str) -> (r: bool)
    ensures
        r == (trim(input@) == "1"@),
{
    trimmed_equals(input, "1")
}

/// The main menu answers each digit with the entry printed beside it:
/// (1) show databases, (2) use a database, (3) add a new database,
/// (4) delete a database, (0) exit; any other line chooses nothing.
pub proof fn law_main_menu_digits(line: Seq<char>)
    ensures
        trim(line) == "1"@ ==> main_choice_spec(trim(line)) == Some(MainChoice::ShowDatabases),
        trim(line) == "2"@ ==> main_choice_spec(trim(line)) == Some(MainChoice::UseDatabase),
        trim(line) == "3"@ ==> main_choice_spec(trim(line)) == Some(MainChoice::AddDatabase),
        trim(line) == "4"@ ==> main_choice_spec(trim(line)) == Some(MainChoice::DeleteDatabase),
        trim(line) == "0"@ ==> main_choice_spec(trim(line)) == Some(MainChoice::Exit),
        !(trim(line) == "1"@ || trim(line) == "2"@ || trim(line) == "3"@ || trim(line) == "4"@ || trim(line) == "0"@)
            ==> main_choice_spec(trim(line)) is None,
{
    lemma_menu_digits_differ();
}

/// The menu's digits are five different texts.
proof fn lemma_menu_digits_differ()
    ensures
        "1"@ != "2"@, "1"@ != "3"@, "1"@ != "4"@, "1"@ != "0"@,
        "2"@ != "3"@, "2"@ != "4"@, "2"@ != "0"@,
        "3"@ != "4"@, "3"@ != "0"@,
        "4"@ != "0"@,
{
    reveal_strlit("1");
    reveal_strlit("2");
    reveal_strlit("3");
    reveal_strlit("4");
    reveal_strlit("0");
    assert("1"@[0] == '1' && "2"@[0] == '2' && "3"@[0] == '3' && "4"@[0] == '4' && "0"@[0] == '0');
}

/// The indexer menu answers each digit with the indexer printed beside it:
/// (1) KDTree, (2) BallTree, (3) Annoy, (4) HNSW; any other line chooses
/// nothing.
pub proof fn law_indexer_menu_digits(line: Seq<char>)
    ensures
        trim(line) == "1"@ ==> indexer_choice_spec(trim(line)) == Some(IndexerChoice::KDTree),
        trim(line) == "2"@ ==> indexer_choice_spec(trim(line)) == Some(IndexerChoice::BallTree),
        trim(line) == "3"@ ==> indexer_choice_spec(trim(line)) == Some(IndexerChoice::Annoy),
        trim(line) == "4"@ ==> indexer_choice_spec(trim(line)) == Some(IndexerChoice::Hnsw),
        !(trim(line) == "1"@ || trim(line) == "2"@ || trim(line) == "3"@ || trim(line) == "4"@)
            ==> indexer_choice_spec(trim(line)) is None,
{
    reveal_strlit("1");
    reveal_strlit("2");
    reveal_strlit("3");
    reveal_strlit("4");
    assert("1"@[0] == '1' && "2"@[0] == '2' && "3"@[0] == '3' && "4"@[0] == '4');
}

/// The database menu answers each digit with the entry printed beside it:
/// (1) insert, (2) view, (3) get, (4) delete, (5) find the k nearest
/// neighbours, (6) view the current path, (7) print the indexer tree,
/// (8) switch database; any other line chooses nothing.
pub proof fn law_database_menu_digits(line: Seq<char>)
    ensures
        trim(line) == "1"@ ==> database_choice_spec(trim(line)) == Some(DatabaseChoice::Insert),
        trim(line) == "2"@ ==> database_choice_spec(trim(line)) == Some(DatabaseChoice::View),
        trim(line) == "3"@ ==> database_choice_spec(trim(line)) == Some(DatabaseChoice::Get),
        trim(line) == "4"@ ==> database_choice_spec(trim(line)) == Some(DatabaseChoice::Delete),
        trim(line) == "5"@ ==> database_choice_spec(trim(line)) == Some(DatabaseChoice::FindKnn),
        trim(line) == "6"@ ==> database_choice_spec(trim(line)) == Some(DatabaseChoice::ViewPath),
        trim(line) == "7"@ ==> database_choice_spec(trim(line)) == Some(DatabaseChoice::PrintTree),
        trim(line) == "8"@ ==> database_choice_spec(trim(line)) == Some(DatabaseChoice::Switch),
        !(trim(line) == "1"@ || trim(line) == "2"@ || trim(line) == "3"@ || trim(line) == "4"@ || trim(line) == "5"@ || trim(line) == "6"@ || trim(line) == "7"@ || trim(line) == "8"@)
            ==> database_choice_spec(trim(line)) is None,
{
    reveal_strlit("1");
    reveal_strlit("2");
    reveal_strlit("3");
    reveal_strlit("4");
    reveal_strlit("5");
    reveal_strlit("6");
    reveal_strlit("7");
    reveal_strlit("8");
    assert("1"@[0] == '1' && "2"@[0] == '2' && "3"@[0] == '3' && "4"@[0] == '4' && "5"@[0] == '5' && "6"@[0] == '6' && "7"@[0] == '7' && "8"@[0] == '8');
}

/// The path menu answers (1) with the current working directory, (2) with
/// a custom path and (3) with removing the database; any other line
/// chooses nothing.
pub proof fn law_path_menu_digits(line: Seq<char>)
    ensures
        trim(line) == "1"@ ==> path_choice_spec(trim(line)) == Some(PathChoice::CurrentDirectory),
        trim(line) == "2"@ ==> path_choice_spec(trim(line)) == Some(PathChoice::CustomPath),
        trim(line) == "3"@ ==> path_choice_spec(trim(line)) == Some(PathChoice::RemoveDatabase),
        !(trim(line) == "1"@ || trim(line) == "2"@ || trim(line) == "3"@)
            ==> path_choice_spec(trim(line)) is None,
{
    reveal_strlit("1");
    reveal_strlit("2");
    reveal_strlit("3");
    assert("1"@[0] == '1' && "2"@[0] == '2' && "3"@[0] == '3');
}

/// A record is named by entering its data on (1) and its key on (2); any
/// other line chooses nothing.
pub proof fn law_record_menu_digits(line: Seq<char>)
    ensures
        trim(line) == "1"@ ==> record_choice_spec(trim(line)) == Some(RecordChoice::ByData),
        trim(line) == "2"@ ==> record_choice_spec(trim(line)) == Some(RecordChoice::ByKey),
        !(trim(line) == "1"@ || trim(line) == "2"@)
            ==> record_choice_spec(trim(line)) is None,
{
    reveal_strlit("1");
    reveal_strlit("2");
    assert("1"@[0] == '1' && "2"@[0] == '2');
}

/// The measure menu answers (1) with Euclidean, (2) Manhattan, (3) Hamming
/// distance and (4) cosine similarity; any other line chooses nothing.
pub proof fn law_knn_menu_digits(line: Seq<char>)
    ensures
        trim(line) == "1"@ ==> knn_choice_spec(trim(line)) == Some(KNNType::Euclidean),
        trim(line) == "2"@ ==> knn_choice_spec(trim(line)) == Some(KNNType::Manhattan),
        trim(line) == "3"@ ==> knn_choice_spec(trim(line)) == Some(KNNType::Hamming),
        trim(line) == "4"@ ==> knn_choice_spec(trim(line)) == Some(KNNType::Cosine),
        !(trim(line) == "1"@ || trim(line) == "2"@ || trim(line) == "3"@ || trim(line) == "4"@)
            ==> knn_choice_spec(trim(line)) is None,
{
    reveal_strlit("1");
    reveal_strlit("2");
    reveal_strlit("3");
    reveal_strlit("4");
    assert("1"@[0] == '1' && "2"@[0] == '2' && "3"@[0] == '3' && "4"@[0] == '4');
}

/// A data type is named by its word: Text, Image, Audio or Blob; any other
/// line names none.
pub proof fn law_data_type_names(line: Seq<char>)
    ensures
        trim(line) == "Text"@ ==> data_type_spec(trim(line)) == Some(DataType::Text),
        trim(line) == "Image"@ ==> data_type_spec(trim(line)) == Some(DataType::Image),
        trim(line) == "Audio"@ ==> data_type_spec(trim(line)) == Some(DataType::Audio),
        trim(line) == "Blob"@ ==> data_type_spec(trim(line)) == Some(DataType::Blob),
        !(trim(line) == "Text"@ || trim(line) == "Image"@ || trim(line) == "Audio"@ || trim(line) == "Blob"@)
            ==> data_type_spec(trim(line)) is None,
{
    reveal_strlit("Text");
    reveal_strlit("Image");
    reveal_strlit("Audio");
    reveal_strlit("Blob");
    assert("Text"@[0] == 'T' && "Image"@[0] == 'I' && "Audio"@[0] == 'A' && "Blob"@[0] == 'B');
}

} // verus!
