//! The durable, channel-scoped filter catalog: creation (with an optional
//! blob downloaded at creation time), per-channel listing in insertion order,
//! and first-match lookup against a candidate message text.
//!
//! The catalog is persisted in a SQLite database reached through `rusqlite`.
//! The database connection is opaque to the verifier; `stored_filters` names
//! the rows it holds, and the trusted wrappers below state how each call
//! changes or reads them. Everything else — which row matches, which rows a
//! channel's listing shows, in what order — is verified.

use vstd::prelude::*;

use crate::error::{UserBotError, UserBotErrorKind};
use crate::text::{contains_seq, contains_str};

verus! {

/// The mathematical value of one stored filter.
pub ghost struct FilterView {
    pub id: int,
    pub channel_id: int,
    pub search: Seq<char>,
    pub replace: Seq<char>,
    pub filename: Option<Seq<char>>,
    pub data: Option<Seq<u8>>,
}

/// One substitution rule: a trigger substring, a replacement body, and an
/// optional binary blob with a suggested filename. `data` present means the
/// filter posts a file on trigger; otherwise it posts text.
#[derive(Debug)]
pub struct Filter {
    pub id: i64,
    pub channel_id: i64,
    pub search: String,
    pub replace: String,
    pub filename: Option<String>,
    pub data: Option<Vec<u8>>,
}

impl View for Filter {
    type V = FilterView;

    open spec fn view(&self) -> FilterView {
        FilterView {
            id: self.id as int,
            channel_id: self.channel_id as int,
            search: self.search@,
            replace: self.replace@,
            filename: match self.filename {
                Option::Some(s) => Option::Some(s@),
                Option::None => Option::None,
            },
            data: match self.data {
                Option::Some(d) => Option::Some(d@),
                Option::None => Option::None,
            },
        }
    }
}

pub open spec fn make_fv(
    id: int,
    channel_id: int,
    search: Seq<char>,
    replace: Seq<char>,
    filename: Option<Seq<char>>,
    data: Option<Seq<u8>>,
) -> FilterView {
    FilterView { id, channel_id, search, replace, filename, data }
}

pub open spec fn opt_str_view(o: Option<&str>) -> Option<Seq<char>> {
    match o {
        Option::Some(s) => Option::Some(s@),
        Option::None => Option::None,
    }
}

pub open spec fn opt_string_view(o: Option<String>) -> Option<Seq<char>> {
    match o {
        Option::Some(s) => Option::Some(s@),
        Option::None => Option::None,
    }
}

pub open spec fn opt_slice_view(o: Option<&[u8]>) -> Option<Seq<u8>> {
    match o {
        Option::Some(d) => Option::Some(d@),
        Option::None => Option::None,
    }
}

pub open spec fn opt_vec_view(o: Option<Vec<u8>>) -> Option<Seq<u8>> {
    match o {
        Option::Some(d) => Option::Some(d@),
        Option::None => Option::None,
    }
}

pub open spec fn views_of(v: Seq<Filter>) -> Seq<FilterView> {
    v.map_values(|f: Filter| f@)
}

/// Every id already stored is below `id`.
pub open spec fn id_above(rows: Seq<FilterView>, id: int) -> bool {
    forall|j: int| 0 <= j < rows.len() ==> (#[trigger] rows[j]).id < id
}

#[verifier::external_type_specification]
#[verifier::external_body]
pub struct ExConnection(rusqlite::Connection);

#[verifier::external_type_specification]
#[verifier::external_body]
pub struct ExSqlError(rusqlite::Error);

#[verifier::external_type_specification]
#[verifier::external_body]
pub struct ExRow<'a>(rusqlite::Row<'a>);

#[verifier::external_type_specification]
#[verifier::external_body]
pub struct ExHttpError(reqwest::Error);

/// The rows of the filters table held by this database connection, in stored
/// (rowid) order.
pub uninterp spec fn stored_filters(db: rusqlite::Connection) -> Seq<FilterView>;

/// Relies on rusqlite::Connection::open: opens (or creates) the SQLite
/// database at `path`; URI filenames are allowed by the default open flags.
/// Nothing is known of the rows already on disk.
#[verifier::external_body]
fn open_db(path: &str) -> (r: Result<rusqlite::Connection, rusqlite::Error>) {
    rusqlite::Connection::open(path)
}

/// Relies on rusqlite::Connection::execute running CREATE TABLE IF NOT
/// EXISTS: creates the filters table when it is absent and never touches
/// existing rows, so the stored rows are unchanged either way.
#[verifier::external_body]
fn ensure_schema(db: &mut rusqlite::Connection) -> (r: Result<(), rusqlite::Error>)
    ensures
        stored_filters(*final(db)) == stored_filters(*old(db)),
{
    let sql = "CREATE TABLE IF NOT EXISTS filters (
        id          INTEGER PRIMARY KEY AUTOINCREMENT,
        channelId   INTEGER,
        search      TEXT NOT NULL,
        replace     TEXT NOT NULL,
        filename    TEXT,
        data        BLOB
    );";
    db.execute(sql, ()).map(|_| ())
}

/// Relies on rusqlite::Connection::execute running INSERT and on
/// Connection::last_insert_rowid: on success exactly one row with the given
/// fields is appended, and AUTOINCREMENT assigns it a rowid greater than any
/// the table has ever used; on failure the rows are unchanged.
#[verifier::external_body]
fn insert_row(
    db: &mut rusqlite::Connection,
    channel_id: i64,
    search: &str,
    replace: &str,
    filename: Option<&str>,
    data: Option<&[u8]>,
) -> (r: Result<i64, rusqlite::Error>)
    ensures
        r is Ok ==> stored_filters(*final(db)) == stored_filters(*old(db)).push(
            make_fv(
                r->Ok_0 as int,
                channel_id as int,
                search@,
                replace@,
                opt_str_view(filename),
                opt_slice_view(data),
            ),
        ),
        r is Ok ==> id_above(stored_filters(*old(db)), r->Ok_0 as int),
        r is Err ==> stored_filters(*final(db)) == stored_filters(*old(db)),
{
    let sql = "INSERT INTO filters (channelId, search, replace, filename, data)
        VALUES (?1, ?2, ?3, ?4, ?5)";
    match db.execute(sql, (channel_id, search, replace, filename, data)) {
        Ok(_) => Ok(db.last_insert_rowid()),
        Err(e) => Err(e),
    }
}

/// Relies on rusqlite::Connection::prepare and Statement::query_map running
/// SELECT ... ORDER BY id: on success the result holds every stored row, in
/// rowid order, each converted by `Filter::from_sql`; ids are the table's
/// primary key, so they are strictly increasing in that order.
#[verifier::external_body]
fn select_all(db: &rusqlite::Connection) -> (r: Result<Vec<Filter>, rusqlite::Error>)
    ensures
        r is Ok ==> views_of(r->Ok_0@) == stored_filters(*db),
        r is Ok ==> forall|j: int, k: int|
            0 <= j < k < r->Ok_0@.len() ==> r->Ok_0@[j].id < r->Ok_0@[k].id,
{
    let sql = "SELECT id, channelId, search, replace, filename, data FROM filters ORDER BY id";
    let mut stmt = db.prepare(sql)?;
    let rows = stmt.query_map((), |row| Filter::from_sql(row))?;
    rows.collect()
}

/// Relies on rusqlite::Connection::prepare and Statement::query_map running
/// SELECT ... WHERE channelId = ? ORDER BY id: on success the result holds
/// exactly the stored rows of that channel, in rowid order, each converted by
/// `Filter::from_sql`.
#[verifier::external_body]
fn select_channel(db: &rusqlite::Connection, channel_id: i64) -> (r: Result<
    Vec<Filter>,
    rusqlite::Error,
>)
    ensures
        r is Ok ==> views_of(r->Ok_0@) == channel_rows_spec(
            stored_filters(*db),
            channel_id as int,
        ),
{
    let sql = "SELECT id, channelId, search, replace, filename, data FROM filters
        WHERE channelId = ?1 ORDER BY id";
    let mut stmt = db.prepare(sql)?;
    let rows = stmt.query_map((channel_id,), |row| Filter::from_sql(row))?;
    rows.collect()
}

/// Relies on reqwest::blocking::get and reqwest::blocking::Response::bytes:
/// performs a blocking HTTP GET and reads the whole response body into
/// memory. Nothing is known of the bytes that come back. (Must not be called
/// from within an asynchronous runtime; this library never starts one.)
#[verifier::external_body]
fn fetch_url(url: &str) -> (r: Result<Vec<u8>, reqwest::Error>) {
    let body = reqwest::blocking::get(url)?.bytes()?;
    Ok(body.to_vec())
}

impl Filter {
    /// Relies on rusqlite::Row::get for each column of the filters table, in
    /// the column order of the SELECT above.
    #[verifier::external_body]
    pub fn from_sql(row: &rusqlite::Row) -> Result<Filter, rusqlite::Error> {
        Ok(Filter {
            id: row.get(0)?,
            channel_id: row.get(1)?,
            search: row.get(2)?,
            replace: row.get(3)?,
            filename: row.get(4)?,
            data: row.get(5)?,
        })
    }
}

/// `f` fires on a message with text `text` in channel `channel_id`: same
/// channel, and the trigger is a nonempty substring of the text.
pub open spec fn filter_matches(f: FilterView, channel_id: int, text: Seq<char>) -> bool {
    f.channel_id == channel_id && f.search.len() > 0 && contains_seq(text, f.search)
}

/// Index of the first filter that fires, scanning in stored order.
pub open spec fn first_match_at(rows: Seq<FilterView>, channel_id: int, text: Seq<char>) -> Option<
    int,
>
    decreases rows.len(),
{
    if rows.len() == 0 {
        Option::None
    } else if filter_matches(rows[0], channel_id, text) {
        Option::Some(0)
    } else {
        match first_match_at(rows.skip(1), channel_id, text) {
            Option::Some(i) => Option::Some(i + 1),
            Option::None => Option::None,
        }
    }
}

/// The first filter that fires, if any.
pub open spec fn first_match_spec(
    rows: Seq<FilterView>,
    channel_id: int,
    text: Seq<char>,
) -> Option<FilterView> {
    match first_match_at(rows, channel_id, text) {
        Option::Some(i) => Option::Some(rows[i]),
        Option::None => Option::None,
    }
}

/// The rows of one channel, in stored order.
pub open spec fn channel_rows_spec(rows: Seq<FilterView>, channel_id: int) -> Seq<FilterView>
    decreases rows.len(),
{
    if rows.len() == 0 {
        Seq::empty()
    } else {
        channel_rows_spec(rows.drop_last(), channel_id) + (if rows.last().channel_id == channel_id {
            seq![rows.last()]
        } else {
            Seq::<FilterView>::empty()
        })
    }
}

proof fn lemma_channel_rows_cons(rows: Seq<FilterView>, channel_id: int)
    requires
        rows.len() > 0,
    ensures
        channel_rows_spec(rows, channel_id) == (if rows[0].channel_id == channel_id {
            seq![rows[0]]
        } else {
            Seq::<FilterView>::empty()
        }) + channel_rows_spec(rows.skip(1), channel_id),
    decreases rows.len(),
{
    let head: Seq<FilterView> = if rows[0].channel_id == channel_id {
        seq![rows[0]]
    } else {
        Seq::<FilterView>::empty()
    };
    if rows.len() == 1 {
        assert(rows.drop_last() =~= Seq::<FilterView>::empty());
        assert(rows.skip(1) =~= Seq::<FilterView>::empty());
        assert(rows.last() == rows[0]);
        assert(channel_rows_spec(rows, channel_id) =~= head + channel_rows_spec(
            rows.skip(1),
            channel_id,
        ));
    } else {
        let front = rows.drop_last();
        lemma_channel_rows_cons(front, channel_id);
        assert(front[0] == rows[0]);
        let tail: Seq<FilterView> = if rows.last().channel_id == channel_id {
            seq![rows.last()]
        } else {
            Seq::<FilterView>::empty()
        };
        assert(rows.skip(1).drop_last() =~= front.skip(1));
        assert(rows.skip(1).last() == rows.last());
        assert(channel_rows_spec(rows.skip(1), channel_id) == channel_rows_spec(
            front.skip(1),
            channel_id,
        ) + tail);
        assert(channel_rows_spec(rows, channel_id) =~= head + (channel_rows_spec(
            front.skip(1),
            channel_id,
        ) + tail));
        assert(head + (channel_rows_spec(front.skip(1), channel_id) + tail) =~= head
            + channel_rows_spec(rows.skip(1), channel_id));
    }
}

proof fn lemma_first_match_spec_cons(rows: Seq<FilterView>, channel_id: int, text: Seq<char>)
    requires
        rows.len() > 0,
    ensures
        first_match_spec(rows, channel_id, text) == (if filter_matches(rows[0], channel_id, text) {
            Option::Some(rows[0])
        } else {
            first_match_spec(rows.skip(1), channel_id, text)
        }),
{
    if !filter_matches(rows[0], channel_id, text) {
        lemma_first_match_is_match(rows.skip(1), channel_id, text);
        match first_match_at(rows.skip(1), channel_id, text) {
            Option::Some(i) => {
                assert(rows[i + 1] == rows.skip(1)[i]);
            },
            Option::None => {},
        }
    }
}

/// The first match within a channel's own rows is the first match over the
/// whole store for that channel: rows of other channels never fire there.
pub proof fn lemma_first_match_in_channel_rows(
    rows: Seq<FilterView>,
    channel_id: int,
    text: Seq<char>,
)
    ensures
        first_match_spec(channel_rows_spec(rows, channel_id), channel_id, text)
            == first_match_spec(rows, channel_id, text),
    decreases rows.len(),
{
    if rows.len() == 0 {
        assert(channel_rows_spec(rows, channel_id) =~= Seq::<FilterView>::empty());
    } else {
        lemma_channel_rows_cons(rows, channel_id);
        lemma_first_match_in_channel_rows(rows.skip(1), channel_id, text);
        lemma_first_match_spec_cons(rows, channel_id, text);
        let cr = channel_rows_spec(rows, channel_id);
        if rows[0].channel_id == channel_id {
            assert(cr[0] == rows[0]);
            assert(cr.skip(1) =~= channel_rows_spec(rows.skip(1), channel_id));
            lemma_first_match_spec_cons(cr, channel_id, text);
        } else {
            assert(!filter_matches(rows[0], channel_id, text));
            assert(cr =~= channel_rows_spec(rows.skip(1), channel_id));
        }
    }
}

pub proof fn lemma_first_match_found(rows: Seq<FilterView>, channel_id: int, text: Seq<char>, i: int)
    requires
        0 <= i < rows.len(),
        filter_matches(rows[i], channel_id, text),
        forall|j: int| 0 <= j < i ==> !filter_matches(#[trigger] rows[j], channel_id, text),
    ensures
        first_match_at(rows, channel_id, text) == Option::Some(i),
    decreases i,
{
    if i > 0 {
        let t = rows.skip(1);
        assert(t[i - 1] == rows[i]);
        assert forall|j: int| 0 <= j < i - 1 implies !filter_matches(
            #[trigger] t[j],
            channel_id,
            text,
        ) by {
            assert(t[j] == rows[j + 1]);
        }
        lemma_first_match_found(t, channel_id, text, i - 1);
    }
}

pub proof fn lemma_first_match_none(rows: Seq<FilterView>, channel_id: int, text: Seq<char>)
    requires
        forall|j: int| 0 <= j < rows.len() ==> !filter_matches(#[trigger] rows[j], channel_id, text),
    ensures
        first_match_at(rows, channel_id, text) is None,
    decreases rows.len(),
{
    if rows.len() > 0 {
        let t = rows.skip(1);
        assert forall|j: int| 0 <= j < t.len() implies !filter_matches(
            #[trigger] t[j],
            channel_id,
            text,
        ) by {
            assert(t[j] == rows[j + 1]);
        }
        lemma_first_match_none(t, channel_id, text);
    }
}

/// First verified half of the store's lookup: the index of the first stored
/// filter that fires on `text` in channel `channel_id`, if any.
pub fn match_in(rows: &Vec<Filter>, channel_id: i64, text: &str) -> (r: Option<usize>)
    ensures
        match r {
            Option::Some(i) => i < rows.len() && first_match_at(
                views_of(rows@),
                channel_id as int,
                text@,
            ) == Option::Some(i as int),
            Option::None => first_match_at(views_of(rows@), channel_id as int, text@) is None,
        },
{
    let ghost rv = views_of(rows@);
    let mut i: usize = 0;
    while i < rows.len()
        invariant
            rv == views_of(rows@),
            rv.len() == rows.len(),
            0 <= i <= rows.len(),
            forall|j: int| 0 <= j < i ==> !filter_matches(#[trigger] rv[j], channel_id as int, text@),
        decreases rows.len() - i,
    {
        proof {
            assert(rv[i as int] == rows@[i as int]@);
        }
        let f = &rows[i];
        if f.channel_id == channel_id && f.search.unicode_len() > 0 && contains_str(
            text,
            f.search.as_str(),
        ) {
            proof {
                lemma_first_match_found(rv, channel_id as int, text@, i as int);
            }
            return Some(i);
        }
        i += 1;
    }
    proof {
        lemma_first_match_none(rv, channel_id as int, text@);
    }
    None
}

/// Second verified half of the store's listing: keep the rows of one channel,
/// in stored order.
pub fn channel_filters(rows: Vec<Filter>, channel_id: i64) -> (out: Vec<Filter>)
    ensures
        views_of(out@) == channel_rows_spec(views_of(rows@), channel_id as int),
{
    let ghost orig = views_of(rows@);
    let mut rest = rows;
    let mut out: Vec<Filter> = Vec::new();
    proof {
        assert(views_of(out@) =~= Seq::<FilterView>::empty());
        assert(channel_rows_spec(orig, channel_id as int) =~= channel_rows_spec(
            views_of(rest@),
            channel_id as int,
        ) + views_of(out@));
    }
    while rest.len() > 0
        invariant
            channel_rows_spec(orig, channel_id as int) == channel_rows_spec(
                views_of(rest@),
                channel_id as int,
            ) + views_of(out@),
        decreases rest.len(),
    {
        let ghost pre = views_of(rest@);
        let f = rest.pop().unwrap();
        proof {
            assert(views_of(rest@) =~= pre.drop_last());
            assert(pre.last() == f@);
        }
        if f.channel_id == channel_id {
            let ghost outv = views_of(out@);
            out.insert(0, f);
            proof {
                assert(views_of(out@) =~= seq![f@] + outv);
                assert(channel_rows_spec(pre, channel_id as int) + outv =~= channel_rows_spec(
                    views_of(rest@),
                    channel_id as int,
                ) + views_of(out@));
            }
        } else {
            proof {
                assert(channel_rows_spec(pre, channel_id as int) + views_of(out@)
                    =~= channel_rows_spec(views_of(rest@), channel_id as int) + views_of(out@));
            }
        }
    }
    proof {
        assert(views_of(rest@).len() == 0);
        assert(channel_rows_spec(views_of(rest@), channel_id as int) =~= Seq::<FilterView>::empty());
        assert(views_of(out@) =~= channel_rows_spec(orig, channel_id as int));
    }
    out
}

/// The durable filter catalog, backed by one SQLite database connection.
pub struct Filters {
    db: rusqlite::Connection,
}

impl Filters {
    /// The stored rows, for use in contracts.
    pub closed spec fn rows(&self) -> Seq<FilterView> {
        stored_filters(self.db)
    }

    /// Open (or create) the backing file at its well-known relative path and
    /// make sure the schema exists. Opening the same file again later behaves
    /// identically: schema creation never touches stored rows.
    pub fn load() -> (r: Result<Filters, UserBotError>)
        ensures
            r is Err ==> r->Err_0.spec_kind() == UserBotErrorKind::StorageUnavailable,
    {
        Filters::load_at("filters.db")
    }

    /// Open (or create) the backing database at `path` (URI filenames
    /// allowed) and make sure the schema exists.
    pub fn load_at(path: &str) -> (r: Result<Filters, UserBotError>)
        ensures
            r is Err ==> r->Err_0.spec_kind() == UserBotErrorKind::StorageUnavailable,
    {
        match open_db(path) {
            Ok(mut db) => match ensure_schema(&mut db) {
                Ok(()) => Ok(Filters { db }),
                Err(_) => Err(
                    UserBotError::new(
                        UserBotErrorKind::StorageUnavailable,
                        "cannot create the filters table",
                    ),
                ),
            },
            Err(_) => Err(
                UserBotError::new(
                    UserBotErrorKind::StorageUnavailable,
                    "cannot open the filters database",
                ),
            ),
        }
    }

    /// Persist one filter whose blob (if any) is already in hand. On success
    /// exactly the given filter is appended, under a fresh id above every
    /// stored one.
    pub fn create_with_data(
        &mut self,
        channel_id: i64,
        search: &str,
        replace: &str,
        filename: Option<String>,
        data: Option<Vec<u8>>,
    ) -> (r: Result<(), UserBotError>)
        ensures
            r is Ok ==> exists|id: int|
                final(self).rows() == old(self).rows().push(
                    make_fv(
                        id,
                        channel_id as int,
                        search@,
                        replace@,
                        opt_string_view(filename),
                        opt_vec_view(data),
                    ),
                ) && id_above(old(self).rows(), id),
            r is Err ==> final(self).rows() == old(self).rows() && r->Err_0.spec_kind()
                == UserBotErrorKind::StorageWriteFailed,
    {
        let fname: Option<&str> = match &filename {
            Some(s) => Some(s.as_str()),
            None => None,
        };
        let blob: Option<&[u8]> = match &data {
            Some(d) => Some(d.as_slice()),
            None => None,
        };
        match insert_row(&mut self.db, channel_id, search, replace, fname, blob) {
            Ok(id) => {
                proof {
                    assert(opt_str_view(fname) == opt_string_view(filename));
                    assert(opt_slice_view(blob) == opt_vec_view(data));
                    assert(self.rows() == old(self).rows().push(
                        make_fv(
                            id as int,
                            channel_id as int,
                            search@,
                            replace@,
                            opt_string_view(filename),
                            opt_vec_view(data),
                        ),
                    ) && id_above(old(self).rows(), id as int));
                }
                Ok(())
            },
            Err(_) => Err(
                UserBotError::new(
                    UserBotErrorKind::StorageWriteFailed,
                    "cannot write the filter row",
                ),
            ),
        }
    }

    /// Create a filter. With a source URL the blob is downloaded now
    /// (blocking) and the filter carries it with the suggested filename; a
    /// failed download aborts the create with no row written. Without a URL a
    /// text filter is persisted and any filename argument is ignored.
    pub fn create_new(
        &mut self,
        channel_id: i64,
        search: &str,
        replace: String,
        filename: Option<String>,
        url: Option<String>,
    ) -> (r: Result<(), UserBotError>)
        ensures
            r is Ok && url is Some ==> exists|id: int, body: Seq<u8>|
                final(self).rows() == old(self).rows().push(
                    make_fv(
                        id,
                        channel_id as int,
                        search@,
                        replace@,
                        opt_string_view(filename),
                        Option::Some(body),
                    ),
                ) && id_above(old(self).rows(), id),
            r is Ok && url is None ==> exists|id: int|
                final(self).rows() == old(self).rows().push(
                    make_fv(
                        id,
                        channel_id as int,
                        search@,
                        replace@,
                        Option::None,
                        Option::None,
                    ),
                ) && id_above(old(self).rows(), id),
            r is Err ==> final(self).rows() == old(self).rows(),
            r is Err ==> r->Err_0.spec_kind() == UserBotErrorKind::FetchFailed
                || r->Err_0.spec_kind() == UserBotErrorKind::StorageWriteFailed,
            r is Err && url is None ==> r->Err_0.spec_kind()
                == UserBotErrorKind::StorageWriteFailed,
    {
        match url {
            Some(u) => match fetch_url(u.as_str()) {
                Ok(body) => self.create_with_data(
                    channel_id,
                    search,
                    replace.as_str(),
                    filename,
                    Some(body),
                ),
                Err(_) => Err(
                    UserBotError::new(
                        UserBotErrorKind::FetchFailed,
                        "cannot download the attachment",
                    ),
                ),
            },
            None => self.create_with_data(channel_id, search, replace.as_str(), None, None),
        }
    }

    /// First-match lookup: the first stored filter of this channel whose
    /// nonempty trigger is a substring of `message`. `NoMatch` is the
    /// expected outcome when no filter fires.
    pub fn match_filter(&self, channel_id: i64, message: &str) -> (r: Result<Filter, UserBotError>)
        ensures
            r is Ok ==> first_match_spec(self.rows(), channel_id as int, message@)
                == Option::Some(r->Ok_0@),
            r is Err ==> r->Err_0.spec_kind() == UserBotErrorKind::NoMatch
                || r->Err_0.spec_kind() == UserBotErrorKind::StorageUnavailable,
            r is Err && r->Err_0.spec_kind() == UserBotErrorKind::NoMatch ==> first_match_spec(
                self.rows(),
                channel_id as int,
                message@,
            ) is None,
    {
        match select_channel(&self.db, channel_id) {
            Ok(mut v) => match match_in(&v, channel_id, message) {
                Some(i) => {
                    proof {
                        lemma_first_match_in_channel_rows(
                            self.rows(),
                            channel_id as int,
                            message@,
                        );
                    }
                    let f = v.remove(i);
                    Ok(f)
                },
                None => {
                    proof {
                        lemma_first_match_in_channel_rows(
                            self.rows(),
                            channel_id as int,
                            message@,
                        );
                    }
                    Err(UserBotError::new(UserBotErrorKind::NoMatch, "no filter applies"))
                },
            },
            Err(_) => Err(
                UserBotError::new(
                    UserBotErrorKind::StorageUnavailable,
                    "cannot read the filters table",
                ),
            ),
        }
    }

    /// All filters of this channel, in insertion order.
    pub fn get_all(&self, channel_id: i64) -> (r: Result<Vec<Filter>, UserBotError>)
        ensures
            r is Ok ==> views_of(r->Ok_0@) == channel_rows_spec(self.rows(), channel_id as int),
            r is Err ==> r->Err_0.spec_kind() == UserBotErrorKind::StorageUnavailable,
    {
        match select_all(&self.db) {
            Ok(v) => Ok(channel_filters(v, channel_id)),
            Err(_) => Err(
                UserBotError::new(
                    UserBotErrorKind::StorageUnavailable,
                    "cannot read the filters table",
                ),
            ),
        }
    }
}


pub proof fn lemma_first_match_is_match(rows: Seq<FilterView>, channel_id: int, text: Seq<char>)
    ensures
        (match first_match_at(rows, channel_id, text) {
            Option::Some(i) => 0 <= i < rows.len() && filter_matches(rows[i], channel_id, text),
            Option::None => true,
        }),
    decreases rows.len(),
{
    if rows.len() > 0 && !filter_matches(rows[0], channel_id, text) {
        let t = rows.skip(1);
        lemma_first_match_is_match(t, channel_id, text);
        match first_match_at(t, channel_id, text) {
            Option::Some(i) => {
                assert(t[i] == rows[i + 1]);
            },
            Option::None => {},
        }
    }
}

/// How creation changes first-match lookup, index by index: an existing first
/// match is undisturbed; where nothing matched, the new filter is found
/// exactly when it fires.
pub proof fn lemma_match_after_create(
    rows: Seq<FilterView>,
    f: FilterView,
    channel_id: int,
    text: Seq<char>,
)
    ensures
        first_match_at(rows, channel_id, text) is Some ==> first_match_at(
            rows.push(f),
            channel_id,
            text,
        ) == first_match_at(rows, channel_id, text),
        first_match_at(rows, channel_id, text) is None && filter_matches(f, channel_id, text)
            ==> first_match_at(rows.push(f), channel_id, text) == Option::Some(rows.len() as int),
        first_match_at(rows, channel_id, text) is None && !filter_matches(f, channel_id, text)
            ==> first_match_at(rows.push(f), channel_id, text) is None,
    decreases rows.len(),
{
    if rows.len() == 0 {
        assert(rows.push(f)[0] == f);
        assert(rows.push(f).skip(1) =~= Seq::<FilterView>::empty());
        assert(first_match_at(Seq::<FilterView>::empty(), channel_id, text) is None);
    } else {
        let t = rows.skip(1);
        lemma_match_after_create(t, f, channel_id, text);
        assert(rows.push(f)[0] == rows[0]);
        assert(rows.push(f).skip(1) =~= t.push(f));
        if first_match_at(rows, channel_id, text) is None && !filter_matches(
            f,
            channel_id,
            text,
        ) {
            assert(!filter_matches(rows[0], channel_id, text));
            assert(first_match_at(t, channel_id, text) is None);
            assert(first_match_at(t.push(f), channel_id, text) is None);
            assert(first_match_at(rows.push(f), channel_id, text) is None);
        }
    }
}

/// Round-trip law: when a created filter fires on `text` in its own channel
/// and nothing stored before it fired there, the lookup now finds exactly it,
/// with its trigger and its replacement.
pub proof fn lemma_match_round_trip(
    rows: Seq<FilterView>,
    f: FilterView,
    channel_id: int,
    text: Seq<char>,
)
    requires
        filter_matches(f, channel_id, text),
        first_match_at(rows, channel_id, text) is None,
    ensures
        first_match_spec(rows.push(f), channel_id, text) == Option::Some(f),
{
    lemma_match_after_create(rows, f, channel_id, text);
    assert(rows.push(f)[rows.len() as int] == f);
}

/// Channel isolation law: creating a filter leaves lookup in every other
/// channel exactly as it was.
pub proof fn lemma_match_other_channel(
    rows: Seq<FilterView>,
    f: FilterView,
    other: int,
    text: Seq<char>,
)
    requires
        f.channel_id != other,
    ensures
        first_match_spec(rows.push(f), other, text) == first_match_spec(rows, other, text),
{
    lemma_match_after_create(rows, f, other, text);
    lemma_first_match_is_match(rows, other, text);
    match first_match_at(rows, other, text) {
        Option::Some(i) => {
            assert(rows.push(f)[i] == rows[i]);
        },
        Option::None => {},
    }
}

/// Round-trip law at the lookup level: after a create of a filter that fires
/// on `text` in its own channel (its trigger is nonempty and contained in
/// `text`), if no filter stored before it fires on `text` there, the first
/// match is exactly the created filter, with its trigger and its replacement
/// -- so a lookup that reads the store cannot answer `NoMatch`.
pub proof fn lemma_match_finds_created(rows: Seq<FilterView>, f: FilterView, text: Seq<char>)
    requires
        filter_matches(f, f.channel_id, text),
        forall|j: int|
            0 <= j < rows.len() ==> !filter_matches(#[trigger] rows[j], f.channel_id, text),
    ensures
        first_match_spec(rows.push(f), f.channel_id, text) == Option::Some(f),
{
    lemma_first_match_none(rows, f.channel_id, text);
    lemma_match_round_trip(rows, f, f.channel_id, text);
}

/// Listing law: a newly created filter appears at the end of its own
/// channel's listing, and every other channel's listing is unchanged.
pub proof fn lemma_list_after_create(rows: Seq<FilterView>, f: FilterView, channel_id: int)
    ensures
        f.channel_id == channel_id ==> channel_rows_spec(rows.push(f), channel_id)
            == channel_rows_spec(rows, channel_id) + seq![f],
        f.channel_id != channel_id ==> channel_rows_spec(rows.push(f), channel_id)
            == channel_rows_spec(rows, channel_id),
{
    assert(rows.push(f).drop_last() =~= rows);
    assert(rows.push(f).last() == f);
    if f.channel_id != channel_id {
        assert(channel_rows_spec(rows.push(f), channel_id) =~= channel_rows_spec(
            rows,
            channel_id,
        ));
    }
}

} // verus!

