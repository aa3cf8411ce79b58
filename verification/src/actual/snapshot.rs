//! Snapshots: a zip archive of a database and its metadata.
use std::io::Cursor;

use vstd::prelude::*;
use zip::ZipArchive;

use crate::actual::error::ActualError;
use crate::actual::model::{Metadata, Snapshot};

verus! {

// --------------------------------------------------------------- archives -----
/// Bytes with a place in them to read from.
#[verifier::external_type_specification]
#[verifier::external_body]
#[verifier::reject_recursive_types(T)]
pub struct ExCursor<T>(Cursor<T>);

/// A zip archive that was opened.
#[verifier::external_type_specification]
#[verifier::external_body]
#[verifier::reject_recursive_types(R)]
pub struct ExZipArchive<R>(ZipArchive<R>);

/// The bytes that an archive was opened on.
pub uninterp spec fn packed(archive: &ZipArchive<Cursor<&[u8]>>) -> Seq<u8>;

/// Why some bytes are no zip archive, where they are none.
pub uninterp spec fn zip_refusal(bytes: Seq<u8>) -> Option<Seq<char>>;

/// The bytes of an entry of an archive. The outer error says why there is no
/// such entry, the inner one why it cannot be read.
pub uninterp spec fn zip_bytes(bytes: Seq<u8>, name: Seq<char>) -> Result<
    Result<Seq<u8>, Seq<char>>,
    Seq<char>,
>;

/// The text of an entry of an archive, with errors as for its bytes.
pub uninterp spec fn zip_text(bytes: Seq<u8>, name: Seq<char>) -> Result<
    Result<Seq<char>, Seq<char>>,
    Seq<char>,
>;

/// `ZipArchive::new` on a cursor over the bytes. What makes an archive of them,
/// and the words in which it is refused, depend on the bytes alone.
#[verifier::external_body]
fn open_zip<'a>(bytes: &'a [u8]) -> (r: Result<ZipArchive<Cursor<&'a [u8]>>, String>)
    ensures
        match r {
            Ok(archive) => zip_refusal(bytes@) is None && packed(&archive) == bytes@,
            Err(e) => zip_refusal(bytes@) == Some(e@),
        },
{
    ZipArchive::new(Cursor::new(bytes)).map_err(|e| e.to_string())
}

/// `ZipArchive::by_name` and `Read::read_to_end`. What comes back depends on
/// the archive's bytes and the name alone; reading an entry leaves the archive
/// what it is.
#[verifier::external_body]
fn read_bytes(archive: &mut ZipArchive<Cursor<&[u8]>>, name: &str) -> (r: Result<
    Result<Vec<u8>, String>,
    String,
>)
    ensures
        packed(final(archive)) == packed(old(archive)),
        match r {
            Ok(Ok(found)) => zip_bytes(packed(old(archive)), name@) == Ok::<
                Result<Seq<u8>, Seq<char>>,
                Seq<char>,
            >(Ok(found@)),
            Ok(Err(e)) => zip_bytes(packed(old(archive)), name@) == Ok::<
                Result<Seq<u8>, Seq<char>>,
                Seq<char>,
            >(Err(e@)),
            Err(e) => zip_bytes(packed(old(archive)), name@) == Err::<
                Result<Seq<u8>, Seq<char>>,
                Seq<char>,
            >(e@),
        },
{
    let mut out = Vec::new();
    let mut entry = archive.by_name(name).map_err(|e| e.to_string())?;
    Ok(match std::io::Read::read_to_end(&mut entry, &mut out) {
        Ok(_) => Ok(out),
        Err(e) => Err(e.to_string()),
    })
}

/// `ZipArchive::by_name` and `Read::read_to_string`. What comes back depends on
/// the archive's bytes and the name alone; reading an entry leaves the archive
/// what it is.
#[verifier::external_body]
fn read_text(archive: &mut ZipArchive<Cursor<&[u8]>>, name: &str) -> (r: Result<
    Result<String, String>,
    String,
>)
    ensures
        packed(final(archive)) == packed(old(archive)),
        match r {
            Ok(Ok(found)) => zip_text(packed(old(archive)), name@) == Ok::<
                Result<Seq<char>, Seq<char>>,
                Seq<char>,
            >(Ok(found@)),
            Ok(Err(e)) => zip_text(packed(old(archive)), name@) == Ok::<
                Result<Seq<char>, Seq<char>>,
                Seq<char>,
            >(Err(e@)),
            Err(e) => zip_text(packed(old(archive)), name@) == Err::<
                Result<Seq<char>, Seq<char>>,
                Seq<char>,
            >(e@),
        },
{
    let mut out = String::new();
    let mut entry = archive.by_name(name).map_err(|e| e.to_string())?;
    Ok(match std::io::Read::read_to_string(&mut entry, &mut out) {
        Ok(_) => Ok(out),
        Err(e) => Err(e.to_string()),
    })
}

// --------------------------------------------------------------- snapshots -----
/// The database in a snapshot.
pub const DB: &'static str = "db.sqlite";

/// The metadata in a snapshot.
pub const METADATA: &'static str = "metadata.json";

/// "SQLite format 3" and a zero byte, with which every SQLite file starts.
pub open spec fn sqlite_header() -> Seq<u8> {
    seq![83u8, 81, 76, 105, 116, 101, 32, 102, 111, 114, 109, 97, 116, 32, 51, 0]
}

/// Whether some bytes start as a SQLite file does.
pub open spec fn is_database(bytes: Seq<u8>) -> bool {
    bytes.len() >= sqlite_header().len() && bytes.take(sqlite_header().len() as int)
        == sqlite_header()
}

/// What a text says as metadata, or why it says none.
pub type Reading = spec_fn(Seq<char>) -> Result<Metadata, Seq<char>>;

/// `metadata` reads metadata the way `reading` says.
pub open spec fn understands<M: Fn(&str) -> Result<Metadata, String>>(
    metadata: M,
    reading: Reading,
) -> bool {
    forall|text: &str, r: Result<Metadata, String>| #[trigger]
        call_ensures(metadata, (text,), r) ==> match r {
            Ok(m) => reading(text@) == Ok::<Metadata, Seq<char>>(m),
            Err(reason) => reading(text@) == Err::<Metadata, Seq<char>>(reason@),
        }
}

/// An entry that was looked for, or the reason to give where there is none.
pub open spec fn entry<T>(
    name: Seq<char>,
    found: Result<Result<T, Seq<char>>, Seq<char>>,
) -> Result<T, Seq<char>> {
    match found {
        Err(e) => Err(name + ": "@ + e),
        Ok(Err(e)) => Err("reading "@ + name + ": "@ + e),
        Ok(Ok(content)) => Ok(content),
    }
}

/// The database and the metadata of a snapshot, or the reason to give where
/// they do not make one.
pub open spec fn assembled(db: Seq<u8>, metadata: Result<Metadata, Seq<char>>) -> Result<
    (Seq<u8>, Metadata),
    Seq<char>,
> {
    match metadata {
        Err(e) => Err(METADATA@ + ": "@ + e),
        Ok(m) => if is_database(db) {
            Ok((db, m))
        } else {
            Err("db.sqlite is not a SQLite database"@)
        },
    }
}

/// What a snapshot holds, or the reason to give where it is none. The first
/// thing that is wrong decides.
pub open spec fn unpacked(bytes: Seq<u8>, reading: Reading) -> Result<
    (Seq<u8>, Metadata),
    Seq<char>,
> {
    match zip_refusal(bytes) {
        Some(e) => Err("not a valid zip: "@ + e),
        None => match entry(DB@, zip_bytes(bytes, DB@)) {
            Err(e) => Err(e),
            Ok(db) => match entry(METADATA@, zip_text(bytes, METADATA@)) {
                Err(e) => Err(e),
                Ok(raw) => assembled(db, reading(raw)),
            },
        },
    }
}

/// The text of the metadata, where nothing that comes before it is wrong.
pub open spec fn metadata_text(bytes: Seq<u8>) -> Option<Seq<char>> {
    match (
        zip_refusal(bytes),
        entry(DB@, zip_bytes(bytes, DB@)),
        entry(METADATA@, zip_text(bytes, METADATA@)),
    ) {
        (None, Ok(_), Ok(raw)) => Some(raw),
        _ => None,
    }
}

/// `metadata` was asked what this text says, and answered as `reading` says.
pub open spec fn told<M: Fn(&str) -> Result<Metadata, String>>(
    metadata: M,
    text: Seq<char>,
    reading: Reading,
) -> bool {
    exists|asked: &str, r: Result<Metadata, String>| #[trigger]
        call_ensures(metadata, (asked,), r) && asked@ == text && match r {
            Ok(m) => reading(text) == Ok::<Metadata, Seq<char>>(m),
            Err(reason) => reading(text) == Err::<Metadata, Seq<char>>(reason@),
        }
}

/// `metadata` was asked what the metadata of a snapshot says, and answered as
/// `reading` says, where that has to be asked.
pub open spec fn snapshot_told<M: Fn(&str) -> Result<Metadata, String>>(
    metadata: M,
    bytes: Seq<u8>,
    reading: Reading,
) -> bool {
    match metadata_text(bytes) {
        Some(raw) => told(metadata, raw, reading),
        None => true,
    }
}

/// The result is the one that is called for.
pub open spec fn as_called_for(
    r: Result<Snapshot, ActualError>,
    wanted: Result<(Seq<u8>, Metadata), Seq<char>>,
) -> bool {
    match wanted {
        Ok((db, metadata)) => r matches Ok(snapshot) && snapshot.db_bytes@ == db
            && snapshot.metadata == metadata,
        Err(why) => r matches Err(ActualError::BadSnapshot { reason }) && reason@ == why,
    }
}

/// The error for an entry that is not there, or that cannot be read.
pub fn entry_error(name: &str, unreadable: bool, cause: &str) -> (r: ActualError)
    ensures
        r matches ActualError::BadSnapshot { reason } && Err::<Seq<u8>, Seq<char>>(reason@)
            == entry::<Seq<u8>>(
            name@,
            if unreadable {
                Ok(Err(cause@))
            } else {
                Err(cause@)
            },
        ),
{
    let mut reason = String::new();
    if unreadable {
        reason.append("reading ");
    }
    reason.append(name);
    reason.append(": ");
    reason.append(cause);
    assert(reason@ =~= if unreadable {
        "reading "@ + name@ + ": "@ + cause@
    } else {
        name@ + ": "@ + cause@
    });
    ActualError::BadSnapshot { reason }
}

/// Puts a snapshot together from a database and what was made of its metadata.
///
/// The header is checked here: a truncated or misrouted download fails now
/// rather than as a confusing database error much later.
pub fn assemble(db_bytes: Vec<u8>, metadata: Result<Metadata, String>) -> (r: Result<
    Snapshot,
    ActualError,
>)
    ensures
        as_called_for(
            r,
            assembled(
                db_bytes@,
                match metadata {
                    Ok(m) => Ok(m),
                    Err(e) => Err(e@),
                },
            ),
        ),
{
    let metadata = match metadata {
        Ok(m) => m,
        Err(e) => {
            let mut reason = String::new();
            reason.append(METADATA);
            reason.append(": ");
            reason.append(e.as_str());
            assert(reason@ =~= METADATA@ + ": "@ + e@);
            return Err(ActualError::BadSnapshot { reason });
        },
    };
    if !starts_as_database(&db_bytes) {
        return Err(
            ActualError::BadSnapshot { reason: "db.sqlite is not a SQLite database".to_owned() },
        );
    }
    Ok(Snapshot { db_bytes, metadata })
}

fn starts_as_database(bytes: &Vec<u8>) -> (r: bool)
    ensures
        r == is_database(bytes@),
{
    let header: Vec<u8> = vec![83u8, 81, 76, 105, 116, 101, 32, 102, 111, 114, 109, 97, 116, 32, 51, 0];
    assert(header@ =~= sqlite_header());
    if bytes.len() < header.len() {
        return false;
    }
    let mut i: usize = 0;
    while i < header.len()
        invariant
            i <= header@.len() <= bytes@.len(),
            header@ == sqlite_header(),
            bytes@.take(i as int) == header@.take(i as int),
        decreases header@.len() - i,
    {
        if bytes[i] != header[i] {
            assert(bytes@.take(header@.len() as int)[i as int] != header@[i as int]);
            return false;
        }
        assert(bytes@.take(i + 1) =~= bytes@.take(i as int).push(bytes@[i as int]));
        assert(header@.take(i + 1) =~= header@.take(i as int).push(header@[i as int]));
        i += 1;
    }
    assert(header@.take(i as int) =~= header@);
    true
}

/// Reads a snapshot. `metadata` reads the JSON of its metadata.
pub fn parse<M: Fn(&str) -> Result<Metadata, String>>(bytes: &[u8], metadata: &M) -> (r: Result<
    Snapshot,
    ActualError,
>)
    requires
        forall|text: &str| call_requires(*metadata, (text,)),
    ensures
        exists|reading: Reading| #[trigger]
            snapshot_told(*metadata, bytes@, reading) && as_called_for(
                r,
                unpacked(bytes@, reading),
            ),
        forall|reading: Reading| #[trigger]
            understands(*metadata, reading) ==> as_called_for(r, unpacked(bytes@, reading)),
{
    let ghost any: Reading = |text: Seq<char>| arbitrary();
    assert(metadata_text(bytes@) is None ==> snapshot_told(*metadata, bytes@, any));
    let mut archive = match open_zip(bytes) {
        Ok(archive) => archive,
        Err(e) => {
            let mut reason = String::new();
            reason.append("not a valid zip: ");
            reason.append(e.as_str());
            assert(reason@ =~= "not a valid zip: "@ + e@);
            return Err(ActualError::BadSnapshot { reason });
        },
    };
    let db_bytes = match read_bytes(&mut archive, DB) {
        Ok(Ok(found)) => found,
        Ok(Err(e)) => {
            return Err(entry_error(DB, true, e.as_str()));
        },
        Err(e) => {
            return Err(entry_error(DB, false, e.as_str()));
        },
    };
    let raw = match read_text(&mut archive, METADATA) {
        Ok(Ok(found)) => found,
        Ok(Err(e)) => {
            return Err(entry_error(METADATA, true, e.as_str()));
        },
        Err(e) => {
            return Err(entry_error(METADATA, false, e.as_str()));
        },
    };
    let said = metadata(raw.as_str());
    let ghost answer: Reading = |text: Seq<char>|
        match said {
            Ok(m) => Ok(m),
            Err(reason) => Err(reason@),
        };
    assert(told(*metadata, raw@, answer));
    assert(snapshot_told(*metadata, bytes@, answer));
    assemble(db_bytes, said)
}

// ----------------------------------------------------------------- laws -----
/// A snapshot that was accepted holds a database, whatever its metadata says.
pub proof fn a_snapshot_holds_a_database(bytes: Seq<u8>, reading: Reading)
    ensures
        unpacked(bytes, reading) matches Ok((db, _)) ==> is_database(db),
{
}

/// A snapshot is accepted where it is an archive with both of its entries, the
/// metadata can be read, and the database starts as a SQLite file does. Then it
/// is what the entries hold.
pub proof fn a_sound_snapshot_is_accepted(
    bytes: Seq<u8>,
    reading: Reading,
    db: Seq<u8>,
    raw: Seq<char>,
    metadata: Metadata,
)
    requires
        zip_refusal(bytes) is None,
        zip_bytes(bytes, "db.sqlite"@) == Ok::<Result<Seq<u8>, Seq<char>>, Seq<char>>(Ok(db)),
        zip_text(bytes, "metadata.json"@) == Ok::<Result<Seq<char>, Seq<char>>, Seq<char>>(Ok(raw)),
        reading(raw) == Ok::<Metadata, Seq<char>>(metadata),
    ensures
        is_database(db) ==> unpacked(bytes, reading) == Ok::<(Seq<u8>, Metadata), Seq<char>>(
            (db, metadata),
        ),
        !is_database(db) ==> unpacked(bytes, reading) is Err,
        is_database(db) <==> db.len() >= 16 && db[15] == 0 && forall|i: int|
            0 <= i < 15 ==> #[trigger] db[i] == "SQLite format 3"@[i] as u8,
{
    reveal_strlit("SQLite format 3");
    let header = sqlite_header();
    if is_database(db) {
        assert forall|i: int| 0 <= i < 16 implies #[trigger] db[i] == header[i] by {
            assert(db.take(16)[i] == header[i]);
        }
    }
    if db.len() >= 16 && db[15] == 0 && forall|i: int|
        0 <= i < 15 ==> #[trigger] db[i] == "SQLite format 3"@[i] as u8 {
        assert(db[0] == 83 && db[1] == 81 && db[2] == 76 && db[3] == 105 && db[4] == 116);
        assert(db[5] == 101 && db[6] == 32 && db[7] == 102 && db[8] == 111 && db[9] == 114);
        assert(db[10] == 109 && db[11] == 97 && db[12] == 116 && db[13] == 32 && db[14] == 51);
        assert(db.take(16) =~= header);
    }
}

/// A snapshot without one of its entries, or whose metadata cannot be read, is
/// refused.
pub proof fn an_unsound_snapshot_is_refused(bytes: Seq<u8>, reading: Reading)
    requires
        zip_refusal(bytes) is Some || !(zip_bytes(bytes, "db.sqlite"@) matches Ok(Ok(_))) || !(
        zip_text(bytes, "metadata.json"@) matches Ok(Ok(raw)) && reading(raw) is Ok),
    ensures
        unpacked(bytes, reading) is Err,
{
}

/// A snapshot is read where it is sound, and then it holds its database and its
/// metadata; otherwise it is refused.
pub proof fn a_snapshot_is_read_where_it_is_sound<M: Fn(&str) -> Result<Metadata, String>>(
    bytes: &[u8],
    metadata: &M,
    reading: Reading,
    r: Result<Snapshot, ActualError>,
)
    requires
        call_ensures(parse::<M>, (bytes, metadata), r),
        understands(*metadata, reading),
    ensures
        r is Ok <==> {
            &&& zip_refusal(bytes@) is None
            &&& zip_bytes(bytes@, "db.sqlite"@) matches Ok(Ok(db)) && is_database(db)
            &&& zip_text(bytes@, "metadata.json"@) matches Ok(Ok(raw)) && reading(raw) is Ok
        },
        r matches Ok(snapshot) ==> {
            &&& zip_bytes(bytes@, "db.sqlite"@) == Ok::<Result<Seq<u8>, Seq<char>>, Seq<char>>(
                Ok(snapshot.db_bytes@),
            )
            &&& zip_text(bytes@, "metadata.json"@) matches Ok(Ok(raw)) && reading(raw) == Ok::<
                Metadata,
                Seq<char>,
            >(snapshot.metadata)
        },
        r matches Err(e) ==> e is BadSnapshot,
{
    assert(as_called_for(r, unpacked(bytes@, reading)));
}

} // verus!
