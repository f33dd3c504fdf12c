//! The record of a published file, as the engine holds it and as a row of
//! the files table holds it.
//!
//! The two differ in the root hash: a row has it as text, the record as a
//! hash. Turning one into the other is the storage layer's business; what
//! it gave is handed in.

use vstd::prelude::*;
use crate::model::{HashModel, OmniHash};

verus! {

/// A point in time: seconds since the epoch in UTC, and the nanoseconds
/// within the second.
#[derive(Clone, Copy, Debug, PartialEq, Eq, Structural)]
pub struct Timestamp {
    pub secs: i64,
    pub nanos: u32,
}

/// A published file.
#[derive(Debug)]
pub struct PublishedFile {
    pub root_hash: OmniHash,
    pub file_name: String,
    pub block_size: i64,
    pub property: Option<String>,
    pub created_time: Timestamp,
    pub updated_time: Timestamp,
}

/// A published file, with texts and blobs as sequences.
pub struct PublishedFileModel {
    pub root_hash: HashModel,
    pub file_name: Seq<char>,
    pub block_size: i64,
    pub property: Option<Seq<char>>,
    pub created_time: Timestamp,
    pub updated_time: Timestamp,
}

/// The text of an optional string.
pub open spec fn text_of(value: Option<String>) -> Option<Seq<char>> {
    match value {
        Some(text) => Some(text@),
        None => None,
    }
}

impl View for PublishedFile {
    type V = PublishedFileModel;

    open spec fn view(&self) -> PublishedFileModel {
        PublishedFileModel {
            root_hash: self.root_hash@,
            file_name: self.file_name@,
            block_size: self.block_size,
            property: text_of(self.property),
            created_time: self.created_time,
            updated_time: self.updated_time,
        }
    }
}

/// A row of the files table.
#[derive(Debug)]
pub struct PublishedFileRow {
    pub root_hash: String,
    pub file_name: String,
    pub block_size: i64,
    pub property: Option<String>,
    pub created_time: Timestamp,
    pub updated_time: Timestamp,
}

/// A row, with texts as sequences.
pub struct PublishedFileRowModel {
    pub root_hash: Seq<char>,
    pub file_name: Seq<char>,
    pub block_size: i64,
    pub property: Option<Seq<char>>,
    pub created_time: Timestamp,
    pub updated_time: Timestamp,
}

impl View for PublishedFileRow {
    type V = PublishedFileRowModel;

    open spec fn view(&self) -> PublishedFileRowModel {
        PublishedFileRowModel {
            root_hash: self.root_hash@,
            file_name: self.file_name@,
            block_size: self.block_size,
            property: text_of(self.property),
            created_time: self.created_time,
            updated_time: self.updated_time,
        }
    }
}

/// Why a row gives no published file.
#[derive(Clone, Copy, Debug, PartialEq, Eq, Structural)]
pub enum RowError {
    /// The text of the root hash is no hash.
    InvalidRootHash,
}

/// The file that a row stands for, given the hash that its root hash text
/// was read as.
pub open spec fn file_of(row: PublishedFileRowModel, root_hash: HashModel) -> PublishedFileModel {
    PublishedFileModel {
        root_hash,
        file_name: row.file_name,
        block_size: row.block_size,
        property: row.property,
        created_time: row.created_time,
        updated_time: row.updated_time,
    }
}

/// The row that stands for a file, given the text of its root hash.
pub open spec fn row_of(file: PublishedFileModel, root_hash: Seq<char>) -> PublishedFileRowModel {
    PublishedFileRowModel {
        root_hash,
        file_name: file.file_name,
        block_size: file.block_size,
        property: file.property,
        created_time: file.created_time,
        updated_time: file.updated_time,
    }
}

/// The files that rows stand for, in the order of the rows. Each row comes
/// with what its root hash text was read as; a row whose text is no hash
/// gives no file.
pub open spec fn files_of(rows: Seq<(PublishedFileRow, Option<OmniHash>)>) -> Seq<
    PublishedFileModel,
>
    decreases rows.len(),
{
    if rows.len() == 0 {
        Seq::empty()
    } else {
        let head = files_of(rows.drop_last());
        match rows.last().1 {
            Some(hash) => head.push(file_of(rows.last().0@, hash@)),
            None => head,
        }
    }
}

impl PublishedFileRow {
    /// The file that the row stands for. `root_hash` is what the row's root
    /// hash text was read as: `None` where it is no hash, and then the row
    /// gives no file.
    pub fn into(self, root_hash: Option<OmniHash>) -> (r: Result<PublishedFile, RowError>)
        ensures
            match root_hash {
                Some(hash) => r matches Ok(file) && file@ == file_of(self@, hash@),
                None => r == Err::<PublishedFile, RowError>(RowError::InvalidRootHash),
            },
    {
        match root_hash {
            Some(hash) => Ok(
                PublishedFile {
                    root_hash: hash,
                    file_name: self.file_name,
                    block_size: self.block_size,
                    property: self.property,
                    created_time: self.created_time,
                    updated_time: self.updated_time,
                },
            ),
            None => Err(RowError::InvalidRootHash),
        }
    }

    /// The row that stands for a file. `root_hash` is the text of the file's
    /// root hash.
    pub fn from(item: PublishedFile, root_hash: String) -> (r: Result<PublishedFileRow, RowError>)
        ensures
            r matches Ok(row) && row@ == row_of(item@, root_hash@),
    {
        Ok(
            PublishedFileRow {
                root_hash,
                file_name: item.file_name,
                block_size: item.block_size,
                property: item.property,
                created_time: item.created_time,
                updated_time: item.updated_time,
            },
        )
    }
}

/// The published files that the rows of the files table stand for, in the
/// order of the rows. Rows whose root hash text is no hash are left out.
pub fn get_published_files(rows: Vec<(PublishedFileRow, Option<OmniHash>)>) -> (r: Vec<
    PublishedFile,
>)
    ensures
        r@.map_values(|f: PublishedFile| f@) == files_of(rows@),
{
    let ghost all = rows@;
    let mut files: Vec<PublishedFile> = Vec::new();
    let mut rest = rows;
    let mut back: Vec<PublishedFile> = Vec::new();
    // Rows come off the end, so the files come out last first.
    while rest.len() > 0
        invariant
            rest@.len() <= all.len(),
            rest@ == all.take(rest@.len() as int),
            files_of(all) == files_of(rest@) + back@.map_values(|f: PublishedFile| f@).reverse(),
        decreases rest@.len(),
    {
        let ghost before = rest@;
        let ghost back_before = back@.map_values(|f: PublishedFile| f@);
        let pair = rest.pop().unwrap();
        assert(rest@ == before.drop_last());
        assert(rest@ =~= all.take(rest@.len() as int));
        let (row, hash) = pair;
        let ghost head = files_of(rest@);
        match row.into(hash) {
            Ok(file) => {
                let ghost added = file@;
                back.push(file);
                proof {
                    let now = back@.map_values(|f: PublishedFile| f@);
                    assert(now =~= back_before.push(added));
                    assert(now.reverse() =~= seq![added] + back_before.reverse());
                    assert(head.push(added) + back_before.reverse() =~= head + now.reverse());
                }
            },
            Err(_) => {},
        }
    }
    assert(files_of(rest@) =~= Seq::empty());
    while back.len() > 0
        invariant
            files_of(all) == files@.map_values(|f: PublishedFile| f@) + back@.map_values(
                |f: PublishedFile| f@,
            ).reverse(),
        decreases back@.len(),
    {
        let ghost files_before = files@.map_values(|f: PublishedFile| f@);
        let ghost back_before = back@.map_values(|f: PublishedFile| f@);
        let file = back.pop().unwrap();
        let ghost moved = file@;
        files.push(file);
        proof {
            let files_now = files@.map_values(|f: PublishedFile| f@);
            let back_now = back@.map_values(|f: PublishedFile| f@);
            assert(files_now =~= files_before.push(moved));
            assert(back_now =~= back_before.drop_last());
            assert(back_before.reverse() =~= seq![moved] + back_now.reverse());
            assert(files_before + back_before.reverse() =~= files_now + back_now.reverse());
        }
    }
    assert(files@.map_values(|f: PublishedFile| f@) =~= files_of(all));
    files
}

/// Whether a count of matching rows says that there is one.
pub fn count_is_positive(count: i64) -> (r: bool)
    ensures
        r == (count > 0),
{
    count > 0
}

/// A row that was made from a file gives the file back, whenever the text
/// of the root hash is read as the hash it was written from.
pub proof fn lemma_row_round_trip(file: PublishedFileModel, text: Seq<char>)
    ensures
        file_of(row_of(file, text), file.root_hash) == file,
{
}

} // verus!
