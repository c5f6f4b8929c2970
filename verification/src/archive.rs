use vstd::prelude::*;
use vstd::string::*;
use crate::error::APIErr;
use crate::song::SongInfo;

verus! {

// Downloaded payloads arrive as archive bytes and are expanded on disk
// by the zip crate.  The archive handle and its error are declared so
// verified code can carry them; the two calls into the crate stand
// behind trusted wrappers, and the error mapping around them is
// verified: whatever goes wrong with an archive surfaces as
// `UnzipFailed`.

#[verifier::external_type_specification]
#[verifier::external_body]
pub struct ExZipError(zip::result::ZipError);

#[verifier::external_type_specification]
#[verifier::external_body]
#[verifier::reject_recursive_types(R)]
pub struct ExZipArchive<R>(zip::read::ZipArchive<R>);

#[verifier::external_type_specification]
#[verifier::external_body]
#[verifier::reject_recursive_types(T)]
pub struct ExCursor<T>(std::io::Cursor<T>);

/// Every archive failure is folded into the one `UnzipFailed` kind.
impl core::convert::From<zip::result::ZipError> for APIErr {
    fn from(e: zip::result::ZipError) -> (r: Self) {
        APIErr::UnzipFailed
    }
}

impl vstd::std_specs::convert::FromSpecImpl<zip::result::ZipError> for APIErr {
    open spec fn obeys_from_spec() -> bool {
        true
    }

    open spec fn from_spec(e: zip::result::ZipError) -> Self {
        APIErr::UnzipFailed
    }
}

/// Relies on zip::read::ZipArchive::new: reads the central directory of
/// an archive held in memory; malformed bytes are an error and nothing
/// is touched on disk.
#[verifier::external_body]
fn open_archive(bytes: Vec<u8>) -> (r: Result<
    zip::read::ZipArchive<std::io::Cursor<Vec<u8>>>,
    zip::result::ZipError,
>) {
    zip::read::ZipArchive::new(std::io::Cursor::new(bytes))
}

/// Relies on zip::read::ZipArchive::extract: creates the directory as
/// needed and expands every entry of the archive beneath it; an entry
/// that cannot be read or written is an error.
#[verifier::external_body]
fn extract_archive(
    archive: &mut zip::read::ZipArchive<std::io::Cursor<Vec<u8>>>,
    dir: &str,
) -> (r: Result<(), zip::result::ZipError>) {
    archive.extract(dir)
}

/// The path of the song's own subdirectory beneath `dir`.
pub open spec fn spec_song_path(dir: Seq<char>, label: Seq<char>) -> Seq<char> {
    dir + "/"@ + label
}

fn join_path(dir: &str, name: &str) -> (r: String)
    ensures
        r@ == spec_song_path(dir@, name@),
{
    let mut s = String::from_str(dir);
    s.append("/");
    s.append(name);
    s
}

/// Expands a downloaded archive beneath `dir`, into the subdirectory
/// named by the song's label.  The subdirectory is created as needed —
/// a directory left over from an earlier run is reused, and a malformed
/// archive fails before anything is created.  Every archive failure is
/// reported as `UnzipFailed`.
pub fn unzip_song(song_info: &SongInfo, bytes: Vec<u8>, dir: &str) -> (r: Result<(), APIErr>)
    ensures
        r matches Err(e) ==> e == APIErr::UnzipFailed,
{
    let song_path = join_path(dir, song_info.label().as_str());
    let mut archive = match open_archive(bytes) {
        Ok(a) => a,
        Err(e) => {
            return Err(APIErr::from(e));
        },
    };
    match extract_archive(&mut archive, song_path.as_str()) {
        Ok(_) => Ok(()),
        Err(e) => Err(APIErr::from(e)),
    }
}

} // verus!
