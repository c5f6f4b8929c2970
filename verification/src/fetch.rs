use vstd::prelude::*;
use vstd::string::*;
use crate::archive::unzip_song;
use crate::batch::{lemma_batch_inv, Batch};
use crate::error::APIErr;
use crate::parse::parse_song_info;
use crate::shared::SharedInfo;
use crate::song::SongInfo;

verus! {

// The blocking fetch pipeline: resolve an identifier against the
// metadata endpoint, download the archive it points at, and unpack it.
// The network calls stand behind trusted wrappers — what they return
// depends on the network alone — and everything decided about their
// results is verified: the field extraction, the error mapping, and the
// sequential batch driver at the bottom of the file.

#[verifier::external_type_specification]
#[verifier::external_body]
pub struct ExReqwestError(reqwest::Error);

#[verifier::external_type_specification]
#[verifier::external_body]
pub struct ExBlockingResponse(reqwest::blocking::Response);

/// Every transport-level failure is folded into the one
/// `ReqwestFailed` kind.
impl core::convert::From<reqwest::Error> for APIErr {
    fn from(e: reqwest::Error) -> (r: Self) {
        APIErr::ReqwestFailed
    }
}

impl vstd::std_specs::convert::FromSpecImpl<reqwest::Error> for APIErr {
    open spec fn obeys_from_spec() -> bool {
        true
    }

    open spec fn from_spec(e: reqwest::Error) -> Self {
        APIErr::ReqwestFailed
    }
}

/// Relies on reqwest::blocking::get: one HTTP GET of the given URL,
/// following redirects; what comes back depends on the network alone.
#[verifier::external_body]
fn http_get(url: &str) -> (r: Result<reqwest::blocking::Response, reqwest::Error>) {
    reqwest::blocking::get(url)
}

/// Relies on reqwest::blocking::Response::text: decodes the response
/// body as text, an error when it cannot be decoded.
#[verifier::external_body]
fn response_text(response: reqwest::blocking::Response) -> (r: Result<String, reqwest::Error>) {
    response.text()
}

/// Relies on reqwest::blocking::Response::bytes: reads the whole
/// response body into memory.
#[verifier::external_body]
fn response_bytes(response: reqwest::blocking::Response) -> (r: Result<Vec<u8>, reqwest::Error>) {
    response.bytes().map(|b| b.to_vec())
}

/// The metadata URL an identifier is resolved at.
pub open spec fn spec_song_url(id: Seq<char>) -> Seq<char> {
    "https://api.beatsaver.com/maps/id/"@ + id
}

fn song_url(id: &str) -> (r: String)
    ensures
        r@ == spec_song_url(id@),
{
    let mut s = String::from_str("https://api.beatsaver.com/maps/id/");
    s.append(id);
    s
}

/// Resolves one identifier: one GET of its metadata URL, the body
/// decoded as text and scanned for the three fields.  A transport
/// failure is `ReqwestFailed`, an undecodable body `InvalidText`, a
/// body without the fields `SongNotFound`; a resolved song always
/// carries the identifier it was asked about.
pub fn get_song_info(id: String) -> (r: Result<SongInfo, APIErr>)
    ensures
        r matches Ok(info) ==> info.id@ == id@,
        r matches Err(e) ==> (e == APIErr::ReqwestFailed || e == APIErr::InvalidText || e
            == APIErr::SongNotFound),
{
    let url = song_url(id.as_str());
    let response = match http_get(url.as_str()) {
        Ok(re) => re,
        Err(e) => {
            return Err(APIErr::from(e));
        },
    };
    let contents = match response_text(response) {
        Ok(c) => c,
        Err(_) => {
            return Err(APIErr::InvalidText);
        },
    };
    parse_song_info(id, contents.as_str())
}

/// Fetches a resolved song's archive bytes from its payload location.
/// The only failure is transport-level: `ReqwestFailed`.
pub fn download_song(song_info: &SongInfo) -> (r: Result<Vec<u8>, APIErr>)
    ensures
        r matches Err(e) ==> e == APIErr::ReqwestFailed,
{
    let response = match http_get(song_info.download_url.as_str()) {
        Ok(re) => re,
        Err(e) => {
            return Err(APIErr::from(e));
        },
    };
    match response_bytes(response) {
        Ok(b) => Ok(b),
        Err(e) => Err(APIErr::from(e)),
    }
}

/// Downloads a resolved song's archive and unpacks it beneath `dir`:
/// a failed transfer is `ReqwestFailed`, a failed expansion
/// `UnzipFailed`.
pub fn download_and_unzip_song(song_info: SongInfo, dir: &str) -> (r: Result<(), APIErr>)
    ensures
        r matches Err(e) ==> (e == APIErr::ReqwestFailed || e == APIErr::UnzipFailed),
{
    let bytes = match download_song(&song_info) {
        Ok(b) => b,
        Err(e) => {
            return Err(e);
        },
    };
    unzip_song(&song_info, bytes, dir)
}

/// The whole per-item unit of work: resolve the identifier, download
/// its archive, unpack it beneath `dir`.  Any stage's failure
/// short-circuits and is reported under its own kind.
pub fn download_thread(id: String, dir: &str) -> (r: Result<(), APIErr>)
    ensures
        r matches Err(e) ==> (e == APIErr::ReqwestFailed || e == APIErr::InvalidText || e
            == APIErr::SongNotFound || e == APIErr::UnzipFailed),
{
    let song_info = match get_song_info(id) {
        Ok(s) => s,
        Err(e) => {
            return Err(e);
        },
    };
    download_and_unzip_song(song_info, dir)
}

/// Processes a whole identifier list one at a time: each identifier is
/// dispatched and completed before the next, so at most one is ever in
/// flight.  The returned record is terminal — nothing left in flight,
/// the running flag down — and its completed tally and failure list add
/// up to the whole input: every identifier was attempted exactly once.
pub fn spawn_threads(id_list: Vec<String>, dir: &str) -> (info: SharedInfo)
    ensures
        info.wf(),
        !info.downloading,
        info.in_flight().len() == 0,
        info.downloaded + info.failures().len() == id_list@.len(),
{
    let ghost n = id_list@.len();
    let mut b = Batch::start(id_list, 1);
    loop
        invariant
            b.inv(),
            b.total() == n,
            b.state().running,
            b.state().in_flight.len() == 0,
        ensures
            b.inv(),
            b.total() == n,
            b.state().running,
            b.state().terminal(),
        decreases b.state().measure(),
    {
        match b.try_dispatch() {
            Some(id) => {
                let outcome = download_thread(id.clone(), dir);
                proof {
                    assert(b.state().in_flight[0] == id@);
                    assert(b.state().in_flight.contains(id@));
                }
                b.on_completion(&id, outcome);
            },
            None => {
                proof {
                    crate::batch::lemma_batch_inv(b);
                }
                break ;
            },
        }
    }
    proof {
        lemma_batch_inv(b);
        assert(b.state().terminal());
    }
    b.finish();
    b.into_info()
}

} // verus!
