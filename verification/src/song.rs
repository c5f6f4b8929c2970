use vstd::prelude::*;
use vstd::string::*;

verus! {

/// The metadata a song identifier resolves to: a display name, the
/// mapper's name, and the location of the downloadable archive.
#[derive(Clone, Debug)]
pub struct SongInfo {
    pub id: String,
    pub name: String,
    pub author: String,
    pub download_url: String,
}

/// The label of a resolved song, `<id> (<name> - <author>)`.
///
/// The subdirectory a song is unpacked into carries exactly this name,
/// so distinct resolved songs land in distinct subdirectories.
pub open spec fn spec_label(id: Seq<char>, name: Seq<char>, author: Seq<char>) -> Seq<char> {
    id + " ("@ + name + " - "@ + author + ")"@
}

impl SongInfo {
    /// Renders the song's label, used both for display and as the name
    /// of the directory its archive is unpacked into.
    pub fn label(&self) -> (r: String)
        ensures
            r@ == spec_label(self.id@, self.name@, self.author@),
    {
        let mut s = String::new();
        s.append(self.id.as_str());
        s.append(" (");
        s.append(self.name.as_str());
        s.append(" - ");
        s.append(self.author.as_str());
        s.append(")");
        s
    }
}

} // verus!
