//! The metadata record: the fields of one parsed status response.

use vstd::prelude::*;

verus! {

/// The mathematical form of a metadata record: strings as character
/// sequences, counters as the machine integers that hold them.
#[verifier::ext_equal]
pub ghost struct MetaSpec {
    pub file: Seq<char>,
    pub artist: Seq<char>,
    pub album: Seq<char>,
    pub title: Seq<char>,
    pub tracknumber: u8,
    pub discnumber: u8,
    pub date: Seq<char>,
    pub duration: u32,
    pub position: u32,
    pub status: Seq<char>,
}

impl MetaSpec {
    /// The record before any line of a response has been applied:
    /// every string empty, every counter zero.
    pub open spec fn init() -> MetaSpec {
        MetaSpec {
            file: Seq::empty(),
            artist: Seq::empty(),
            album: Seq::empty(),
            title: Seq::empty(),
            tracknumber: 0,
            discnumber: 0,
            date: Seq::empty(),
            duration: 0,
            position: 0,
            status: Seq::empty(),
        }
    }
}

/// One status response from the player, parsed. `file` empty means "no
/// track"; `tracknumber` 0 means "no track number"; `discnumber` 0 means
/// "single disc or unknown"; `duration` and `position` are whole seconds,
/// 0 meaning "unknown". The record is built once by the parser and is
/// read-only afterwards.
#[derive(Debug, PartialEq, Eq)]
pub struct Metadata {
    pub file: String,
    pub artist: String,
    pub album: String,
    pub title: String,
    pub tracknumber: u8,
    pub discnumber: u8,
    pub date: String,
    pub duration: u32,
    pub position: u32,
    pub status: String,
}

impl View for Metadata {
    type V = MetaSpec;

    open spec fn view(&self) -> MetaSpec {
        MetaSpec {
            file: self.file@,
            artist: self.artist@,
            album: self.album@,
            title: self.title@,
            tracknumber: self.tracknumber,
            discnumber: self.discnumber,
            date: self.date@,
            duration: self.duration,
            position: self.position,
            status: self.status@,
        }
    }
}

impl Default for Metadata {
    /// Every field at its documented default.
    fn default() -> (m: Metadata)
        ensures
            m@ == MetaSpec::init(),
    {
        let m = Metadata {
            file: String::new(),
            artist: String::new(),
            album: String::new(),
            title: String::new(),
            tracknumber: 0,
            discnumber: 0,
            date: String::new(),
            duration: 0,
            position: 0,
            status: String::new(),
        };
        proof {
            assert(m@ =~= MetaSpec::init());
        }
        m
    }
}

} // verus!
